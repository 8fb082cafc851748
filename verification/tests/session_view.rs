use amux::geometry::{
    count_before, count_inside, layout_bounds, pane_area, pane_panel_area, panel_border_symbol_at,
    separator_columns, separator_rows, separator_symbol_at, tmux_content_size_for_body, Rect,
};
use amux::model::{Pane, SplitDirection};
use amux::session_view::{
    footer_text, hit_pane, pane_frames, select_pane_index, selected_cursor_position, KeyCode,
    KeyInput, PaneCommand, PaneHitbox, SessionViewState,
};

fn pane(id: &str, active: bool, width: usize, height: usize, left: usize, top: usize) -> Pane {
    Pane {
        id: id.to_owned(),
        index: 0,
        active,
        current_command: "bash".to_owned(),
        current_path: "/tmp".to_owned(),
        width,
        height,
        left,
        top,
        cursor_x: 0,
        cursor_y: 0,
        cursor_visible: true,
    }
}

#[test]
fn cursor_position_offsets_with_panel_border_and_keeps_content_geometry() {
    let mut state = SessionViewState::new("work");
    state.panes = vec![Pane {
        id: "%1".to_owned(),
        index: 0,
        active: true,
        current_command: "bash".to_owned(),
        current_path: "/tmp".to_owned(),
        width: 78,
        height: 22,
        left: 0,
        top: 0,
        cursor_x: 37,
        cursor_y: 3,
        cursor_visible: true,
    }];

    let cursor = selected_cursor_position(
        Rect {
            x: 0,
            y: 0,
            width: 80,
            height: 24,
        },
        &state,
    );

    assert_eq!(cursor, Some((38, 4)));
}

#[test]
fn cursor_position_respects_split_pane_origin() {
    let mut state = SessionViewState::new("work");
    state.panes = vec![
        Pane {
            id: "%1".to_owned(),
            index: 0,
            active: false,
            current_command: "bash".to_owned(),
            current_path: "/tmp".to_owned(),
            width: 39,
            height: 22,
            left: 0,
            top: 0,
            cursor_x: 0,
            cursor_y: 0,
            cursor_visible: true,
        },
        Pane {
            id: "%2".to_owned(),
            index: 1,
            active: true,
            current_command: "bash".to_owned(),
            current_path: "/tmp".to_owned(),
            width: 38,
            height: 22,
            left: 40,
            top: 0,
            cursor_x: 5,
            cursor_y: 2,
            cursor_visible: true,
        },
    ];
    state.selected_pane = 1;

    let cursor = selected_cursor_position(
        Rect {
            x: 0,
            y: 0,
            width: 80,
            height: 24,
        },
        &state,
    );

    assert_eq!(cursor, Some((47, 3)));
}

#[test]
fn pane_area_adds_visual_gap_for_tmux_separator_column() {
    let panes = vec![
        Pane {
            id: "%1".to_owned(),
            index: 0,
            active: false,
            current_command: "bash".to_owned(),
            current_path: "/tmp".to_owned(),
            width: 39,
            height: 22,
            left: 0,
            top: 0,
            cursor_x: 0,
            cursor_y: 0,
            cursor_visible: true,
        },
        Pane {
            id: "%2".to_owned(),
            index: 1,
            active: true,
            current_command: "bash".to_owned(),
            current_path: "/tmp".to_owned(),
            width: 38,
            height: 22,
            left: 40,
            top: 0,
            cursor_x: 0,
            cursor_y: 0,
            cursor_visible: true,
        },
    ];

    let body = Rect {
        x: 0,
        y: 0,
        width: 80,
        height: 24,
    };
    let left = pane_area(body, &panes[0], &panes);
    let right = pane_area(body, &panes[1], &panes);

    assert_eq!(left, Rect::new(1, 1, 39, 22));
    assert_eq!(right, Rect::new(42, 1, 37, 22));
}

#[test]
fn pane_area_expands_panes_that_span_adjacent_split_rows() {
    let panes = vec![
        Pane {
            id: "%1".to_owned(),
            index: 0,
            active: false,
            current_command: "bash".to_owned(),
            current_path: "/tmp".to_owned(),
            width: 38,
            height: 20,
            left: 0,
            top: 0,
            cursor_x: 0,
            cursor_y: 0,
            cursor_visible: true,
        },
        Pane {
            id: "%2".to_owned(),
            index: 1,
            active: false,
            current_command: "bash".to_owned(),
            current_path: "/tmp".to_owned(),
            width: 38,
            height: 9,
            left: 39,
            top: 0,
            cursor_x: 0,
            cursor_y: 0,
            cursor_visible: true,
        },
        Pane {
            id: "%3".to_owned(),
            index: 2,
            active: true,
            current_command: "bash".to_owned(),
            current_path: "/tmp".to_owned(),
            width: 38,
            height: 10,
            left: 39,
            top: 10,
            cursor_x: 0,
            cursor_y: 0,
            cursor_visible: true,
        },
    ];

    let body = Rect::new(0, 0, 80, 23);
    let left = pane_area(body, &panes[0], &panes);
    let top_right = pane_area(body, &panes[1], &panes);
    let bottom_right = pane_area(body, &panes[2], &panes);

    assert_eq!(left, Rect::new(1, 1, 38, 21));
    assert_eq!(top_right, Rect::new(41, 1, 38, 9));
    assert_eq!(bottom_right, Rect::new(41, 12, 38, 10));
}

#[test]
fn separator_uses_gap_column_between_side_by_side_panes() {
    let panes = [
        Rect {
            x: 0,
            y: 0,
            width: 40,
            height: 24,
        },
        Rect {
            x: 41,
            y: 0,
            width: 39,
            height: 24,
        },
    ];

    assert_eq!(separator_symbol_at(39, 4, &panes), None);
    assert_eq!(separator_symbol_at(40, 4, &panes), Some("│"));
    assert_eq!(separator_symbol_at(41, 4, &panes), None);
}

#[test]
fn separator_uses_gap_row_between_stacked_panes() {
    let panes = [
        Rect {
            x: 0,
            y: 0,
            width: 80,
            height: 10,
        },
        Rect {
            x: 0,
            y: 11,
            width: 80,
            height: 13,
        },
    ];

    assert_eq!(separator_symbol_at(12, 9, &panes), None);
    assert_eq!(separator_symbol_at(12, 10, &panes), Some("─"));
    assert_eq!(separator_symbol_at(12, 11, &panes), None);
}

#[test]
fn separator_marks_crossing_between_four_panes() {
    let panes = [
        Rect {
            x: 0,
            y: 0,
            width: 40,
            height: 10,
        },
        Rect {
            x: 41,
            y: 0,
            width: 39,
            height: 10,
        },
        Rect {
            x: 0,
            y: 11,
            width: 40,
            height: 13,
        },
        Rect {
            x: 41,
            y: 11,
            width: 39,
            height: 13,
        },
    ];

    assert_eq!(separator_symbol_at(40, 10, &panes), Some("┼"));
}

#[test]
fn panel_area_wraps_each_pane_as_an_independent_box() {
    let body = Rect {
        x: 0,
        y: 0,
        width: 80,
        height: 24,
    };
    let left = pane_panel_area(body, Rect::new(1, 1, 39, 22));
    let right = pane_panel_area(body, Rect::new(42, 1, 37, 22));

    assert_eq!(left, Rect::new(0, 0, 41, 24));
    assert_eq!(right, Rect::new(41, 0, 39, 24));
    assert_eq!(panel_border_symbol_at(0, 0, left), Some("╭"));
    assert_eq!(panel_border_symbol_at(40, 0, left), Some("╮"));
    assert_eq!(panel_border_symbol_at(41, 0, right), Some("╭"));
    assert_eq!(panel_border_symbol_at(79, 23, right), Some("╯"));
}

#[test]
fn tmux_content_size_reserves_cells_for_independent_panel_chrome() {
    let panes = vec![
        Pane {
            id: "%1".to_owned(),
            index: 0,
            active: false,
            current_command: "bash".to_owned(),
            current_path: "/tmp".to_owned(),
            width: 39,
            height: 22,
            left: 0,
            top: 0,
            cursor_x: 0,
            cursor_y: 0,
            cursor_visible: true,
        },
        Pane {
            id: "%2".to_owned(),
            index: 1,
            active: true,
            current_command: "bash".to_owned(),
            current_path: "/tmp".to_owned(),
            width: 38,
            height: 22,
            left: 40,
            top: 0,
            cursor_x: 0,
            cursor_y: 0,
            cursor_visible: true,
        },
    ];

    assert_eq!(
        tmux_content_size_for_body(Rect::new(0, 0, 80, 24), &panes),
        (77, 22)
    );
}

#[test]
fn rect_new_cuts_size_to_cell_range() {
    assert_eq!(Rect::new(65530, 0, 10, 3), Rect { x: 65530, y: 0, width: 5, height: 3 });
}

#[test]
fn separators_of_a_four_pane_layout() {
    let panes = [
        Rect::new(0, 0, 40, 10),
        Rect::new(41, 0, 39, 10),
        Rect::new(0, 11, 40, 13),
        Rect::new(41, 11, 39, 13),
    ];
    assert_eq!(layout_bounds(&panes), Some((80, 24)));
    assert_eq!(separator_columns(&panes), vec![40]);
    assert_eq!(separator_rows(&panes), vec![10]);
    assert_eq!(layout_bounds(&[]), None);
    assert!(separator_columns(&[]).is_empty());
}

#[test]
fn counting_positions() {
    assert_eq!(count_before(5, &[1, 3, 7, 2]), 2);
    assert_eq!(count_before(0, &[1, 3]), 0);
    assert_eq!(count_inside(2, 8, &[1, 2, 7, 8, 5]), 3);
}

#[test]
fn small_panels_have_no_border() {
    assert_eq!(panel_border_symbol_at(0, 0, Rect::new(0, 0, 1, 5)), None);
    let panel = Rect::new(2, 2, 4, 3);
    assert_eq!(panel_border_symbol_at(3, 2, panel), Some("─"));
    assert_eq!(panel_border_symbol_at(2, 3, panel), Some("│"));
    assert_eq!(panel_border_symbol_at(3, 3, panel), None);
    assert_eq!(panel_border_symbol_at(2, 4, panel), Some("╰"));
}

#[test]
fn pane_area_of_a_tiny_body_is_the_body() {
    let panes = vec![pane("%1", true, 10, 5, 0, 0)];
    let body = Rect::new(3, 4, 2, 10);
    assert_eq!(pane_area(body, &panes[0], &panes), body);
}

#[test]
fn frames_wrap_content_areas() {
    let panes = vec![pane("%1", false, 39, 22, 0, 0), pane("%2", true, 38, 22, 40, 0)];
    let frames = pane_frames(Rect::new(0, 0, 80, 24), &panes);
    assert_eq!(frames.len(), 2);
    assert_eq!(frames[0].pane_id, "%1");
    assert_eq!(frames[0].content, Rect::new(1, 1, 39, 22));
    assert_eq!(frames[0].panel, Rect::new(0, 0, 41, 24));
    assert_eq!(frames[1].panel, Rect::new(41, 0, 39, 24));
}

#[test]
fn pane_choice_prefers_previous_then_active_then_fallback() {
    let panes = vec![pane("%1", false, 1, 1, 0, 0), pane("%2", true, 1, 1, 0, 0), pane("%3", false, 1, 1, 0, 0)];
    assert_eq!(select_pane_index(&panes, Some("%3"), 0), 2);
    assert_eq!(select_pane_index(&panes, Some("%9"), 0), 1);
    assert_eq!(select_pane_index(&panes, None, 0), 1);
    let idle = vec![pane("%1", false, 1, 1, 0, 0), pane("%2", false, 1, 1, 0, 0)];
    assert_eq!(select_pane_index(&idle, None, 7), 1);
    assert_eq!(select_pane_index(&idle, None, 0), 0);
    assert_eq!(select_pane_index(&[], Some("%1"), 4), 0);
}

#[test]
fn scrolling_back_and_forward_returns_to_live_view() {
    let mut state = SessionViewState::new("work");
    state.panes = vec![pane("%1", true, 10, 5, 0, 0)];
    state.scroll_selected(3);
    assert_eq!(state.scroll_offset("%1"), 3);
    assert_eq!(state.message, "scrollback -3");
    state.scroll_selected(3);
    assert_eq!(state.scroll_offset("%1"), 6);
    state.scroll_selected(-3);
    assert_eq!(state.scroll_offset("%1"), 3);
    state.scroll_selected(-10);
    assert_eq!(state.scroll_offset("%1"), 0);
    assert_eq!(state.message, "live view");
}

#[test]
fn scrolling_without_panes_changes_nothing() {
    let mut state = SessionViewState::new("work");
    state.scroll_selected(3);
    assert_eq!(state.message, "opening session");
}

#[test]
fn typing_returns_pane_to_live_view_and_sends_text() {
    let mut state = SessionViewState::new("work");
    state.panes = vec![pane("%1", true, 10, 5, 0, 0)];
    state.scroll_selected(3);
    let (keep, commands) = state.handle_key(KeyInput { code: KeyCode::Char('x'), ctrl: false, alt: false });
    assert!(keep);
    assert_eq!(state.scroll_offset("%1"), 0);
    assert_eq!(commands.len(), 1);
    match &commands[0] {
        PaneCommand::SendLiteral { pane_id, text } => {
            assert_eq!(pane_id, "%1");
            assert_eq!(text, "x");
        }
        _ => panic!("expected literal text"),
    }
}

#[test]
fn control_letters_alt_characters_and_named_keys() {
    let mut state = SessionViewState::new("work");
    state.panes = vec![pane("%4", true, 10, 5, 0, 0)];
    let (_, commands) = state.handle_key(KeyInput { code: KeyCode::Char('C'), ctrl: true, alt: false });
    match &commands[0] {
        PaneCommand::SendKey { key, .. } => assert_eq!(key, "C-c"),
        _ => panic!("expected a key"),
    }
    let (_, commands) = state.handle_key(KeyInput { code: KeyCode::Char('b'), ctrl: false, alt: true });
    assert_eq!(commands.len(), 2);
    match (&commands[0], &commands[1]) {
        (PaneCommand::SendKey { key, .. }, PaneCommand::SendLiteral { text, .. }) => {
            assert_eq!(key, "Escape");
            assert_eq!(text, "b");
        }
        _ => panic!("expected Escape then text"),
    }
    let (_, commands) = state.handle_key(KeyInput { code: KeyCode::PageUp, ctrl: false, alt: false });
    match &commands[0] {
        PaneCommand::SendKey { key, .. } => assert_eq!(key, "PPage"),
        _ => panic!("expected a key"),
    }
    let (_, commands) = state.handle_key(KeyInput { code: KeyCode::F(12), ctrl: false, alt: false });
    match &commands[0] {
        PaneCommand::SendKey { key, .. } => assert_eq!(key, "F12"),
        _ => panic!("expected a key"),
    }
    let (_, commands) = state.handle_key(KeyInput { code: KeyCode::Other, ctrl: false, alt: false });
    assert!(commands.is_empty());
}

#[test]
fn command_mode_splits_closes_and_quits() {
    let mut state = SessionViewState::new("work");
    state.panes = vec![pane("%1", true, 10, 5, 0, 0), pane("%2", false, 10, 5, 11, 0)];
    let ctrl_a = KeyInput { code: KeyCode::Char('a'), ctrl: true, alt: false };
    let (keep, commands) = state.handle_key(ctrl_a);
    assert!(keep && commands.is_empty() && state.command_mode);
    assert_eq!(state.message, "command mode");
    assert_eq!(footer_text(&state), " COMMAND | v split right | h split down | x close | r refresh | q detach | Esc cancel ");

    let (keep, commands) = state.handle_key(KeyInput { code: KeyCode::Char('|'), ctrl: false, alt: false });
    assert!(keep && !state.command_mode);
    match &commands[0] {
        PaneCommand::Split { pane_id, direction } => {
            assert_eq!(pane_id, "%1");
            assert_eq!(*direction, SplitDirection::Right);
        }
        _ => panic!("expected a split"),
    }
    state.apply_outcome(&commands[0], Ok(()));
    assert_eq!(state.selected_pane, 2);
    assert_eq!(state.message, "split pane right");

    state.selected_pane = 1;
    state.handle_key(ctrl_a);
    let (_, commands) = state.handle_key(KeyInput { code: KeyCode::Char('x'), ctrl: false, alt: false });
    match &commands[0] {
        PaneCommand::Kill { pane_id } => assert_eq!(pane_id, "%2"),
        _ => panic!("expected a kill"),
    }
    state.apply_outcome(&commands[0], Ok(()));
    assert_eq!(state.selected_pane, 0);
    assert_eq!(state.message, "closed pane %2");

    state.handle_key(ctrl_a);
    let (keep, _) = state.handle_key(KeyInput { code: KeyCode::Char('z'), ctrl: false, alt: false });
    assert!(keep && state.command_mode);
    assert_eq!(state.message, "unknown command: z");
    let (keep, _) = state.handle_key(KeyInput { code: KeyCode::Char('q'), ctrl: false, alt: false });
    assert!(!keep);
}

#[test]
fn the_last_pane_is_not_closed() {
    let mut state = SessionViewState::new("work");
    state.panes = vec![pane("%1", true, 10, 5, 0, 0)];
    assert!(state.close_selected_pane().is_none());
    assert_eq!(state.message, "not closing the last pane");
}

#[test]
fn failures_are_reported() {
    let mut state = SessionViewState::new("work");
    state.panes = vec![pane("%1", true, 10, 5, 0, 0)];
    let command = state.send_key("Enter").unwrap();
    state.apply_outcome(&command, Err("boom".to_owned()));
    assert_eq!(state.message, "send failed: boom");
    let command = state.select_pane_id("%1").unwrap();
    state.apply_outcome(&command, Ok(()));
    assert_eq!(state.message, "selected pane %1");
    assert!(state.select_pane_id("%7").is_none());
    state.note_resize_failure("no room");
    assert_eq!(state.message, "resize failed: no room");
}

#[test]
fn accepting_panes_counts_them_and_requests_captures() {
    let mut state = SessionViewState::new("work");
    let panes = vec![pane("%1", false, 39, 22, 0, 0), pane("%2", true, 38, 22, 40, 0)];
    let requests = state.accept_panes(panes, Rect::new(0, 0, 80, 24));
    assert_eq!(state.message, "2 panes");
    assert_eq!(state.selected_pane, 1);
    assert_eq!(requests.len(), 2);
    assert_eq!(requests[0].pane_id, "%1");
    assert_eq!(requests[0].height, 22);
    assert_eq!(requests[1].scroll_offset, 0);
    assert_eq!(footer_text(&state), " %2 | 2 panes | Ctrl-A commands | click pane | wheel scroll ");

    state.store_capture("%1", Ok("hello".to_owned()));
    state.store_capture("%2", Err("gone".to_owned()));
    let i = state.capture_index("%2").unwrap();
    assert_eq!(state.captures[i].lines[0].spans[0].content, "capture failed: gone");
    let j = state.capture_index("%1").unwrap();
    assert_eq!(state.captures[j].lines[0].spans[0].content, "hello");
    assert!(state.capture_index("%3").is_none());
}

#[test]
fn pruning_forgets_offsets_of_closed_panes() {
    let mut state = SessionViewState::new("work");
    state.panes = vec![pane("%1", true, 10, 5, 0, 0), pane("%2", false, 10, 5, 11, 0)];
    state.scroll_selected(5);
    state.selected_pane = 1;
    state.scroll_selected(2);
    state.accept_panes(vec![pane("%2", true, 10, 5, 0, 0)], Rect::new(0, 0, 40, 12));
    assert_eq!(state.scroll_offset("%1"), 0);
    assert_eq!(state.scroll_offset("%2"), 2);
    assert_eq!(state.selected_pane, 0);
}

#[test]
fn hits_find_the_first_pane_under_the_mouse() {
    let hitboxes = vec![
        PaneHitbox { pane_id: "%1".to_owned(), area: Rect::new(0, 0, 10, 10) },
        PaneHitbox { pane_id: "%2".to_owned(), area: Rect::new(5, 0, 10, 10) },
    ];
    assert_eq!(hit_pane(&hitboxes, 7, 3), Some("%1".to_owned()));
    assert_eq!(hit_pane(&hitboxes, 12, 3), Some("%2".to_owned()));
    assert_eq!(hit_pane(&hitboxes, 20, 3), None);
}

#[test]
fn hidden_cursor_or_scrolled_pane_has_no_cursor() {
    let mut state = SessionViewState::new("work");
    let mut p = pane("%1", true, 78, 22, 0, 0);
    p.cursor_visible = false;
    state.panes = vec![p];
    assert_eq!(selected_cursor_position(Rect::new(0, 0, 80, 24), &state), None);
    state.panes[0].cursor_visible = true;
    state.panes[0].cursor_x = 500;
    assert_eq!(selected_cursor_position(Rect::new(0, 0, 80, 24), &state), Some((78, 1)));
    state.scroll_selected(1);
    assert_eq!(selected_cursor_position(Rect::new(0, 0, 80, 24), &state), None);
}
