use amux::dashboard::{
    button_at, new_session_name, Button, DashboardAction, DashboardInput, DashboardLayout, Focus,
    TuiState,
};
use amux::geometry::Rect;
use amux::model::{Pane, Session, SplitDirection};
use amux::screen::{button_line, pane_list_items, session_list_items, START_SESSION};
use amux::session_view::{
    pointer_action, KeyCode, PaneCommand, PaneHitbox, PointerKind, WHEEL_SCROLL_LINES,
};
use amux::tmux::{mouse_on_args, session_listing, TmuxError};

fn session(name: &str) -> Session {
    Session { id: "$1".to_owned(), name: name.to_owned(), windows: 1, attached: false }
}

fn pane(id: &str) -> Pane {
    Pane {
        id: id.to_owned(),
        index: 0,
        active: false,
        current_command: "bash".to_owned(),
        current_path: "/".to_owned(),
        width: 80,
        height: 24,
        left: 0,
        top: 0,
        cursor_x: 0,
        cursor_y: 0,
        cursor_visible: true,
    }
}

fn layout() -> DashboardLayout {
    DashboardLayout {
        sessions: Rect { x: 0, y: 0, width: 30, height: 10 },
        panes: Rect { x: 30, y: 0, width: 40, height: 5 },
        buttons: Rect { x: 0, y: 10, width: 70, height: 1 },
    }
}

fn key(c: char) -> DashboardInput {
    DashboardInput::Key(KeyCode::Char(c))
}

fn loaded() -> TuiState {
    let mut state = TuiState::new();
    state.refresh(Ok(vec![session("a"), session("b"), session("c")]));
    state.set_panes(Ok(vec![pane("%1"), pane("%2")]));
    state
}

#[test]
fn enter_on_an_empty_list_starts_a_shell_session() {
    let mut state = TuiState::new();
    state.refresh(Ok(Vec::new()));
    match state.handle_input(DashboardInput::Key(KeyCode::Enter), layout()) {
        DashboardAction::Launch(name) => assert_eq!(name, "shell"),
        _ => panic!("Enter on an empty list starts a session"),
    }
    match state.handle_input(DashboardInput::Click(5, 1), layout()) {
        DashboardAction::Launch(name) => assert_eq!(name, "shell"),
        _ => panic!("clicking Start Session starts a session"),
    }
    state.note_launch_failure("no tmux");
    assert_eq!(state.message(), "failed to start session: no tmux");
}

#[test]
fn new_session_names_avoid_existing_ones() {
    assert_eq!(new_session_name(&[]), Some("shell".to_owned()));
    assert_eq!(new_session_name(&[session("work")]), Some("shell".to_owned()));
    assert_eq!(
        new_session_name(&[session("shell"), session("shell-1")]),
        Some("shell-2".to_owned())
    );
}

#[test]
fn enter_attaches_the_selected_session() {
    let mut state = loaded();
    state.handle_input(key('j'), layout());
    match state.handle_input(DashboardInput::Key(KeyCode::Enter), layout()) {
        DashboardAction::Attach(Some(name)) => assert_eq!(name, "b"),
        _ => panic!("Enter attaches"),
    }
}

#[test]
fn keys_move_in_the_focused_list() {
    let mut state = loaded();
    assert!(matches!(state.handle_input(key('j'), layout()), DashboardAction::LoadPanes));
    assert_eq!(state.selected(), 1);
    assert!(matches!(
        state.handle_input(DashboardInput::Key(KeyCode::Tab), layout()),
        DashboardAction::Stay { redraw: true }
    ));
    assert_eq!(state.focus(), Focus::Panes);
    assert!(matches!(
        state.handle_input(DashboardInput::Key(KeyCode::Down), layout()),
        DashboardAction::Stay { redraw: true }
    ));
    assert_eq!(state.selected_pane(), 1);
    assert_eq!(state.selected(), 1);
    state.handle_input(key('j'), layout());
    assert_eq!(state.selected_pane(), 1);
    state.handle_input(key('k'), layout());
    assert_eq!(state.selected_pane(), 0);
    state.handle_input(DashboardInput::Key(KeyCode::Tab), layout());
    assert_eq!(state.focus(), Focus::Sessions);
}

#[test]
fn pane_keys_split_and_close_the_selected_pane() {
    let mut state = loaded();
    state.handle_input(DashboardInput::Key(KeyCode::Tab), layout());
    state.handle_input(key('j'), layout());
    match state.handle_input(key('|'), layout()) {
        DashboardAction::Pane(PaneCommand::Split { pane_id, direction }) => {
            assert_eq!(pane_id, "%2");
            assert_eq!(direction, SplitDirection::Right);
        }
        _ => panic!("| splits right"),
    }
    match state.handle_input(key('-'), layout()) {
        DashboardAction::Pane(PaneCommand::Split { direction, .. }) => {
            assert_eq!(direction, SplitDirection::Down)
        }
        _ => panic!("- splits down"),
    }
    match state.handle_input(key('x'), layout()) {
        DashboardAction::Pane(PaneCommand::Kill { pane_id }) => assert_eq!(pane_id, "%2"),
        _ => panic!("x closes"),
    }
    state.set_panes(Ok(vec![pane("%1")]));
    assert_eq!(state.selected_pane(), 0);
    assert!(matches!(state.handle_input(key('x'), layout()), DashboardAction::Stay { redraw: true }));
    assert_eq!(state.message(), "not closing the last pane");
    state.set_panes(Ok(Vec::new()));
    assert!(matches!(state.handle_input(key('|'), layout()), DashboardAction::Stay { redraw: true }));
    assert_eq!(state.message(), "no pane selected");
}

#[test]
fn pane_outcomes_are_reported() {
    let mut state = loaded();
    let split = PaneCommand::Split { pane_id: "%1".to_owned(), direction: SplitDirection::Down };
    state.apply_pane_outcome(&split, Ok(()));
    assert_eq!(state.message(), "split pane down");
    let kill = PaneCommand::Kill { pane_id: "%1".to_owned() };
    state.apply_pane_outcome(&kill, Err("busy".to_owned()));
    assert_eq!(state.message(), "close failed: busy");
    state.apply_pane_outcome(&kill, Ok(()));
    assert_eq!(state.message(), "closed pane %1");
    state.set_panes(Err("gone".to_owned()));
    assert_eq!(state.message(), "failed to list panes: gone");
    assert!(state.panes().is_empty());
}

#[test]
fn clicks_select_rows_and_press_buttons() {
    let mut state = loaded();
    assert!(matches!(state.handle_input(DashboardInput::Click(3, 3), layout()), DashboardAction::LoadPanes));
    assert_eq!(state.selected(), 2);
    assert!(matches!(
        state.handle_input(DashboardInput::Click(35, 2), layout()),
        DashboardAction::Stay { redraw: true }
    ));
    assert_eq!(state.selected_pane(), 1);
    assert_eq!(state.focus(), Focus::Panes);
    assert!(matches!(
        state.handle_input(DashboardInput::Click(35, 0), layout()),
        DashboardAction::Stay { redraw: false }
    ));
    assert!(matches!(state.handle_input(DashboardInput::Click(40, 10), layout()), DashboardAction::Refresh));
    match state.handle_input(DashboardInput::Click(8, 10), layout()) {
        DashboardAction::Attach(Some(name)) => assert_eq!(name, "c"),
        _ => panic!("Attach button"),
    }
    match state.handle_input(DashboardInput::Click(16, 10), layout()) {
        DashboardAction::Pane(PaneCommand::Split { direction, .. }) => {
            assert_eq!(direction, SplitDirection::Right)
        }
        _ => panic!("Right button"),
    }
    match state.handle_input(DashboardInput::Click(1, 10), layout()) {
        DashboardAction::Launch(name) => assert_eq!(name, "shell"),
        _ => panic!("New button"),
    }
    assert!(matches!(
        state.handle_input(DashboardInput::Click(5, 10), layout()),
        DashboardAction::Stay { redraw: false }
    ));
}

#[test]
fn wheel_moves_the_hovered_list() {
    let mut state = loaded();
    assert!(matches!(
        state.handle_input(DashboardInput::ScrollDown(35, 2), layout()),
        DashboardAction::Stay { redraw: true }
    ));
    assert_eq!(state.selected_pane(), 1);
    assert_eq!(state.selected(), 0);
    assert!(matches!(state.handle_input(DashboardInput::ScrollDown(3, 2), layout()), DashboardAction::LoadPanes));
    assert_eq!(state.selected(), 1);
    state.handle_input(DashboardInput::ScrollUp(60, 20), layout());
    assert_eq!(state.selected(), 0);
    state.handle_input(DashboardInput::ScrollUp(35, 2), layout());
    assert_eq!(state.selected_pane(), 0);
    assert!(matches!(state.handle_input(key('r'), layout()), DashboardAction::Refresh));
    assert!(matches!(state.handle_input(key('q'), layout()), DashboardAction::Quit));
    assert!(matches!(state.handle_input(DashboardInput::Key(KeyCode::Esc), layout()), DashboardAction::Quit));
    assert!(matches!(
        state.handle_input(DashboardInput::Resize, layout()),
        DashboardAction::Stay { redraw: true }
    ));
}

#[test]
fn buttons_are_where_they_are_drawn() {
    let area = Rect { x: 2, y: 7, width: 60, height: 1 };
    let texts: Vec<String> = button_line().spans.iter().map(|s| s.content.clone()).collect();
    let mut column = 2u16;
    for text in texts {
        let expected = match text.as_str() {
            "[New]" => Some(Button::New),
            "[Attach]" => Some(Button::Attach),
            "[Right]" => Some(Button::Right),
            "[Down]" => Some(Button::Down),
            "[Close]" => Some(Button::Close),
            "[Refresh]" => Some(Button::Refresh),
            _ => None,
        };
        for _ in text.chars() {
            assert_eq!(button_at(area, column, 7), expected);
            column += 1;
        }
    }
    assert_eq!(button_at(area, column, 7), None);
    assert_eq!(button_at(area, 3, 8), None);
}

#[test]
fn launcher_and_pane_lists_show_their_rows() {
    let items = session_list_items(&[]);
    assert_eq!(items[0].spans[0].content, START_SESSION);
    let panes = pane_list_items(&[pane("%3")]);
    let texts: Vec<String> = panes[0].spans.iter().map(|s| s.content.clone()).collect();
    assert_eq!(texts, vec!["%3".to_owned(), " bash".to_owned(), "  80x24".to_owned()]);
    assert_eq!(pane_list_items(&[])[0].spans[0].content, "No panes.");
}

#[test]
fn session_listing_outcomes() {
    let ok = session_listing(true, "exit status: 0", "$1\twork\t2\t1\n", "").unwrap();
    assert_eq!(ok.len(), 1);
    assert!(ok[0].attached);
    assert_eq!(
        session_listing(false, "exit status: 1", "", "no server running on /tmp/x\n").unwrap().len(),
        0
    );
    assert_eq!(
        session_listing(false, "exit status: 1", "", "boom\n"),
        Err("tmux list-sessions failed with status exit status: 1: boom".to_owned())
    );
    assert_eq!(
        session_listing(true, "exit status: 0", "bad\n", ""),
        Err("unexpected tmux session row: bad".to_owned())
    );
}

#[test]
fn mouse_support_arguments() {
    let args: Vec<String> = ["set-option", "-t", "work", "mouse", "on"].iter().map(|s| s.to_string()).collect();
    assert_eq!(mouse_on_args("work").unwrap(), args);
    assert_eq!(mouse_on_args(""), Err(TmuxError::EmptySessionName));
}

#[test]
fn pointer_actions_in_the_session_view() {
    let hitboxes = vec![
        PaneHitbox { pane_id: "%1".to_owned(), area: Rect { x: 0, y: 0, width: 10, height: 5 } },
        PaneHitbox { pane_id: "%2".to_owned(), area: Rect { x: 10, y: 0, width: 10, height: 5 } },
    ];
    let click = pointer_action(&hitboxes, PointerKind::LeftDown, 12, 1);
    assert_eq!(click.select, Some("%2".to_owned()));
    assert_eq!(click.scroll, 0);
    assert!(click.redraw);
    let miss = pointer_action(&hitboxes, PointerKind::LeftDown, 30, 1);
    assert_eq!(miss.select, None);
    assert!(!miss.redraw);
    let up = pointer_action(&hitboxes, PointerKind::ScrollUp, 1, 1);
    assert_eq!(up.select, Some("%1".to_owned()));
    assert_eq!(up.scroll, WHEEL_SCROLL_LINES);
    let down = pointer_action(&hitboxes, PointerKind::ScrollDown, 30, 30);
    assert_eq!(down.select, None);
    assert_eq!(down.scroll, -WHEEL_SCROLL_LINES);
    assert!(down.redraw);
}
