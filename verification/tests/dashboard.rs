use amux::dashboard::{
    dashboard_footer, dashboard_title, pad_to_width, session_name_column, session_row_from_mouse,
    session_windows_column, TuiState,
};
use amux::geometry::Rect;
use amux::model::Session;

fn session(name: &str) -> Session {
    Session {
        id: format!("${name}"),
        name: name.to_owned(),
        windows: 1,
        attached: false,
    }
}

#[test]
fn mouse_rows_map_inside_list_block() {
    let area = Rect {
        x: 0,
        y: 2,
        width: 40,
        height: 10,
    };

    assert_eq!(session_row_from_mouse(area, 2), None);
    assert_eq!(session_row_from_mouse(area, 3), Some(0));
    assert_eq!(session_row_from_mouse(area, 5), Some(2));
    assert_eq!(session_row_from_mouse(area, 11), None);
}

#[test]
fn refresh_caps_selection_and_counts_sessions() {
    let mut state = TuiState::new();
    assert_eq!(state.message(), "loading sessions");
    state.refresh(Ok(vec![session("a"), session("b"), session("c")]));
    assert_eq!(state.message(), "3 local sessions");
    state.select_row(2);
    assert_eq!(state.selected(), 2);
    state.refresh(Ok(vec![session("a")]));
    assert_eq!(state.selected(), 0);
    assert_eq!(state.selected_session_name(), Some("a".to_owned()));
    state.refresh(Err("tmux exploded".to_owned()));
    assert_eq!(state.message(), "failed to list sessions: tmux exploded");
    assert!(state.sessions().is_empty());
    assert_eq!(state.selected_session_name(), None);
}

#[test]
fn selection_moves_and_stops_at_the_ends() {
    let mut state = TuiState::new();
    state.select_next();
    assert_eq!(state.selected(), 0);
    state.refresh(Ok(vec![session("a"), session("b")]));
    state.select_next();
    assert_eq!(state.selected(), 1);
    state.select_next();
    assert_eq!(state.selected(), 1);
    state.select_previous();
    assert_eq!(state.selected(), 0);
    state.select_previous();
    assert_eq!(state.selected(), 0);
    state.select_row(5);
    assert_eq!(state.selected(), 0);
}

#[test]
fn dashboard_texts() {
    assert_eq!(dashboard_title(2), " amux local | 2 sessions ");
    assert_eq!(
        dashboard_footer("ok"),
        " ok | q/Esc quit | r refresh | j/k select | Enter attach | mouse click/wheel "
    );
    assert_eq!(pad_to_width("ab", 4), "ab  ");
    assert_eq!(pad_to_width("abcdef", 4), "abcdef");
    assert_eq!(session_name_column(&session("work")), format!("{:<20}", "work"));
    let mut s = session("w");
    s.windows = 12;
    assert_eq!(session_windows_column(&s), "  12w");
}
