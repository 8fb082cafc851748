use amux::geometry::Rect;
use amux::model::Pane;
use amux::refresh::{Refresh, RefreshAction, RefreshEvent};
use amux::session_view::SessionViewState;

fn pane(id: &str, width: usize, height: usize, left: usize) -> Pane {
    Pane {
        id: id.to_owned(),
        index: 0,
        active: true,
        current_command: "bash".to_owned(),
        current_path: "/tmp".to_owned(),
        width,
        height,
        left,
        top: 0,
        cursor_x: 0,
        cursor_y: 0,
        cursor_visible: true,
    }
}

fn body() -> Rect {
    Rect { x: 0, y: 0, width: 80, height: 23 }
}

fn expect_resize(action: &RefreshAction) -> (u16, u16) {
    match action {
        RefreshAction::Resize(w, h) => (*w, *h),
        _ => panic!("expected a resize"),
    }
}

#[test]
fn single_pane_refresh_captures_after_one_listing() {
    let mut state = SessionViewState::new("work");
    let (refresh, action) = Refresh::start(&state, body());
    assert_eq!(expect_resize(&action), (78, 21));
    let (refresh, action) = refresh.step(&mut state, RefreshEvent::Resized(Ok(())));
    assert!(matches!(action, RefreshAction::ListPanes));
    let (_, action) =
        refresh.step(&mut state, RefreshEvent::Listed(Ok(vec![pane("%1", 78, 21, 0)])));
    match action {
        RefreshAction::Capture(requests) => {
            assert_eq!(requests.len(), 1);
            assert_eq!(requests[0].pane_id, "%1");
            assert_eq!(requests[0].height, 21);
            assert_eq!(requests[0].scroll_offset, 0);
        }
        _ => panic!("expected captures"),
    }
    assert_eq!(state.panes.len(), 1);
    assert_eq!(state.message, "1 panes");
}

#[test]
fn split_layout_resizes_again_and_falls_back_to_the_first_listing() {
    let mut state = SessionViewState::new("work");
    let (refresh, _) = Refresh::start(&state, body());
    let (refresh, _) = refresh.step(&mut state, RefreshEvent::Resized(Ok(())));
    let listed = vec![pane("%1", 38, 21, 0), pane("%2", 39, 21, 39)];
    let (refresh, action) = refresh.step(&mut state, RefreshEvent::Listed(Ok(listed)));
    assert_eq!(expect_resize(&action), (77, 21));
    assert!(state.panes.is_empty());
    let (refresh, action) = refresh.step(&mut state, RefreshEvent::Resized(Ok(())));
    assert!(matches!(action, RefreshAction::ListPanes));
    let (_, action) = refresh.step(&mut state, RefreshEvent::Listed(Ok(Vec::new())));
    match action {
        RefreshAction::Capture(requests) => assert_eq!(requests.len(), 2),
        _ => panic!("expected captures"),
    }
    assert_eq!(state.panes[1].id, "%2");
    assert_eq!(state.message, "2 panes");
}

#[test]
fn second_resize_failure_keeps_the_first_listing_and_reports() {
    let mut state = SessionViewState::new("work");
    let (refresh, _) = Refresh::start(&state, body());
    let (refresh, _) = refresh.step(&mut state, RefreshEvent::Resized(Ok(())));
    let listed = vec![pane("%1", 38, 21, 0), pane("%2", 39, 21, 39)];
    let (refresh, _) = refresh.step(&mut state, RefreshEvent::Listed(Ok(listed)));
    let (_, action) = refresh.step(&mut state, RefreshEvent::Resized(Err("busy".to_owned())));
    assert!(matches!(action, RefreshAction::Capture(_)));
    assert_eq!(state.panes.len(), 2);
    assert_eq!(state.message, "resize failed: busy");
}

#[test]
fn refresh_ends_when_the_session_is_gone() {
    let mut state = SessionViewState::new("work");
    state.panes = vec![pane("%1", 78, 21, 0)];
    let (refresh, _) = Refresh::start(&state, body());
    let (refresh, _) = refresh.step(&mut state, RefreshEvent::Resized(Err("no session".to_owned())));
    assert_eq!(state.message, "resize failed: no session");
    let (_, action) = refresh.step(&mut state, RefreshEvent::Listed(Err("gone".to_owned())));
    assert!(matches!(action, RefreshAction::End));
    assert!(state.panes.is_empty());
    assert_eq!(state.selected_pane, 0);
}

#[test]
fn refresh_ends_on_an_empty_listing() {
    let mut state = SessionViewState::new("work");
    let (refresh, _) = Refresh::start(&state, body());
    let (refresh, _) = refresh.step(&mut state, RefreshEvent::Resized(Ok(())));
    let (_, action) = refresh.step(&mut state, RefreshEvent::Listed(Ok(Vec::new())));
    assert!(matches!(action, RefreshAction::End));
    assert_eq!(state.message, "opening session");
}

#[test]
fn out_of_turn_answers_end_the_refresh() {
    let mut state = SessionViewState::new("work");
    let (refresh, _) = Refresh::start(&state, body());
    let (_, action) = refresh.step(&mut state, RefreshEvent::Listed(Ok(Vec::new())));
    assert!(matches!(action, RefreshAction::End));
}
