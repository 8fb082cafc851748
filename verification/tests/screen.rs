use amux::ansi::{Color, Line, Modifiers, Style};
use amux::model::Session;
use amux::screen::{
    empty_state_lines, pane_lines, panel_style, session_details, session_list_items,
    EMPTY_LIST_HINT,
};
use amux::session_view::SessionViewState;

fn texts(line: &Line) -> Vec<String> {
    line.spans.iter().map(|span| span.content.clone()).collect()
}

fn bold() -> Modifiers {
    Modifiers { bold: true, dim: false, italic: false, underlined: false }
}

fn session(name: &str, windows: usize, attached: bool) -> Session {
    Session { id: "$4".to_owned(), name: name.to_owned(), windows, attached }
}

#[test]
fn empty_session_list_shows_the_hint() {
    let items = session_list_items(&[]);
    assert_eq!(items.len(), 2);
    assert_eq!(texts(&items[0]), vec!["Start Session".to_owned()]);
    assert_eq!(items[0].spans[0].style.fg, Some(Color::Green));
    assert_eq!(texts(&items[1]), vec![EMPTY_LIST_HINT.to_owned()]);
    assert_eq!(items[1].spans[0].style.fg, Some(Color::DarkGray));
}

#[test]
fn session_list_items_show_name_status_and_windows() {
    let items = session_list_items(&[session("work", 2, true), session("play", 10, false)]);
    assert_eq!(items.len(), 2);
    assert_eq!(
        texts(&items[0]),
        vec![format!("{:<20}", "work"), " ".to_owned(), "attached".to_owned(), "  2w".to_owned()]
    );
    assert_eq!(items[0].spans[0].style.add_modifier, bold());
    assert_eq!(items[0].spans[2].style.fg, Some(Color::Green));
    assert_eq!(items[1].spans[2].style.fg, Some(Color::DarkGray));
    assert_eq!(texts(&items[1])[3], "  10w");
}

#[test]
fn details_of_the_selected_session() {
    let lines = session_details(&[session("work", 3, false)], 0);
    assert_eq!(lines.len(), 8);
    assert_eq!(texts(&lines[0]), vec!["session ".to_owned(), "work".to_owned()]);
    assert_eq!(lines[0].spans[1].style.fg, Some(Color::Cyan));
    assert!(lines[1].spans.is_empty());
    assert_eq!(texts(&lines[2]), vec!["id:       $4".to_owned()]);
    assert_eq!(texts(&lines[3]), vec!["windows:  3".to_owned()]);
    assert_eq!(texts(&lines[4]), vec!["status:   detached".to_owned()]);
}

#[test]
fn details_without_a_session() {
    let lines = session_details(&[], 0);
    assert_eq!(lines.len(), 4);
    assert_eq!(texts(&lines[0]), vec!["No session selected.".to_owned()]);
    assert_eq!(texts(&lines[3]), vec!["amux new work -- codex".to_owned()]);
}

#[test]
fn empty_session_view_shows_name_and_message() {
    let state = SessionViewState::new("work");
    let lines = empty_state_lines(&state);
    assert_eq!(texts(&lines[0]), vec!["work".to_owned()]);
    assert_eq!(lines[0].spans[0].style.add_modifier, bold());
    assert_eq!(texts(&lines[2]), vec!["opening session".to_owned()]);
}

#[test]
fn pane_lines_come_from_the_last_capture() {
    let mut state = SessionViewState::new("work");
    let before = pane_lines(&state, "%1");
    assert_eq!(before.len(), 1);
    assert!(before[0].spans.is_empty());
    state.store_capture("%1", Ok("old\n".to_owned()));
    state.store_capture("%1", Ok("\u{1b}[31mred\u{1b}[0m\nplain\n".to_owned()));
    let lines = pane_lines(&state, "%1");
    assert_eq!(lines.len(), 2);
    assert_eq!(texts(&lines[0]), vec!["red".to_owned()]);
    assert_eq!(lines[0].spans[0].style.fg, Some(Color::Red));
    assert_eq!(texts(&lines[1]), vec!["plain".to_owned()]);
    state.store_capture("%2", Err("gone".to_owned()));
    assert_eq!(texts(&pane_lines(&state, "%2")[0]), vec!["capture failed: gone".to_owned()]);
}

#[test]
fn selected_frame_is_emphasized() {
    assert_eq!(panel_style(1, 1).fg, Some(Color::Cyan));
    assert_eq!(panel_style(1, 1).add_modifier, bold());
    assert_eq!(panel_style(0, 1), Style { fg: Some(Color::DarkGray), ..Style::plain() });
}
