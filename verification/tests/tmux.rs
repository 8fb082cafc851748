use amux::tmux::{
    join_shell_command, parse_pane_line, parse_session_line, validate_pane_id,
    validate_session_name,
};

#[test]
fn parses_tmux_session_rows() {
    let session = parse_session_line("$1\twork\t2\t0").unwrap();
    assert_eq!(session.id, "$1");
    assert_eq!(session.name, "work");
    assert_eq!(session.windows, 2);
    assert!(!session.attached);
}

#[test]
fn parses_tmux_pane_rows() {
    let pane = parse_pane_line("%1\t1\t1\tbash\t/root/amux\t80\t24\t0\t0\t12\t3\t1").unwrap();
    assert_eq!(pane.id, "%1");
    assert_eq!(pane.index, 1);
    assert!(pane.active);
    assert_eq!(pane.current_command, "bash");
    assert_eq!(pane.current_path, "/root/amux");
    assert_eq!(pane.width, 80);
    assert_eq!(pane.height, 24);
    assert_eq!(pane.left, 0);
    assert_eq!(pane.top, 0);
    assert_eq!(pane.cursor_x, 12);
    assert_eq!(pane.cursor_y, 3);
    assert!(pane.cursor_visible);
}

#[test]
fn rejects_malformed_session_rows() {
    assert!(parse_session_line("work\t1").is_err());
    assert!(parse_session_line("$1\twork\tmany\t0").is_err());
    assert!(parse_session_line("$1\twork\t1\tmaybe").is_err());
}

#[test]
fn rejects_malformed_pane_rows() {
    assert!(parse_pane_line("%1\t1").is_err());
    assert!(parse_pane_line("%1\tone\t1\tbash\t/tmp\t80\t24\t0\t0\t0\t0\t1").is_err());
    assert!(parse_pane_line("%1\t1\tmaybe\tbash\t/tmp\t80\t24\t0\t0\t0\t0\t1").is_err());
    assert!(parse_pane_line("%1\t1\t1\tbash\t/tmp\t80\t24\t0\t0\t0\t0\tmaybe").is_err());
}

#[test]
fn shell_command_join_quotes_only_when_needed() {
    assert_eq!(
        join_shell_command(&["printf".to_owned(), "hello world".to_owned()]),
        "printf 'hello world'"
    );
    assert_eq!(
        join_shell_command(&["printf".to_owned(), "it's".to_owned()]),
        "printf 'it'\"'\"'s'"
    );
}

#[test]
fn rejects_tmux_target_separator_in_session_names() {
    assert!(validate_session_name("repo:1").is_err());
    assert!(validate_session_name("repo").is_ok());
}

#[test]
fn validates_tmux_pane_ids() {
    assert!(validate_pane_id("%1").is_ok());
    assert!(validate_pane_id("1").is_err());
    assert!(validate_pane_id("%abc").is_err());
}
