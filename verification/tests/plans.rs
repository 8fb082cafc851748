use amux::geometry::Rect;
use amux::model::{Pane, Session, SplitDirection, Target};
use amux::session_view::body_area;
use amux::table::{session_row, target_row, SESSION_HEADER, TARGET_HEADER};
use amux::text::{decimal_string, parse_u16, parse_usize, str_contains, trim_chars};
use amux::tmux::{
    capture_pane_args, create_session_args, failure_message, kill_pane_args, list_panes_args,
    list_sessions_args, no_server_running, parse_pane_line, parse_pane_list, parse_session_list,
    quote_shell_arg,
    resize_window_args, select_pane_args, send_key_args, send_literal_args, split_pane_args,
    version_args, TmuxError, PANE_FORMAT, SESSION_FORMAT,
};

fn strings(v: &[&str]) -> Vec<String> {
    v.iter().map(|s| s.to_string()).collect()
}

fn session(name: &str, attached: bool) -> Session {
    Session { id: "$1".to_owned(), name: name.to_owned(), windows: 2, attached }
}

#[test]
fn fixed_argument_lists() {
    assert_eq!(version_args(), strings(&["-V"]));
    assert_eq!(list_sessions_args(), strings(&["list-sessions", "-F", SESSION_FORMAT]));
    assert_eq!(
        list_panes_args("work").unwrap(),
        strings(&["list-panes", "-t", "work", "-F", PANE_FORMAT])
    );
    assert_eq!(list_panes_args("a:b"), Err(TmuxError::SessionNameSeparator));
}

#[test]
fn create_session_arguments() {
    assert_eq!(
        create_session_args("work", None, &[]).unwrap(),
        strings(&["new-session", "-d", "-s", "work"])
    );
    assert_eq!(
        create_session_args("work", Some("/tmp"), &strings(&["printf", "hello world"])).unwrap(),
        strings(&["new-session", "-d", "-s", "work", "-c", "/tmp", "printf 'hello world'"])
    );
    assert_eq!(create_session_args("  ", None, &[]), Err(TmuxError::EmptySessionName));
}

#[test]
fn pane_command_arguments() {
    assert_eq!(select_pane_args("%3").unwrap(), strings(&["select-pane", "-t", "%3"]));
    assert_eq!(
        split_pane_args("%3", SplitDirection::Right).unwrap(),
        strings(&["split-window", "-t", "%3", "-h", "-c", "#{pane_current_path}"])
    );
    assert_eq!(
        split_pane_args("%3", SplitDirection::Down).unwrap(),
        strings(&["split-window", "-t", "%3", "-v", "-c", "#{pane_current_path}"])
    );
    assert_eq!(kill_pane_args("%3").unwrap(), strings(&["kill-pane", "-t", "%3"]));
    assert_eq!(kill_pane_args("3"), Err(TmuxError::PaneIdPrefix("3".to_owned())));
    assert_eq!(select_pane_args("%x"), Err(TmuxError::PaneIdNotNumeric("%x".to_owned())));
}

#[test]
fn resize_arguments_keep_at_least_one_cell() {
    assert_eq!(
        resize_window_args("work", 0, 30).unwrap(),
        strings(&["resize-window", "-t", "work", "-x", "1", "-y", "30"])
    );
    assert_eq!(
        resize_window_args("work", 120, 0).unwrap(),
        strings(&["resize-window", "-t", "work", "-x", "120", "-y", "1"])
    );
}

#[test]
fn capture_arguments_with_and_without_scrollback() {
    let base = strings(&["capture-pane", "-e", "-p", "-N", "-t", "%1"]);
    assert_eq!(capture_pane_args("%1", 20, 0).unwrap(), base);
    assert_eq!(capture_pane_args("%1", 0, 5).unwrap(), base);
    let mut scrolled = base.clone();
    scrolled.extend(strings(&["-S", "-5", "-E", "14"]));
    assert_eq!(capture_pane_args("%1", 20, 5).unwrap(), scrolled);
    let mut far = base.clone();
    far.extend(strings(&["-S", "-30", "-E", "-11"]));
    assert_eq!(capture_pane_args("%1", 20, 30).unwrap(), far);
}

#[test]
fn send_arguments() {
    assert_eq!(
        send_literal_args("%1", "ls").unwrap(),
        Some(strings(&["send-keys", "-t", "%1", "-l", "ls"]))
    );
    assert_eq!(send_literal_args("%1", "").unwrap(), None);
    assert_eq!(send_key_args("%1", "Enter").unwrap(), strings(&["send-keys", "-t", "%1", "Enter"]));
    assert_eq!(send_key_args("%1", " "), Err(TmuxError::EmptyKeyName));
    assert_eq!(send_key_args("1", " "), Err(TmuxError::PaneIdPrefix("1".to_owned())));
}

#[test]
fn listings_skip_blank_lines() {
    let sessions = parse_session_list("$1\twork\t2\t0\n\n  \n$2\tplay\t1\t1\n").unwrap();
    assert_eq!(sessions.len(), 2);
    assert_eq!(sessions[1].name, "play");
    assert!(sessions[1].attached);
    assert_eq!(parse_session_list("").unwrap().len(), 0);
    assert_eq!(
        parse_session_list("$1\twork\t2\t0\nbad\n"),
        Err(TmuxError::UnexpectedSessionRow("bad".to_owned()))
    );
    let panes = parse_pane_list("%1\t0\t1\tbash\t/\t80\t24\t0\t0\t1\t2\t1\r\n").unwrap();
    assert_eq!(panes.len(), 1);
    assert_eq!(panes[0].cursor_y, 2);
    assert!(parse_pane_list("%1\t0\n").is_err());
}

#[test]
fn error_messages() {
    assert_eq!(TmuxError::EmptySessionName.message(), "session name cannot be empty");
    assert_eq!(
        TmuxError::SessionNameSeparator.message(),
        "session name cannot contain ':' because tmux treats it as a target separator"
    );
    assert_eq!(TmuxError::PaneIdPrefix("1".to_owned()).message(), "pane id must start with '%': 1");
    assert_eq!(
        TmuxError::PaneIdNotNumeric("%a".to_owned()).message(),
        "pane id must be a tmux numeric pane id: %a"
    );
    assert_eq!(
        TmuxError::InvalidField { label: "pane width".to_owned(), value: "x".to_owned() }.message(),
        "invalid tmux pane width: x"
    );
    assert_eq!(
        TmuxError::UnexpectedSessionRow("a".to_owned()).message(),
        "unexpected tmux session row: a"
    );
    assert_eq!(TmuxError::UnexpectedPaneRow("a".to_owned()).message(), "unexpected tmux pane row: a");
    assert_eq!(TmuxError::EmptyKeyName.message(), "key name cannot be empty");
}

#[test]
fn failure_messages_join_trimmed_outputs() {
    assert_eq!(
        failure_message("tmux -V", "exit status: 1", " boom \n", ""),
        "tmux -V failed with status exit status: 1: boom"
    );
    assert_eq!(
        failure_message("tmux kill-pane", "exit status: 2", "err\n", " out "),
        "tmux kill-pane failed with status exit status: 2: err\nout"
    );
    assert_eq!(failure_message("x", "s", "", "out"), "x failed with status s: out");
}

#[test]
fn missing_server_is_recognised() {
    assert!(no_server_running("no server running on /tmp/tmux-0/default\n"));
    assert!(!no_server_running("error connecting to /tmp/tmux-0/default"));
}

#[test]
fn quoting_edge_cases() {
    assert_eq!(quote_shell_arg(""), "''");
    assert_eq!(quote_shell_arg("a=b,c+d:e/f.g-h_i"), "a=b,c+d:e/f.g-h_i");
    assert_eq!(quote_shell_arg("$HOME"), "'$HOME'");
}

#[test]
fn tables() {
    assert_eq!(TARGET_HEADER, "ID\tKIND\tLABEL");
    assert_eq!(SESSION_HEADER, "ID\tNAME\tWINDOWS\tSTATUS");
    assert_eq!(target_row(&Target::local()), "local\tlocal\tLocal machine");
    assert_eq!(session_row(&session("work", false)), "$1\twork\t2\tdetached");
}

#[test]
fn text_helpers() {
    let digits: Vec<char> = "65535".chars().collect();
    assert_eq!(parse_u16(&digits), Some(65535));
    let too_big: Vec<char> = "65536".chars().collect();
    assert_eq!(parse_u16(&too_big), None);
    let plus: Vec<char> = "+5".chars().collect();
    assert_eq!(parse_usize(&plus), Some(5));
    let empty: Vec<char> = Vec::new();
    assert_eq!(parse_usize(&empty), None);
    let overflow: Vec<char> = "99999999999999999999999".chars().collect();
    assert_eq!(parse_usize(&overflow), None);
    assert_eq!(decimal_string(0), "0");
    assert_eq!(decimal_string(1207), "1207");
    let padded: Vec<char> = " \t ab c \n".chars().collect();
    assert_eq!(trim_chars(&padded), vec!['a', 'b', ' ', 'c']);
    assert!(str_contains("abcabd", "abd"));
    assert!(!str_contains("ab", "abc"));
}

#[test]
fn body_leaves_the_last_row_for_the_footer() {
    assert_eq!(
        body_area(Rect { x: 0, y: 0, width: 80, height: 24 }),
        Rect { x: 0, y: 0, width: 80, height: 23 }
    );
    assert_eq!(
        body_area(Rect { x: 3, y: 5, width: 10, height: 2 }),
        Rect { x: 3, y: 5, width: 10, height: 1 }
    );
}

#[test]
fn pane_rows_read_back() {
    let pane = Pane {
        id: "%12".to_owned(),
        index: 3,
        active: false,
        current_command: "vim".to_owned(),
        current_path: "/home/me/src".to_owned(),
        width: 120,
        height: 40,
        left: 81,
        top: 0,
        cursor_x: 7,
        cursor_y: 39,
        cursor_visible: false,
    };
    let row = format!(
        "{}\t{}\t{}\t{}\t{}\t{}\t{}\t{}\t{}\t{}\t{}\t{}",
        pane.id,
        pane.index,
        u8::from(pane.active),
        pane.current_command,
        pane.current_path,
        pane.width,
        pane.height,
        pane.left,
        pane.top,
        pane.cursor_x,
        pane.cursor_y,
        u8::from(pane.cursor_visible)
    );
    assert_eq!(parse_pane_line(&row).unwrap(), pane);
}
