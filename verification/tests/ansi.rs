use amux::ansi::{capture_to_lines, parse_sgr_params, Color, Line, Modifiers, Style};

fn line_text(line: &Line) -> String {
    line.spans.iter().map(|span| span.content.as_str()).collect()
}

fn sgr_chars(s: &str) -> Vec<char> {
    s.chars().collect()
}

#[test]
fn ansi_capture_preserves_basic_foreground_color() {
    let lines = capture_to_lines("\x1b[31mred\x1b[39m");

    assert_eq!(lines.len(), 1);
    assert_eq!(lines[0].spans.len(), 1);
    assert_eq!(lines[0].spans[0].content.as_str(), "red");
    assert_eq!(lines[0].spans[0].style.fg, Some(Color::Red));
}

#[test]
fn ansi_capture_preserves_256_color_and_reset() {
    let lines = capture_to_lines("\x1b[38;5;196mhot\x1b[0m plain");

    assert_eq!(lines.len(), 1);
    assert_eq!(lines[0].spans.len(), 2);
    assert_eq!(lines[0].spans[0].content.as_str(), "hot");
    assert_eq!(lines[0].spans[0].style.fg, Some(Color::Indexed(196)));
    assert_eq!(lines[0].spans[1].content.as_str(), " plain");
    assert_eq!(lines[0].spans[1].style.fg, None);
}

#[test]
fn ansi_capture_keeps_blank_terminal_lines_without_extra_final_line() {
    let lines = capture_to_lines("one\n\n");

    assert_eq!(lines.len(), 2);
    assert_eq!(lines[0].spans[0].content.as_str(), "one");
    assert!(lines[1].spans.is_empty());
}

#[test]
fn ansi_capture_skips_osc_title_escape() {
    let lines = capture_to_lines("before\x1b]0;ignored title\x07 after");

    assert_eq!(line_text(&lines[0]), "before after");
}

#[test]
fn ansi_capture_skips_osc_8_hyperlink_escape() {
    let lines = capture_to_lines("open \x1b]8;;https://example.com\x1b\\link\x1b]8;;\x1b\\ done");

    assert_eq!(line_text(&lines[0]), "open link done");
}

#[test]
fn ansi_capture_skips_non_sgr_csi_with_symbol_final_byte() {
    let lines = capture_to_lines("a\x1b[200~pasted\x1b[201~z");

    assert_eq!(line_text(&lines[0]), "apastedz");
}

#[test]
fn plain_text_is_one_plain_span_per_line() {
    let lines = capture_to_lines("first line\nsecond\n");
    assert_eq!(lines.len(), 2);
    assert_eq!(lines[0].spans.len(), 1);
    assert_eq!(lines[0].spans[0].content, "first line");
    assert_eq!(lines[0].spans[0].style, Style::plain());
    assert_eq!(lines[1].spans[0].content, "second");
}

#[test]
fn empty_capture_is_one_empty_line() {
    let lines = capture_to_lines("");
    assert_eq!(lines.len(), 1);
    assert!(lines[0].spans.is_empty());
}

#[test]
fn carriage_returns_are_dropped() {
    let lines = capture_to_lines("a\r\nb");
    assert_eq!(lines.len(), 2);
    assert_eq!(line_text(&lines[0]), "a");
    assert_eq!(line_text(&lines[1]), "b");
}

#[test]
fn rgb_and_background_colors() {
    let lines = capture_to_lines("\x1b[38;2;10;300;20;44mx");
    let style = lines[0].spans[0].style;
    assert_eq!(style.fg, Some(Color::Rgb(10, 255, 20)));
    assert_eq!(style.bg, Some(Color::Blue));
}

#[test]
fn bright_colors_and_modifiers() {
    let lines = capture_to_lines("\x1b[1;3;91;102mx\x1b[22my");
    let first = lines[0].spans[0].style;
    assert_eq!(first.fg, Some(Color::LightRed));
    assert_eq!(first.bg, Some(Color::LightGreen));
    assert!(first.add_modifier.bold);
    assert!(first.add_modifier.italic);
    let second = lines[0].spans[1].style;
    assert!(!second.add_modifier.bold);
    assert!(second.sub_modifier.bold);
    assert!(second.sub_modifier.dim);
    assert!(second.add_modifier.italic);
}

#[test]
fn blank_sgr_resets_style() {
    let lines = capture_to_lines("\x1b[4mu\x1b[mplain");
    assert!(lines[0].spans[0].style.add_modifier.underlined);
    assert_eq!(lines[0].spans[1].style, Style::plain());
}

#[test]
fn sgr_params_parse_empty_and_oversized_parts() {
    assert_eq!(parse_sgr_params(&sgr_chars("")), vec![0]);
    assert_eq!(parse_sgr_params(&sgr_chars("  ")), vec![0]);
    assert_eq!(parse_sgr_params(&sgr_chars("1;;31")), vec![1, 0, 31]);
    assert_eq!(parse_sgr_params(&sgr_chars("70000;x")), vec![65535, 65535]);
    assert_eq!(parse_sgr_params(&sgr_chars("+5")), vec![5]);
}

#[test]
fn charset_designation_is_skipped() {
    let lines = capture_to_lines("a\x1b(Bb\x1b=c");
    assert_eq!(line_text(&lines[0]), "abc");
}

#[test]
fn modifiers_empty_has_none() {
    let m = Modifiers::empty();
    assert!(!m.bold && !m.dim && !m.italic && !m.underlined);
}
