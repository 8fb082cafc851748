//! What the screens show, as lines of styled text: the dashboard's session
//! list and details, and the session view's empty state, pane contents and
//! frame styles.

use vstd::prelude::*;

use crate::ansi::{bold, lines_view, plain_style, span_view, spans_view, Color, Line, Span, Style};
use crate::dashboard::{button_at_offset, pad_right, session_name_column, session_windows_column, Button};
use crate::model::{status_text, Pane, Session};
use crate::session_view::{concat, SessionViewState, captures_map};
use crate::text::{decimal, decimal_string, push_decimal, push_str};

verus! {

/// Text in the color `c`.
pub open spec fn colored(c: Color) -> Style {
    Style { fg: Some(c), ..plain_style() }
}

/// Bold text in the color `c`.
pub open spec fn emphasized(c: Color) -> Style {
    Style { fg: Some(c), add_modifier: bold(), ..plain_style() }
}

/// Bold text.
pub open spec fn strong() -> Style {
    Style { add_modifier: bold(), ..plain_style() }
}

fn colored_style(c: Color) -> (s: Style)
    ensures
        s == colored(c),
{
    Style { fg: Some(c), ..Style::plain() }
}

fn emphasized_style(c: Color) -> (s: Style)
    ensures
        s == emphasized(c),
{
    Style {
        fg: Some(c),
        add_modifier: crate::ansi::Modifiers { bold: true, dim: false, italic: false, underlined: false },
        ..Style::plain()
    }
}

/// A line of one span.
fn single(content: String, style: Style) -> (l: Line)
    ensures
        spans_view(l.spans@) == seq![(content@, style)],
{
    let mut spans: Vec<Span> = Vec::new();
    spans.push(Span { content, style });
    assert(spans_view(spans@) =~= seq![(content@, style)]);
    Line { spans }
}

/// A line without text.
fn blank() -> (l: Line)
    ensures
        spans_view(l.spans@) == Seq::<(Seq<char>, Style)>::empty(),
{
    let spans: Vec<Span> = Vec::new();
    assert(spans_view(spans@) =~= Seq::<(Seq<char>, Style)>::empty());
    Line { spans }
}

/// The hint shown in place of an empty session list.
pub const EMPTY_LIST_HINT: &'static str = "No tmux sessions. Use `amux new <name> -- <command>`.";

/// A session in the dashboard's list: its name padded to 20 characters in
/// bold, its status in green when attached (else dark gray), and its
/// window count.
pub open spec fn session_item(s: Session) -> Seq<(Seq<char>, Style)> {
    seq![
        (pad_right(s.name@, 20), strong()),
        (" "@, plain_style()),
        (status_text(s.attached), colored(if s.attached { Color::Green } else { Color::DarkGray })),
        ("  "@ + decimal(s.windows as nat) + "w"@, plain_style()),
    ]
}

/// The first row of an empty session list, which starts a session.
pub const START_SESSION: &'static str = "Start Session";

/// The dashboard's list: one item per session or, when there is none, the
/// launcher: a bold green `Start Session` row and the hint in dark gray.
pub open spec fn session_items(sessions: Seq<Session>) -> Seq<Seq<(Seq<char>, Style)>> {
    if sessions.len() == 0 {
        seq![
            seq![(START_SESSION@, emphasized(Color::Green))],
            seq![(EMPTY_LIST_HINT@, colored(Color::DarkGray))],
        ]
    } else {
        sessions.map_values(|s: Session| session_item(s))
    }
}

fn session_list_item(session: &Session) -> (l: Line)
    ensures
        spans_view(l.spans@) == session_item(*session),
{
    let status = if session.attached {
        colored_style(Color::Green)
    } else {
        colored_style(Color::DarkGray)
    };
    let mut spans: Vec<Span> = Vec::new();
    spans.push(Span { content: session_name_column(session), style: Style { add_modifier: crate::ansi::Modifiers { bold: true, dim: false, italic: false, underlined: false }, ..Style::plain() } });
    spans.push(Span { content: " ".to_owned(), style: Style::plain() });
    spans.push(Span { content: session.display_status().to_owned(), style: status });
    spans.push(Span { content: session_windows_column(session), style: Style::plain() });
    assert(spans_view(spans@) =~= session_item(*session));
    Line { spans }
}

/// The items of the dashboard's session list.
pub fn session_list_items(sessions: &[Session]) -> (items: Vec<Line>)
    ensures
        lines_view(items@) == session_items(sessions@),
{
    let mut items: Vec<Line> = Vec::new();
    if sessions.len() == 0 {
        items.push(single(START_SESSION.to_owned(), emphasized_style(Color::Green)));
        items.push(single(EMPTY_LIST_HINT.to_owned(), colored_style(Color::DarkGray)));
        assert(lines_view(items@) =~= session_items(sessions@));
        return items;
    }
    let mut i: usize = 0;
    while i < sessions.len()
        invariant
            i <= sessions@.len(),
            lines_view(items@) =~= sessions@.take(i as int).map_values(|s: Session| session_item(s)),
        decreases sessions.len() - i,
    {
        let item = session_list_item(&sessions[i]);
        let ghost prev = items@;
        items.push(item);
        assert(lines_view(items@) =~= lines_view(prev).push(spans_view(item.spans@)));
        assert(sessions@.take(i + 1).map_values(|s: Session| session_item(s)) =~= sessions@.take(
            i as int,
        ).map_values(|s: Session| session_item(s)).push(session_item(sessions@[i as int])));
        i = i + 1;
    }
    assert(sessions@.take(i as int) =~= sessions@);
    items
}

/// A pane in the dashboard's pane list: its id in bold, its command, and
/// its size in dark gray.
pub open spec fn pane_item(p: Pane) -> Seq<(Seq<char>, Style)> {
    seq![
        (p.id@, strong()),
        (" "@ + p.current_command@, plain_style()),
        ("  "@ + decimal(p.width as nat) + "x"@ + decimal(p.height as nat), colored(Color::DarkGray)),
    ]
}

/// The dashboard's pane list: one item per pane, or `No panes.` in dark
/// gray when there is none.
pub open spec fn pane_items(panes: Seq<Pane>) -> Seq<Seq<(Seq<char>, Style)>> {
    if panes.len() == 0 {
        seq![seq![("No panes."@, colored(Color::DarkGray))]]
    } else {
        panes.map_values(|p: Pane| pane_item(p))
    }
}

fn pane_list_item(pane: &Pane) -> (l: Line)
    ensures
        spans_view(l.spans@) == pane_item(*pane),
{
    let mut size = String::new();
    push_str(&mut size, "  ");
    push_decimal(&mut size, pane.width as u64);
    push_str(&mut size, "x");
    push_decimal(&mut size, pane.height as u64);
    let mut spans: Vec<Span> = Vec::new();
    spans.push(Span {
        content: pane.id.clone(),
        style: Style {
            add_modifier: crate::ansi::Modifiers { bold: true, dim: false, italic: false, underlined: false },
            ..Style::plain()
        },
    });
    spans.push(Span { content: concat(" ", pane.current_command.as_str()), style: Style::plain() });
    spans.push(Span { content: size, style: colored_style(Color::DarkGray) });
    assert(spans_view(spans@) =~= pane_item(*pane));
    Line { spans }
}

/// The items of the dashboard's pane list.
pub fn pane_list_items(panes: &[Pane]) -> (items: Vec<Line>)
    ensures
        lines_view(items@) == pane_items(panes@),
{
    let mut items: Vec<Line> = Vec::new();
    if panes.len() == 0 {
        items.push(single("No panes.".to_owned(), colored_style(Color::DarkGray)));
        assert(lines_view(items@) =~= pane_items(panes@));
        return items;
    }
    let mut i: usize = 0;
    while i < panes.len()
        invariant
            i <= panes@.len(),
            lines_view(items@) =~= panes@.take(i as int).map_values(|p: Pane| pane_item(p)),
        decreases panes.len() - i,
    {
        let item = pane_list_item(&panes[i]);
        let ghost prev = items@;
        items.push(item);
        assert(lines_view(items@) =~= lines_view(prev).push(spans_view(item.spans@)));
        assert(panes@.take(i + 1).map_values(|p: Pane| pane_item(p)) =~= panes@.take(
            i as int,
        ).map_values(|p: Pane| pane_item(p)).push(pane_item(panes@[i as int])));
        i = i + 1;
    }
    assert(panes@.take(i as int) =~= panes@);
    items
}

/// The dashboard's button row: `[New] [Attach] [Right] [Down] [Close]
/// [Refresh]`, the buttons in bold, at the columns that `button_hit`
/// reads.
pub open spec fn buttons() -> Seq<(Seq<char>, Style)> {
    seq![
        ("[New]"@, strong()),
        (" "@, plain_style()),
        ("[Attach]"@, strong()),
        (" "@, plain_style()),
        ("[Right]"@, strong()),
        (" "@, plain_style()),
        ("[Down]"@, strong()),
        (" "@, plain_style()),
        ("[Close]"@, strong()),
        (" "@, plain_style()),
        ("[Refresh]"@, strong()),
    ]
}

/// The text of the span of `spans` that covers the column `d`, counted
/// from the start of the line.
pub open spec fn span_at(spans: Seq<(Seq<char>, Style)>, d: int) -> Option<Seq<char>>
    decreases spans.len(),
{
    if spans.len() == 0 || d < 0 {
        None
    } else if d < spans[0].0.len() {
        Some(spans[0].0)
    } else {
        span_at(spans.drop_first(), d - spans[0].0.len())
    }
}

/// A click on the button row presses the button whose label is drawn
/// under it: `[New]` is New, `[Attach]` Attach, `[Right]` Right, `[Down]`
/// Down, `[Close]` Close, `[Refresh]` Refresh; the gaps between labels and
/// the columns past the last press nothing.
pub proof fn lemma_buttons_under_labels(d: int)
    ensures
        button_at_offset(d) == (match span_at(buttons(), d) {
            Some(t) => if t == "[New]"@ {
                Some(Button::New)
            } else if t == "[Attach]"@ {
                Some(Button::Attach)
            } else if t == "[Right]"@ {
                Some(Button::Right)
            } else if t == "[Down]"@ {
                Some(Button::Down)
            } else if t == "[Close]"@ {
                Some(Button::Close)
            } else if t == "[Refresh]"@ {
                Some(Button::Refresh)
            } else {
                None
            },
            None => None,
        }),
{
    reveal_strlit("[New]");
    reveal_strlit("[Attach]");
    reveal_strlit("[Right]");
    reveal_strlit("[Down]");
    reveal_strlit("[Close]");
    reveal_strlit("[Refresh]");
    reveal_strlit(" ");
    let b = buttons();
    let s0 = b.skip(0);
    let s1 = b.skip(1);
    let s2 = b.skip(2);
    let s3 = b.skip(3);
    let s4 = b.skip(4);
    let s5 = b.skip(5);
    let s6 = b.skip(6);
    let s7 = b.skip(7);
    let s8 = b.skip(8);
    let s9 = b.skip(9);
    let s10 = b.skip(10);
    let s11 = b.skip(11);
    assert(s0.drop_first() =~= s1);
    assert(s0.len() > 0 && s0[0] == b[0] && b[0].0.len() == 5);
    assert(s1.drop_first() =~= s2);
    assert(s1.len() > 0 && s1[0] == b[1] && b[1].0.len() == 1);
    assert(s2.drop_first() =~= s3);
    assert(s2.len() > 0 && s2[0] == b[2] && b[2].0.len() == 8);
    assert(s3.drop_first() =~= s4);
    assert(s3.len() > 0 && s3[0] == b[3] && b[3].0.len() == 1);
    assert(s4.drop_first() =~= s5);
    assert(s4.len() > 0 && s4[0] == b[4] && b[4].0.len() == 7);
    assert(s5.drop_first() =~= s6);
    assert(s5.len() > 0 && s5[0] == b[5] && b[5].0.len() == 1);
    assert(s6.drop_first() =~= s7);
    assert(s6.len() > 0 && s6[0] == b[6] && b[6].0.len() == 6);
    assert(s7.drop_first() =~= s8);
    assert(s7.len() > 0 && s7[0] == b[7] && b[7].0.len() == 1);
    assert(s8.drop_first() =~= s9);
    assert(s8.len() > 0 && s8[0] == b[8] && b[8].0.len() == 7);
    assert(s9.drop_first() =~= s10);
    assert(s9.len() > 0 && s9[0] == b[9] && b[9].0.len() == 1);
    assert(s10.drop_first() =~= s11);
    assert(s10.len() > 0 && s10[0] == b[10] && b[10].0.len() == 9);
    assert(s0 =~= b);
    assert(s11.len() == 0);
    if d >= 0 {
        if d >= 5 {
            assert(span_at(s0, d - 0) == span_at(s1, d - 5));
            if d >= 6 {
                assert(span_at(s1, d - 5) == span_at(s2, d - 6));
                if d >= 14 {
                    assert(span_at(s2, d - 6) == span_at(s3, d - 14));
                    if d >= 15 {
                        assert(span_at(s3, d - 14) == span_at(s4, d - 15));
                        if d >= 22 {
                            assert(span_at(s4, d - 15) == span_at(s5, d - 22));
                            if d >= 23 {
                                assert(span_at(s5, d - 22) == span_at(s6, d - 23));
                                if d >= 29 {
                                    assert(span_at(s6, d - 23) == span_at(s7, d - 29));
                                    if d >= 30 {
                                        assert(span_at(s7, d - 29) == span_at(s8, d - 30));
                                        if d >= 37 {
                                            assert(span_at(s8, d - 30) == span_at(s9, d - 37));
                                            if d >= 38 {
                                                assert(span_at(s9, d - 37) == span_at(s10, d - 38));
                                                if d >= 47 {
                                                    assert(span_at(s10, d - 38) == span_at(s11, d - 47));
                                                    assert(span_at(s11, d - 47) == None::<Seq<char>>);
                                                } else {
                                                    assert(span_at(s10, d - 38) == Some(b[10].0));
                                                    assert(b[10].0 == "[Refresh]"@);
                                                    assert("[Refresh]"@.len() != "[New]"@.len());
                                                    assert("[Refresh]"@.len() != "[Attach]"@.len());
                                                    assert("[Refresh]"@.len() != "[Right]"@.len());
                                                    assert("[Refresh]"@.len() != "[Down]"@.len());
                                                    assert("[Refresh]"@.len() != "[Close]"@.len());
                                                }
                                            } else {
                                                assert(span_at(s9, d - 37) == Some(b[9].0));
                                                assert(b[9].0 == " "@);
                                                assert(" "@.len() != "[New]"@.len());
                                                assert(" "@.len() != "[Attach]"@.len());
                                                assert(" "@.len() != "[Right]"@.len());
                                                assert(" "@.len() != "[Down]"@.len());
                                                assert(" "@.len() != "[Close]"@.len());
                                                assert(" "@.len() != "[Refresh]"@.len());
                                            }
                                        } else {
                                            assert(span_at(s8, d - 30) == Some(b[8].0));
                                            assert(b[8].0 == "[Close]"@);
                                            assert("[Close]"@.len() != "[New]"@.len());
                                            assert("[Close]"@.len() != "[Attach]"@.len());
                                            assert("[Close]"@[1] != "[Right]"@[1]);
                                            assert("[Close]"@.len() != "[Down]"@.len());
                                        }
                                    } else {
                                        assert(span_at(s7, d - 29) == Some(b[7].0));
                                        assert(b[7].0 == " "@);
                                        assert(" "@.len() != "[New]"@.len());
                                        assert(" "@.len() != "[Attach]"@.len());
                                        assert(" "@.len() != "[Right]"@.len());
                                        assert(" "@.len() != "[Down]"@.len());
                                        assert(" "@.len() != "[Close]"@.len());
                                        assert(" "@.len() != "[Refresh]"@.len());
                                    }
                                } else {
                                    assert(span_at(s6, d - 23) == Some(b[6].0));
                                    assert(b[6].0 == "[Down]"@);
                                    assert("[Down]"@.len() != "[New]"@.len());
                                    assert("[Down]"@.len() != "[Attach]"@.len());
                                    assert("[Down]"@.len() != "[Right]"@.len());
                                }
                            } else {
                                assert(span_at(s5, d - 22) == Some(b[5].0));
                                assert(b[5].0 == " "@);
                                assert(" "@.len() != "[New]"@.len());
                                assert(" "@.len() != "[Attach]"@.len());
                                assert(" "@.len() != "[Right]"@.len());
                                assert(" "@.len() != "[Down]"@.len());
                                assert(" "@.len() != "[Close]"@.len());
                                assert(" "@.len() != "[Refresh]"@.len());
                            }
                        } else {
                            assert(span_at(s4, d - 15) == Some(b[4].0));
                            assert(b[4].0 == "[Right]"@);
                            assert("[Right]"@.len() != "[New]"@.len());
                            assert("[Right]"@.len() != "[Attach]"@.len());
                        }
                    } else {
                        assert(span_at(s3, d - 14) == Some(b[3].0));
                        assert(b[3].0 == " "@);
                        assert(" "@.len() != "[New]"@.len());
                        assert(" "@.len() != "[Attach]"@.len());
                        assert(" "@.len() != "[Right]"@.len());
                        assert(" "@.len() != "[Down]"@.len());
                        assert(" "@.len() != "[Close]"@.len());
                        assert(" "@.len() != "[Refresh]"@.len());
                    }
                } else {
                    assert(span_at(s2, d - 6) == Some(b[2].0));
                    assert(b[2].0 == "[Attach]"@);
                    assert("[Attach]"@.len() != "[New]"@.len());
                }
            } else {
                assert(span_at(s1, d - 5) == Some(b[1].0));
                assert(b[1].0 == " "@);
                assert(" "@.len() != "[New]"@.len());
                assert(" "@.len() != "[Attach]"@.len());
                assert(" "@.len() != "[Right]"@.len());
                assert(" "@.len() != "[Down]"@.len());
                assert(" "@.len() != "[Close]"@.len());
                assert(" "@.len() != "[Refresh]"@.len());
            }
        } else {
            assert(span_at(s0, d - 0) == Some(b[0].0));
            assert(b[0].0 == "[New]"@);
        }
    }
}

/// The dashboard's button row.
pub fn button_line() -> (l: Line)
    ensures
        spans_view(l.spans@) == buttons(),
{
    let bold = Style {
        add_modifier: crate::ansi::Modifiers { bold: true, dim: false, italic: false, underlined: false },
        ..Style::plain()
    };
    let mut spans: Vec<Span> = Vec::new();
    spans.push(Span { content: "[New]".to_owned(), style: bold });
    spans.push(Span { content: " ".to_owned(), style: Style::plain() });
    spans.push(Span { content: "[Attach]".to_owned(), style: bold });
    spans.push(Span { content: " ".to_owned(), style: Style::plain() });
    spans.push(Span { content: "[Right]".to_owned(), style: bold });
    spans.push(Span { content: " ".to_owned(), style: Style::plain() });
    spans.push(Span { content: "[Down]".to_owned(), style: bold });
    spans.push(Span { content: " ".to_owned(), style: Style::plain() });
    spans.push(Span { content: "[Close]".to_owned(), style: bold });
    spans.push(Span { content: " ".to_owned(), style: Style::plain() });
    spans.push(Span { content: "[Refresh]".to_owned(), style: bold });
    assert(spans_view(spans@) =~= buttons());
    Line { spans }
}

/// The dashboard's details panel for the session at `selected`, or how to
/// create one when there is none.
pub open spec fn details(sessions: Seq<Session>, selected: int) -> Seq<Seq<(Seq<char>, Style)>> {
    if 0 <= selected < sessions.len() {
        let s = sessions[selected];
        seq![
            seq![("session "@, colored(Color::DarkGray)), (s.name@, emphasized(Color::Cyan))],
            seq![],
            seq![("id:       "@ + s.id@, plain_style())],
            seq![("windows:  "@ + decimal(s.windows as nat), plain_style())],
            seq![("status:   "@ + status_text(s.attached), plain_style())],
            seq![],
            seq![("Enter attaches with tmux for now."@, plain_style())],
            seq![("Future panes and agent status will live here."@, plain_style())],
        ]
    } else {
        seq![
            seq![("No session selected."@, plain_style())],
            seq![],
            seq![("Create one with:"@, plain_style())],
            seq![("amux new work -- codex"@, plain_style())],
        ]
    }
}

/// The lines of the dashboard's details panel.
pub fn session_details(sessions: &[Session], selected: usize) -> (lines: Vec<Line>)
    ensures
        lines_view(lines@) == details(sessions@, selected as int),
{
    let mut lines: Vec<Line> = Vec::new();
    if selected < sessions.len() {
        let s = &sessions[selected];
        let mut head: Vec<Span> = Vec::new();
        head.push(Span { content: "session ".to_owned(), style: colored_style(Color::DarkGray) });
        head.push(Span { content: s.name.clone(), style: emphasized_style(Color::Cyan) });
        assert(spans_view(head@) =~= seq![("session "@, colored(Color::DarkGray)), (s.name@, emphasized(Color::Cyan))]);
        lines.push(Line { spans: head });
        lines.push(blank());
        lines.push(single(concat("id:       ", s.id.as_str()), Style::plain()));
        let windows = decimal_string(s.windows as u64);
        lines.push(single(concat("windows:  ", windows.as_str()), Style::plain()));
        lines.push(single(concat("status:   ", s.display_status()), Style::plain()));
        lines.push(blank());
        lines.push(single("Enter attaches with tmux for now.".to_owned(), Style::plain()));
        lines.push(single("Future panes and agent status will live here.".to_owned(), Style::plain()));
    } else {
        lines.push(single("No session selected.".to_owned(), Style::plain()));
        lines.push(blank());
        lines.push(single("Create one with:".to_owned(), Style::plain()));
        lines.push(single("amux new work -- codex".to_owned(), Style::plain()));
    }
    assert(lines_view(lines@) =~= details(sessions@, selected as int));
    lines
}

/// The session view with no panes: the session's name in bold cyan, and
/// the message.
pub open spec fn empty_state(session: Seq<char>, message: Seq<char>) -> Seq<Seq<(Seq<char>, Style)>> {
    seq![seq![(session, emphasized(Color::Cyan))], seq![], seq![(message, plain_style())]]
}

/// What the session view shows while it has no panes.
pub fn empty_state_lines(state: &SessionViewState) -> (lines: Vec<Line>)
    ensures
        lines_view(lines@) == empty_state(state.session@, state.message@),
{
    let mut lines: Vec<Line> = Vec::new();
    lines.push(single(state.session.clone(), emphasized_style(Color::Cyan)));
    lines.push(blank());
    lines.push(single(state.message.clone(), Style::plain()));
    assert(lines_view(lines@) =~= empty_state(state.session@, state.message@));
    lines
}

/// A copy of `line`.
fn copy_line(line: &Line) -> (c: Line)
    ensures
        spans_view(c.spans@) == spans_view(line.spans@),
{
    let mut spans: Vec<Span> = Vec::new();
    let mut i: usize = 0;
    while i < line.spans.len()
        invariant
            i <= line.spans@.len(),
            spans_view(spans@) =~= spans_view(line.spans@.take(i as int)),
        decreases line.spans.len() - i,
    {
        let span = &line.spans[i];
        let ghost prev = spans@;
        spans.push(Span { content: span.content.clone(), style: span.style });
        assert(spans_view(spans@) =~= spans_view(prev).push(span_view(line.spans@[i as int])));
        assert(line.spans@.take(i + 1) =~= line.spans@.take(i as int).push(line.spans@[i as int]));
        i = i + 1;
    }
    assert(line.spans@.take(i as int) =~= line.spans@);
    Line { spans }
}

/// What a pane shows: its last capture, or one empty line before the
/// first.
pub open spec fn pane_content(state: SessionViewState, pane_id: Seq<char>) -> Seq<Seq<(Seq<char>, Style)>> {
    let captures = captures_map(state.captures@);
    if captures.contains_key(pane_id) {
        captures[pane_id]
    } else {
        seq![seq![]]
    }
}

/// The lines drawn in the pane `pane_id`.
pub fn pane_lines(state: &SessionViewState, pane_id: &str) -> (lines: Vec<Line>)
    ensures
        lines_view(lines@) == pane_content(*state, pane_id@),
{
    let mut lines: Vec<Line> = Vec::new();
    match state.capture_index(pane_id) {
        None => {
            lines.push(blank());
            assert(lines_view(lines@) =~= pane_content(*state, pane_id@));
        },
        Some(index) => {
            let source = &state.captures[index].lines;
            let mut i: usize = 0;
            while i < source.len()
                invariant
                    i <= source@.len(),
                    lines_view(lines@) =~= lines_view(source@.take(i as int)),
                decreases source.len() - i,
            {
                let ghost prev = lines@;
                lines.push(copy_line(&source[i]));
                assert(lines_view(lines@) =~= lines_view(prev).push(spans_view(source@[i as int].spans@)));
                assert(source@.take(i + 1) =~= source@.take(i as int).push(source@[i as int]));
                i = i + 1;
            }
            assert(source@.take(i as int) =~= source@);
        },
    }
    lines
}

/// The frame of the selected pane is bold cyan, the others dark gray.
pub open spec fn frame_style(index: int, selected: int) -> Style {
    if index == selected {
        emphasized(Color::Cyan)
    } else {
        colored(Color::DarkGray)
    }
}

/// The style of the frame of the pane at `index`.
pub fn panel_style(index: usize, selected: usize) -> (s: Style)
    ensures
        s == frame_style(index as int, selected as int),
{
    if index == selected {
        emphasized_style(Color::Cyan)
    } else {
        colored_style(Color::DarkGray)
    }
}

} // verus!
