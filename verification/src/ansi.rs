//! Decoding of pane captures: text with ANSI escape sequences becomes
//! lines of styled spans.

use vstd::prelude::*;

use crate::text::{
    lemma_split_on_nonempty, chars_are_blank, chars_of, is_blank, parse_u16, parse_unsigned, split_chars, split_on,
    string_from_chars, views,
};

verus! {

/// A terminal color.
#[derive(Debug, Clone, Copy, PartialEq, Eq, Structural)]
pub enum Color {
    Black,
    Red,
    Green,
    Yellow,
    Blue,
    Magenta,
    Cyan,
    Gray,
    DarkGray,
    LightRed,
    LightGreen,
    LightYellow,
    LightBlue,
    LightMagenta,
    LightCyan,
    White,
    Indexed(u8),
    Rgb(u8, u8, u8),
}

/// A set of text modifiers.
#[derive(Debug, Clone, Copy, PartialEq, Eq, Structural)]
pub struct Modifiers {
    pub bold: bool,
    pub dim: bool,
    pub italic: bool,
    pub underlined: bool,
}

impl Modifiers {
    /// No modifier.
    pub fn empty() -> (m: Modifiers)
        ensures
            m == no_modifiers(),
    {
        Modifiers { bold: false, dim: false, italic: false, underlined: false }
    }
}

/// The empty modifier set.
pub open spec fn no_modifiers() -> Modifiers {
    Modifiers { bold: false, dim: false, italic: false, underlined: false }
}

/// The union of two modifier sets.
pub open spec fn union(a: Modifiers, b: Modifiers) -> Modifiers {
    Modifiers {
        bold: a.bold || b.bold,
        dim: a.dim || b.dim,
        italic: a.italic || b.italic,
        underlined: a.underlined || b.underlined,
    }
}

/// `a` without the modifiers of `b`.
pub open spec fn difference(a: Modifiers, b: Modifiers) -> Modifiers {
    Modifiers {
        bold: a.bold && !b.bold,
        dim: a.dim && !b.dim,
        italic: a.italic && !b.italic,
        underlined: a.underlined && !b.underlined,
    }
}

fn union_of(a: Modifiers, b: Modifiers) -> (m: Modifiers)
    ensures
        m == union(a, b),
{
    Modifiers {
        bold: a.bold || b.bold,
        dim: a.dim || b.dim,
        italic: a.italic || b.italic,
        underlined: a.underlined || b.underlined,
    }
}

fn difference_of(a: Modifiers, b: Modifiers) -> (m: Modifiers)
    ensures
        m == difference(a, b),
{
    Modifiers {
        bold: a.bold && !b.bold,
        dim: a.dim && !b.dim,
        italic: a.italic && !b.italic,
        underlined: a.underlined && !b.underlined,
    }
}

/// How text is drawn: colors, and the modifiers added and removed relative
/// to what lies beneath.
#[derive(Debug, Clone, Copy, PartialEq, Eq, Structural)]
pub struct Style {
    pub fg: Option<Color>,
    pub bg: Option<Color>,
    pub add_modifier: Modifiers,
    pub sub_modifier: Modifiers,
}

/// The style that changes nothing.
pub open spec fn plain_style() -> Style {
    Style { fg: None, bg: None, add_modifier: no_modifiers(), sub_modifier: no_modifiers() }
}

/// `style` with the modifiers `m` added.
pub open spec fn with_modifier(style: Style, m: Modifiers) -> Style {
    Style {
        add_modifier: union(style.add_modifier, m),
        sub_modifier: difference(style.sub_modifier, m),
        ..style
    }
}

/// `style` with the modifiers `m` removed.
pub open spec fn without_modifier(style: Style, m: Modifiers) -> Style {
    Style {
        add_modifier: difference(style.add_modifier, m),
        sub_modifier: union(style.sub_modifier, m),
        ..style
    }
}

impl Style {
    /// The style that changes nothing.
    pub fn plain() -> (s: Style)
        ensures
            s == plain_style(),
    {
        Style {
            fg: None,
            bg: None,
            add_modifier: Modifiers::empty(),
            sub_modifier: Modifiers::empty(),
        }
    }

    /// This style with the modifiers `m` added.
    pub fn add_modifier(self, m: Modifiers) -> (s: Style)
        ensures
            s == with_modifier(self, m),
    {
        Style {
            fg: self.fg,
            bg: self.bg,
            add_modifier: union_of(self.add_modifier, m),
            sub_modifier: difference_of(self.sub_modifier, m),
        }
    }

    /// This style with the modifiers `m` removed.
    pub fn remove_modifier(self, m: Modifiers) -> (s: Style)
        ensures
            s == without_modifier(self, m),
    {
        Style {
            fg: self.fg,
            bg: self.bg,
            add_modifier: difference_of(self.add_modifier, m),
            sub_modifier: union_of(self.sub_modifier, m),
        }
    }
}

pub open spec fn bold() -> Modifiers {
    Modifiers { bold: true, ..no_modifiers() }
}

pub open spec fn dim() -> Modifiers {
    Modifiers { dim: true, ..no_modifiers() }
}

pub open spec fn italic() -> Modifiers {
    Modifiers { italic: true, ..no_modifiers() }
}

pub open spec fn underlined() -> Modifiers {
    Modifiers { underlined: true, ..no_modifiers() }
}

pub open spec fn bold_or_dim() -> Modifiers {
    Modifiers { bold: true, dim: true, ..no_modifiers() }
}

/// The eight basic colors, by SGR offset.
pub open spec fn basic_color_of(index: int) -> Option<Color> {
    if index == 0 {
        Some(Color::Black)
    } else if index == 1 {
        Some(Color::Red)
    } else if index == 2 {
        Some(Color::Green)
    } else if index == 3 {
        Some(Color::Yellow)
    } else if index == 4 {
        Some(Color::Blue)
    } else if index == 5 {
        Some(Color::Magenta)
    } else if index == 6 {
        Some(Color::Cyan)
    } else if index == 7 {
        Some(Color::Gray)
    } else {
        None
    }
}

/// The eight bright colors, by SGR offset.
pub open spec fn bright_color_of(index: int) -> Option<Color> {
    if index == 0 {
        Some(Color::DarkGray)
    } else if index == 1 {
        Some(Color::LightRed)
    } else if index == 2 {
        Some(Color::LightGreen)
    } else if index == 3 {
        Some(Color::LightYellow)
    } else if index == 4 {
        Some(Color::LightBlue)
    } else if index == 5 {
        Some(Color::LightMagenta)
    } else if index == 6 {
        Some(Color::LightCyan)
    } else if index == 7 {
        Some(Color::White)
    } else {
        None
    }
}

/// A basic color by SGR offset (30-37 foreground, 40-47 background).
pub fn basic_color(index: u16) -> (c: Option<Color>)
    ensures
        c == basic_color_of(index as int),
{
    match index {
        0 => Some(Color::Black),
        1 => Some(Color::Red),
        2 => Some(Color::Green),
        3 => Some(Color::Yellow),
        4 => Some(Color::Blue),
        5 => Some(Color::Magenta),
        6 => Some(Color::Cyan),
        7 => Some(Color::Gray),
        _ => None,
    }
}

/// A bright color by SGR offset (90-97 foreground, 100-107 background).
pub fn bright_color(index: u16) -> (c: Option<Color>)
    ensures
        c == bright_color_of(index as int),
{
    match index {
        0 => Some(Color::DarkGray),
        1 => Some(Color::LightRed),
        2 => Some(Color::LightGreen),
        3 => Some(Color::LightYellow),
        4 => Some(Color::LightBlue),
        5 => Some(Color::LightMagenta),
        6 => Some(Color::LightCyan),
        7 => Some(Color::White),
        _ => None,
    }
}

/// A parameter as a color component, saturated at 255.
pub open spec fn component(v: u16) -> u8 {
    if v > 255 {
        255
    } else {
        v as u8
    }
}

fn to_component(v: u16) -> (c: u8)
    ensures
        c == component(v),
{
    if v > 255 {
        255
    } else {
        v as u8
    }
}

/// The color that the parameters after `38` or `48` select, with how many
/// parameters it takes: `5;n` for an indexed color, `2;r;g;b` for RGB.
pub open spec fn extended_color(params: Seq<u16>) -> Option<(Color, int)> {
    if params.len() >= 2 && params[0] == 5 {
        Some((Color::Indexed(component(params[1])), 2))
    } else if params.len() >= 4 && params[0] == 2 {
        Some((Color::Rgb(component(params[1]), component(params[2]), component(params[3])), 4))
    } else {
        None
    }
}

/// The extended color whose parameters start at `params[from]`.
pub fn parse_extended_color(params: &[u16], from: usize) -> (r: Option<(Color, usize)>)
    requires
        from <= params.len(),
    ensures
        match extended_color(params@.skip(from as int)) {
            Some((c, n)) => r == Some((c, n as usize)),
            None => r is None,
        },
{
    let ghost rest = params@.skip(from as int);
    let len = params.len() - from;
    if len >= 2 && params[from] == 5 {
        assert(rest[0] == params@[from as int] && rest[1] == params@[from + 1]);
        Some((Color::Indexed(to_component(params[from + 1])), 2))
    } else if len >= 4 && params[from] == 2 {
        assert(rest[0] == params@[from as int] && rest[1] == params@[from + 1] && rest[2]
            == params@[from + 2] && rest[3] == params@[from + 3]);
        Some(
            (
                Color::Rgb(
                    to_component(params[from + 1]),
                    to_component(params[from + 2]),
                    to_component(params[from + 3]),
                ),
                4,
            ),
        )
    } else {
        assert(len >= 1 ==> rest[0] == params@[from as int]);
        None
    }
}

/// What the SGR parameter at `params[i]` does to `style`, and where the
/// next parameter starts.
pub open spec fn sgr_step(style: Style, params: Seq<u16>, i: int) -> (Style, int) {
    let v = params[i] as int;
    if v == 0 {
        (plain_style(), i + 1)
    } else if v == 1 {
        (with_modifier(style, bold()), i + 1)
    } else if v == 2 {
        (with_modifier(style, dim()), i + 1)
    } else if v == 3 {
        (with_modifier(style, italic()), i + 1)
    } else if v == 4 {
        (with_modifier(style, underlined()), i + 1)
    } else if v == 22 {
        (without_modifier(style, bold_or_dim()), i + 1)
    } else if v == 23 {
        (without_modifier(style, italic()), i + 1)
    } else if v == 24 {
        (without_modifier(style, underlined()), i + 1)
    } else if 30 <= v <= 37 {
        (Style { fg: basic_color_of(v - 30), ..style }, i + 1)
    } else if v == 39 {
        (Style { fg: None, ..style }, i + 1)
    } else if 40 <= v <= 47 {
        (Style { bg: basic_color_of(v - 40), ..style }, i + 1)
    } else if v == 49 {
        (Style { bg: None, ..style }, i + 1)
    } else if 90 <= v <= 97 {
        (Style { fg: bright_color_of(v - 90), ..style }, i + 1)
    } else if 100 <= v <= 107 {
        (Style { bg: bright_color_of(v - 100), ..style }, i + 1)
    } else if v == 38 || v == 48 {
        match extended_color(params.skip(i + 1)) {
            Some((c, n)) => (
                if v == 38 {
                    Style { fg: Some(c), ..style }
                } else {
                    Style { bg: Some(c), ..style }
                },
                i + 1 + n,
            ),
            None => (style, i + 1),
        }
    } else {
        (style, i + 1)
    }
}

/// `style` after the SGR parameters from `params[i]` on.
pub open spec fn sgr_from(style: Style, params: Seq<u16>, i: int) -> Style
    decreases params.len() - i,
{
    if i < 0 || i >= params.len() {
        style
    } else {
        let (next, j) = sgr_step(style, params, i);
        if j > i {
            sgr_from(next, params, j)
        } else {
            next
        }
    }
}

/// Applies the SGR parameters `params` to `style`.
pub fn apply_sgr_params(style: &mut Style, params: &[u16])
    ensures
        *final(style) == sgr_from(*old(style), params@, 0),
{
    let mut index: usize = 0;
    while index < params.len()
        invariant
            index <= params.len(),
            sgr_from(*old(style), params@, 0) == sgr_from(*style, params@, index as int),
        decreases params.len() - index,
    {
        let value = params[index];
        let ghost before = *style;
        let ghost expected = sgr_step(before, params@, index as int);
        if value == 0 {
            *style = Style::plain();
        } else if value == 1 {
            *style = style.add_modifier(Modifiers { bold: true, ..Modifiers::empty() });
        } else if value == 2 {
            *style = style.add_modifier(Modifiers { dim: true, ..Modifiers::empty() });
        } else if value == 3 {
            *style = style.add_modifier(Modifiers { italic: true, ..Modifiers::empty() });
        } else if value == 4 {
            *style = style.add_modifier(Modifiers { underlined: true, ..Modifiers::empty() });
        } else if value == 22 {
            *style = style.remove_modifier(
                Modifiers { bold: true, dim: true, ..Modifiers::empty() },
            );
        } else if value == 23 {
            *style = style.remove_modifier(Modifiers { italic: true, ..Modifiers::empty() });
        } else if value == 24 {
            *style = style.remove_modifier(Modifiers { underlined: true, ..Modifiers::empty() });
        } else if 30 <= value && value <= 37 {
            style.fg = basic_color(value - 30);
        } else if value == 39 {
            style.fg = None;
        } else if 40 <= value && value <= 47 {
            style.bg = basic_color(value - 40);
        } else if value == 49 {
            style.bg = None;
        } else if 90 <= value && value <= 97 {
            style.fg = bright_color(value - 90);
        } else if 100 <= value && value <= 107 {
            style.bg = bright_color(value - 100);
        } else if value == 38 || value == 48 {
            if let Some((color, consumed)) = parse_extended_color(params, index + 1) {
                if value == 38 {
                    style.fg = Some(color);
                } else {
                    style.bg = Some(color);
                }
                index = index + consumed;
            }
        }
        assert(*style == expected.0);
        assert(index + 1 == expected.1);
        index = index + 1;
    }
}

/// The SGR parameters written in `sequence`: `0` for a blank sequence,
/// else its `;`-separated numbers, an empty one counting as 0 and one that
/// is not a `u16` as 65535.
pub open spec fn sgr_params(sequence: Seq<char>) -> Seq<u16> {
    if is_blank(sequence) {
        seq![0u16]
    } else {
        split_on(sequence, ';').map_values(|part: Seq<char>| sgr_number(part))
    }
}

/// One SGR parameter.
pub open spec fn sgr_number(part: Seq<char>) -> u16 {
    if part.len() == 0 {
        0
    } else {
        match parse_unsigned(part, u16::MAX as nat) {
            Some(v) => v as u16,
            None => u16::MAX,
        }
    }
}

/// Parses the parameters of an SGR sequence.
pub fn parse_sgr_params(sequence: &[char]) -> (params: Vec<u16>)
    ensures
        params@ == sgr_params(sequence@),
{
    if chars_are_blank(sequence) {
        let mut v: Vec<u16> = Vec::new();
        v.push(0);
        assert(v@ =~= seq![0u16]);
        return v;
    }
    let parts = split_chars(sequence, ';');
    let ghost ps = split_on(sequence@, ';');
    let mut params: Vec<u16> = Vec::new();
    let mut i: usize = 0;
    while i < parts.len()
        invariant
            i <= parts.len(),
            views(parts@) == ps,
            params@ == ps.take(i as int).map_values(|part: Seq<char>| sgr_number(part)),
        decreases parts.len() - i,
    {
        assert(views(parts@)[i as int] == parts@[i as int]@);
        let part = &parts[i];
        let value: u16 = if part.len() == 0 {
            0
        } else {
            match parse_u16(part.as_slice()) {
                Some(v) => v,
                None => u16::MAX,
            }
        };
        assert(value == sgr_number(ps[i as int]));
        params.push(value);
        assert(ps.take(i + 1).map_values(|part: Seq<char>| sgr_number(part)) =~= ps.take(
            i as int,
        ).map_values(|part: Seq<char>| sgr_number(part)).push(sgr_number(ps[i as int])));
        i = i + 1;
    }
    assert(ps.take(parts@.len() as int) =~= ps);
    params
}

/// Applies the SGR sequence `sequence` (what stands between `ESC [` and
/// `m`) to `style`.
pub fn apply_sgr(style: &mut Style, sequence: &[char])
    ensures
        *final(style) == sgr_from(*old(style), sgr_params(sequence@), 0),
{
    let params = parse_sgr_params(sequence);
    apply_sgr_params(style, params.as_slice());
}

/// A piece of text in one style.
#[derive(Debug, Clone, PartialEq, Eq)]
pub struct Span {
    pub content: String,
    pub style: Style,
}

/// One line of styled text.
#[derive(Debug, Clone, PartialEq, Eq)]
pub struct Line {
    pub spans: Vec<Span>,
}

/// A span as its text and style.
pub open spec fn span_view(span: Span) -> (Seq<char>, Style) {
    (span.content@, span.style)
}

/// The spans of a line as texts and styles.
pub open spec fn spans_view(spans: Seq<Span>) -> Seq<(Seq<char>, Style)> {
    spans.map_values(|s: Span| span_view(s))
}

/// Lines as sequences of texts and styles.
pub open spec fn lines_view(lines: Seq<Line>) -> Seq<Seq<(Seq<char>, Style)>> {
    lines.map_values(|l: Line| spans_view(l.spans@))
}

/// The state of decoding: the lines so far (the last one still open), the
/// text not yet put into a span, and the current style.
pub type Decoding = (Seq<Seq<(Seq<char>, Style)>>, Seq<char>, Style);

/// Puts the pending text, if any, into a span of the current style at the
/// end of the open line.
pub open spec fn flush(st: Decoding) -> Decoding {
    if st.1.len() == 0 || st.0.len() == 0 {
        st
    } else {
        (st.0.update(st.0.len() - 1, st.0.last().push((st.1, st.2))), Seq::<char>::empty(), st.2)
    }
}

/// A character that ends a control sequence.
pub open spec fn is_final_byte(c: char) -> bool {
    '\u{40}' <= c && c <= '\u{7e}'
}

/// The position of the first character from `i` on that ends a control
/// sequence, or the end of `s`.
pub open spec fn csi_end(s: Seq<char>, i: int) -> int
    decreases s.len() - i,
{
    if i >= s.len() {
        s.len() as int
    } else if is_final_byte(s[i]) {
        i
    } else {
        csi_end(s, i + 1)
    }
}

/// The position just after the terminator of a string sequence whose body
/// starts at `i`: BEL, ST (`\u{9c}`) or `ESC \`; the end of `s` without one.
pub open spec fn string_end(s: Seq<char>, i: int) -> int
    decreases s.len() - i,
{
    if i >= s.len() {
        s.len() as int
    } else if s[i] == '\x07' || s[i] == '\u{9c}' {
        i + 1
    } else if s[i] == '\x1b' && i + 1 < s.len() && s[i + 1] == '\\' {
        i + 2
    } else {
        string_end(s, i + 1)
    }
}

/// An escape that starts a string sequence (OSC, DCS, SOS, PM, APC).
pub open spec fn is_string_prefix(c: char) -> bool {
    c == ']' || c == 'P' || c == 'X' || c == '^' || c == '_'
}

/// An escape that takes one more character (character set designation and
/// the like).
pub open spec fn is_charset_prefix(c: char) -> bool {
    c == '(' || c == ')' || c == '*' || c == '+' || c == '-' || c == '.' || c == '/' || c == '#'
        || c == '%'
}

/// What the input at `s[i]` does to the decoding, and where the next
/// piece of input starts: an SGR sequence flushes the pending text and
/// changes the style; other escape sequences are skipped; a newline flushes
/// and opens a new line; a carriage return is dropped; any other character
/// becomes pending text.
pub open spec fn decode_step(s: Seq<char>, i: int, st: Decoding) -> (Decoding, int) {
    let c = s[i];
    if c == '\x1b' {
        if i + 1 >= s.len() {
            (st, s.len() as int)
        } else {
            let p = s[i + 1];
            if p == '[' {
                let j = csi_end(s, i + 2);
                if j >= s.len() {
                    (st, s.len() as int)
                } else if s[j] == 'm' {
                    let f = flush(st);
                    ((f.0, f.1, sgr_from(f.2, sgr_params(s.subrange(i + 2, j)), 0)), j + 1)
                } else {
                    (st, j + 1)
                }
            } else if is_string_prefix(p) {
                (st, string_end(s, i + 2))
            } else if is_charset_prefix(p) {
                (st, if i + 2 < s.len() { i + 3 } else { i + 2 })
            } else {
                (st, i + 2)
            }
        }
    } else if c == '\n' {
        let f = flush(st);
        ((f.0.push(Seq::<(Seq<char>, Style)>::empty()), f.1, f.2), i + 1)
    } else if c == '\r' {
        (st, i + 1)
    } else {
        ((st.0, st.1.push(c), st.2), i + 1)
    }
}

/// The decoding after the input from `s[i]` on.
pub open spec fn decode_from(s: Seq<char>, i: int, st: Decoding) -> Decoding
    decreases s.len() - i,
{
    if i < 0 || i >= s.len() {
        st
    } else {
        let (next, j) = decode_step(s, i, st);
        if i < j <= s.len() {
            decode_from(s, j, next)
        } else {
            next
        }
    }
}

/// The lines that a capture shows: decode it from one open line in the
/// plain style, flush the pending text, and drop the empty line that a
/// final newline opened; at least one line.
pub open spec fn decode(s: Seq<char>) -> Seq<Seq<(Seq<char>, Style)>> {
    let init: Decoding = (seq![Seq::<(Seq<char>, Style)>::empty()], Seq::<char>::empty(), plain_style());
    let st = flush(decode_from(s, 0, init));
    let lines = if s.len() > 0 && s.last() == '\n' && st.0.len() > 0 && st.0.last().len() == 0 {
        st.0.drop_last()
    } else {
        st.0
    };
    if lines.len() == 0 {
        seq![Seq::<(Seq<char>, Style)>::empty()]
    } else {
        lines
    }
}

proof fn lemma_csi_end_bounds(s: Seq<char>, i: int)
    requires
        0 <= i <= s.len(),
    ensures
        i <= csi_end(s, i) <= s.len(),
        csi_end(s, i) < s.len() ==> is_final_byte(s[csi_end(s, i)]),
    decreases s.len() - i,
{
    if i < s.len() && !is_final_byte(s[i]) {
        lemma_csi_end_bounds(s, i + 1);
    }
}

proof fn lemma_string_end_bounds(s: Seq<char>, i: int)
    requires
        0 <= i <= s.len(),
    ensures
        i <= string_end(s, i) <= s.len(),
    decreases s.len() - i,
{
    if i < s.len() && !(s[i] == '\x07' || s[i] == '\u{9c}') && !(s[i] == '\x1b' && i + 1 < s.len()
        && s[i + 1] == '\\') {
        lemma_string_end_bounds(s, i + 1);
    }
}

proof fn lemma_decode_step_advances(s: Seq<char>, i: int, st: Decoding)
    requires
        0 <= i < s.len(),
    ensures
        i < decode_step(s, i, st).1 <= s.len(),
{
    if s[i] == '\x1b' && i + 1 < s.len() {
        if s[i + 1] == '[' {
            lemma_csi_end_bounds(s, i + 2);
        } else if is_string_prefix(s[i + 1]) {
            lemma_string_end_bounds(s, i + 2);
        }
    }
}

/// The position just after the terminator of the string sequence whose
/// body starts at `i`.
pub fn skip_string_escape(chars: &[char], i: usize) -> (end: usize)
    requires
        i <= chars.len(),
    ensures
        end == string_end(chars@, i as int),
{
    let mut k: usize = i;
    while k < chars.len()
        invariant
            i <= k <= chars.len(),
            string_end(chars@, k as int) == string_end(chars@, i as int),
        decreases chars.len() - k,
    {
        let c = chars[k];
        if c == '\x07' || c == '\u{9c}' {
            return k + 1;
        }
        if c == '\x1b' && k + 1 < chars.len() && chars[k + 1] == '\\' {
            return k + 2;
        }
        k = k + 1;
    }
    k
}

/// The position of the character that ends the control sequence whose
/// parameters start at `i`, or the end of the input.
fn find_csi_end(chars: &[char], i: usize) -> (end: usize)
    requires
        i <= chars.len(),
    ensures
        end == csi_end(chars@, i as int),
{
    let mut k: usize = i;
    while k < chars.len() && !('\u{40}' <= chars[k] && chars[k] <= '\u{7e}')
        invariant
            i <= k <= chars.len(),
            csi_end(chars@, k as int) == csi_end(chars@, i as int),
        decreases chars.len() - k,
    {
        k = k + 1;
    }
    k
}

proof fn lemma_decode_keeps_lines(s: Seq<char>, i: int, st: Decoding)
    requires
        st.0.len() > 0,
    ensures
        decode_from(s, i, st).0.len() > 0,
        flush(decode_from(s, i, st)).0.len() > 0,
    decreases s.len() - i,
{
    if 0 <= i < s.len() {
        let (next, j) = decode_step(s, i, st);
        assert(next.0.len() > 0);
        if i < j <= s.len() {
            lemma_decode_keeps_lines(s, j, next);
        }
    }
}

/// The decoder of one capture.
pub struct AnsiLineParser {
    done: Vec<Line>,
    current: Vec<Span>,
    buffer: Vec<char>,
    style: Style,
}

impl AnsiLineParser {
    /// The decoding state this parser holds.
    pub closed spec fn state(&self) -> Decoding {
        (lines_view(self.done@).push(spans_view(self.current@)), self.buffer@, self.style)
    }

    /// A parser with one open, empty line, no pending text and the plain
    /// style.
    pub fn new() -> (p: AnsiLineParser)
        ensures
            p.state() == (seq![Seq::<(Seq<char>, Style)>::empty()], Seq::<char>::empty(), plain_style()),
    {
        let p = AnsiLineParser {
            done: Vec::new(),
            current: Vec::new(),
            buffer: Vec::new(),
            style: Style::plain(),
        };
        assert(lines_view(p.done@) =~= Seq::<Seq<(Seq<char>, Style)>>::empty());
        assert(spans_view(p.current@) =~= Seq::<(Seq<char>, Style)>::empty());
        assert(p.state().0 =~= seq![Seq::<(Seq<char>, Style)>::empty()]);
        p
    }

    /// Puts the pending text into a span at the end of the open line.
    fn flush_buffer(&mut self)
        ensures
            final(self).state() == flush(old(self).state()),
    {
        if self.buffer.len() == 0 {
            return;
        }
        let ghost before = self.state();
        let span = Span { content: string_from_chars(self.buffer.as_slice()), style: self.style };
        self.current.push(span);
        self.buffer = Vec::new();
        assert(spans_view(self.current@) =~= spans_view(old(self).current@).push(
            (old(self).buffer@, self.style),
        ));
        assert(self.state().0 =~= before.0.update(before.0.len() - 1, before.0.last().push(
            (before.1, before.2),
        )));
    }

    /// Ends the open line and opens a new, empty one.
    fn new_line(&mut self)
        ensures
            final(self).state() == (
                old(self).state().0.push(Seq::<(Seq<char>, Style)>::empty()),
                old(self).state().1,
                old(self).state().2,
            ),
    {
        let mut spans: Vec<Span> = Vec::new();
        std::mem::swap(&mut spans, &mut self.current);
        let line = Line { spans };
        self.done.push(line);
        assert(lines_view(self.done@) =~= lines_view(old(self).done@).push(
            spans_view(old(self).current@),
        ));
        assert(spans_view(self.current@) =~= Seq::<(Seq<char>, Style)>::empty());
    }

    /// Handles the control sequence whose parameters start at `i`: an SGR
    /// sequence flushes the pending text and changes the style, others are
    /// skipped. Returns where the input goes on.
    fn handle_csi(&mut self, chars: &[char], i: usize) -> (next: usize)
        requires
            2 <= i <= chars.len(),
            chars@[i - 2] == '\x1b',
            chars@[i - 1] == '[',
        ensures
            (final(self).state(), next as int) == decode_step(chars@, i - 2, old(self).state()),
    {
        let j = find_csi_end(chars, i);
        proof {
            lemma_csi_end_bounds(chars@, i as int);
        }
        if j >= chars.len() {
            return chars.len();
        }
        if chars[j] == 'm' {
            self.flush_buffer();
            let mut sequence: Vec<char> = Vec::new();
            let mut k: usize = i;
            while k < j
                invariant
                    i <= k <= j < chars.len(),
                    sequence@ == chars@.subrange(i as int, k as int),
                decreases j - k,
            {
                sequence.push(chars[k]);
                assert(chars@.subrange(i as int, k + 1) =~= chars@.subrange(i as int, k as int).push(
                    chars@[k as int],
                ));
                k = k + 1;
            }
            apply_sgr(&mut self.style, sequence.as_slice());
        }
        j + 1
    }

    /// Handles the escape sequence that starts at `i`. Returns where the
    /// input goes on.
    fn handle_escape(&mut self, chars: &[char], i: usize) -> (next: usize)
        requires
            i < chars.len(),
            chars@[i as int] == '\x1b',
        ensures
            (final(self).state(), next as int) == decode_step(chars@, i as int, old(self).state()),
    {
        if i + 1 >= chars.len() {
            return chars.len();
        }
        let prefix = chars[i + 1];
        if prefix == '[' {
            self.handle_csi(chars, i + 2)
        } else if prefix == ']' || prefix == 'P' || prefix == 'X' || prefix == '^' || prefix
            == '_' {
            skip_string_escape(chars, i + 2)
        } else if prefix == '(' || prefix == ')' || prefix == '*' || prefix == '+' || prefix == '-'
            || prefix == '.' || prefix == '/' || prefix == '#' || prefix == '%' {
            if i + 2 < chars.len() {
                i + 3
            } else {
                i + 2
            }
        } else {
            i + 2
        }
    }

    /// Decodes a capture from the parser's state, flushing the pending text
    /// at its end.
    pub fn push_capture(&mut self, chars: &[char])
        ensures
            final(self).state() == flush(decode_from(chars@, 0, old(self).state())),
    {
        let mut i: usize = 0;
        while i < chars.len()
            invariant
                i <= chars.len(),
                decode_from(chars@, 0, old(self).state()) == decode_from(
                    chars@,
                    i as int,
                    self.state(),
                ),
            decreases chars.len() - i,
        {
            let ghost st = self.state();
            proof {
                lemma_decode_step_advances(chars@, i as int, st);
            }
            let c = chars[i];
            if c == '\x1b' {
                i = self.handle_escape(chars, i);
            } else if c == '\n' {
                self.flush_buffer();
                self.new_line();
                i = i + 1;
            } else if c == '\r' {
                i = i + 1;
            } else {
                self.buffer.push(c);
                i = i + 1;
            }
        }
        self.flush_buffer();
    }

    /// The decoded lines, without the open line when it is empty and
    /// `drop_empty_last` holds; at least one line.
    pub fn finish(self, drop_empty_last: bool) -> (lines: Vec<Line>)
        ensures
            ({
                let all = self.state().0;
                let kept = if drop_empty_last && all.last().len() == 0 {
                    all.drop_last()
                } else {
                    all
                };
                lines_view(lines@) == if kept.len() == 0 {
                    seq![Seq::<(Seq<char>, Style)>::empty()]
                } else {
                    kept
                }
            }),
    {
        let ghost all = self.state().0;
        let AnsiLineParser { done, current, buffer: _, style: _ } = self;
        let mut lines = done;
        let ghost done_view = lines_view(lines@);
        assert(all =~= done_view.push(spans_view(current@)));
        if !(drop_empty_last && current.len() == 0) {
            lines.push(Line { spans: current });
            assert(lines_view(lines@) =~= all);
        } else {
            assert(all.last() == spans_view(current@));
            assert(lines_view(lines@) =~= all.drop_last());
        }
        if lines.len() == 0 {
            let empty_line = Line { spans: Vec::new() };
            assert(spans_view(empty_line.spans@) =~= Seq::<(Seq<char>, Style)>::empty());
            lines.push(empty_line);
            assert(lines_view(lines@) =~= seq![Seq::<(Seq<char>, Style)>::empty()]);
        }
        lines
    }
}

/// Decodes a pane capture into lines of styled spans.
pub fn capture_to_lines(capture: &str) -> (lines: Vec<Line>)
    ensures
        lines_view(lines@) == decode(capture@),
{
    let chars = chars_of(capture);
    let mut parser = AnsiLineParser::new();
    parser.push_capture(chars.as_slice());
    let ends_with_newline = chars.len() > 0 && chars[chars.len() - 1] == '\n';
    proof {
        lemma_decode_keeps_lines(capture@, 0, parser.state());
    }
    parser.finish(ends_with_newline)
}

/// A line of text shown in the plain style: one span, or none when empty.
pub open spec fn plain_line(piece: Seq<char>) -> Seq<(Seq<char>, Style)> {
    if piece.len() == 0 {
        Seq::<(Seq<char>, Style)>::empty()
    } else {
        seq![(piece, plain_style())]
    }
}

/// The decoding after plain text `p`: its finished lines, then the open
/// line with the last piece still pending.
pub open spec fn plain_state(p: Seq<char>) -> Decoding {
    let pieces = split_on(p, '\n');
    (
        pieces.drop_last().map_values(|q: Seq<char>| plain_line(q)).push(
            Seq::<(Seq<char>, Style)>::empty(),
        ),
        pieces.last(),
        plain_style(),
    )
}

/// Text without escape characters and carriage returns.
pub open spec fn is_plain_text(s: Seq<char>) -> bool {
    forall|i: int| 0 <= i < s.len() ==> #[trigger] s[i] != '\x1b' && s[i] != '\r'
}

proof fn lemma_plain_prefix(s: Seq<char>, i: int)
    requires
        is_plain_text(s),
        0 <= i <= s.len(),
    ensures
        decode_from(s, 0, plain_state(Seq::<char>::empty())) == decode_from(
            s,
            i,
            plain_state(s.take(i)),
        ),
    decreases i,
{
    if i > 0 {
        lemma_plain_prefix(s, i - 1);
        let p = s.take(i - 1);
        let c = s[i - 1];
        assert(s.take(i) =~= p.push(c));
        assert(p.push(c).drop_last() =~= p);
        let st = plain_state(p);
        lemma_split_on_nonempty(p, '\n');
        let pieces = split_on(p, '\n');
        let next = decode_step(s, i - 1, st);
        assert(next.1 == i);
        if c == '\n' {
            assert(split_on(p.push(c), '\n') == pieces.push(Seq::<char>::empty()));
            assert(pieces.push(Seq::<char>::empty()).drop_last() =~= pieces);
            assert(pieces.drop_last().push(pieces.last()) =~= pieces);
            assert(pieces.map_values(|q: Seq<char>| plain_line(q)) =~= pieces.drop_last().map_values(
                |q: Seq<char>| plain_line(q),
            ).push(plain_line(pieces.last())));
            assert(next.0 =~= plain_state(s.take(i)));
        } else {
            let updated = pieces.update(pieces.len() - 1, pieces.last().push(c));
            assert(split_on(p.push(c), '\n') == updated);
            assert(updated.drop_last() =~= pieces.drop_last());
            assert(next.0 =~= plain_state(s.take(i)));
        }
    } else {
        assert(s.take(0) =~= Seq::<char>::empty());
    }
}

/// Text without escape sequences or carriage returns is shown as it is:
/// one line per line of the text (no line after a final newline), each in
/// one plain span, empty lines without spans.
pub proof fn lemma_plain_text_decodes(s: Seq<char>)
    requires
        is_plain_text(s),
    ensures
        ({
            let pieces = split_on(s, '\n');
            let kept = if s.len() > 0 && s.last() == '\n' {
                pieces.drop_last()
            } else {
                pieces
            };
            decode(s) == kept.map_values(|q: Seq<char>| plain_line(q))
        }),
{
    let init: Decoding = (seq![Seq::<(Seq<char>, Style)>::empty()], Seq::<char>::empty(), plain_style());
    assert(split_on(Seq::<char>::empty(), '\n') =~= seq![Seq::<char>::empty()]);
    assert(plain_state(Seq::<char>::empty()).0 =~= init.0);
    assert(plain_state(Seq::<char>::empty()) == init);
    lemma_plain_prefix(s, s.len() as int);
    assert(s.take(s.len() as int) =~= s);
    let st = plain_state(s);
    assert(decode_from(s, s.len() as int, st) == st);
    lemma_split_on_nonempty(s, '\n');
    let pieces = split_on(s, '\n');
    let all = pieces.map_values(|q: Seq<char>| plain_line(q));
    assert(all =~= pieces.drop_last().map_values(|q: Seq<char>| plain_line(q)).push(
        plain_line(pieces.last()),
    ));
    assert(flush(st).0 =~= all);
    if s.len() > 0 && s.last() == '\n' {
        assert(s.drop_last().push('\n') =~= s);
        lemma_split_on_nonempty(s.drop_last(), '\n');
        assert(pieces.last() =~= Seq::<char>::empty());
        assert(all.drop_last() =~= pieces.drop_last().map_values(|q: Seq<char>| plain_line(q)));
    } else {
        if s.len() > 0 {
            assert(s.drop_last().push(s.last()) =~= s);
            lemma_split_on_nonempty(s.drop_last(), '\n');
        }
    }
}


/// The escape sequence `ESC [ n m`, which selects the graphic rendition `n`.
pub open spec fn sgr_escape(n: nat) -> Seq<char> {
    seq!['\x1b', '['] + crate::text::decimal(n) + seq!['m']
}

/// Text of one line without escapes or carriage returns.
pub open spec fn is_plain_piece(t: Seq<char>) -> bool {
    forall|i: int| 0 <= i < t.len() ==> #[trigger] t[i] != '\x1b' && t[i] != '\r' && t[i] != '\n'
}

proof fn lemma_plain_tail(s: Seq<char>, i: int, st: Decoding)
    requires
        0 <= i <= s.len(),
        forall|j: int| i <= j < s.len() ==> #[trigger] s[j] != '\x1b' && s[j] != '\r' && s[j] != '\n',
    ensures
        decode_from(s, i, st) == (st.0, st.1 + s.subrange(i, s.len() as int), st.2),
    decreases s.len() - i,
{
    if i < s.len() {
        let next: Decoding = (st.0, st.1.push(s[i]), st.2);
        assert(decode_step(s, i, st) == (next, i + 1));
        lemma_plain_tail(s, i + 1, next);
        assert(st.1.push(s[i]) + s.subrange(i + 1, s.len() as int) =~= st.1 + s.subrange(
            i,
            s.len() as int,
        ));
    } else {
        assert(st.1 + s.subrange(i, s.len() as int) =~= st.1);
    }
}

proof fn lemma_csi_over(s: Seq<char>, i: int, end: int)
    requires
        0 <= i <= end < s.len(),
        forall|k: int| i <= k < end ==> !is_final_byte(#[trigger] s[k]),
        is_final_byte(s[end]),
    ensures
        csi_end(s, i) == end,
    decreases end - i,
{
    if i < end {
        lemma_csi_over(s, i + 1, end);
    }
}

/// `ESC [ n m` followed by one line of plain text shows the text as one
/// span in the style that the parameter `n` gives the plain style.
proof fn lemma_sgr_decode(n: nat, t: Seq<char>)
    requires
        n <= u16::MAX,
        t.len() > 0,
        is_plain_piece(t),
    ensures
        decode(sgr_escape(n) + t) == seq![seq![(t, sgr_from(plain_style(), seq![n as u16], 0))]],
{
    let d = crate::text::decimal(n);
    crate::text::lemma_decimal_digits(n);
    crate::text::lemma_parse_decimal(n, u16::MAX as nat);
    let s = sgr_escape(n) + t;
    let l = d.len() as int;
    assert(s.len() == 3 + l + t.len());
    assert forall|k: int| 2 <= k < 2 + l implies !is_final_byte(#[trigger] s[k]) by {
        assert(s[k] == d[k - 2]);
        assert(crate::text::is_digit(d[k - 2]));
    }
    assert(s[2 + l] == 'm');
    lemma_csi_over(s, 2, 2 + l);
    assert(s.subrange(2, 2 + l) =~= d);
    assert(!is_blank(d)) by {
        assert(crate::text::is_digit(d[0]));
    }
    assert(!d.contains(';')) by {
        if d.contains(';') {
            let k = choose|k: int| 0 <= k < d.len() && d[k] == ';';
            assert(crate::text::is_digit(d[k]));
        }
    }
    crate::text::lemma_split_on_without_sep(d, ';');
    assert(sgr_params(d) =~= seq![n as u16]);
    let init: Decoding = (seq![Seq::<(Seq<char>, Style)>::empty()], Seq::<char>::empty(), plain_style());
    assert(flush(init) == init);
    let style = sgr_from(plain_style(), seq![n as u16], 0);
    let after: Decoding = (init.0, Seq::<char>::empty(), style);
    assert(s[0] == '\x1b' && s[1] == '[');
    assert(decode_step(s, 0, init) == (after, 3 + l));
    assert forall|j: int| 3 + l <= j < s.len() implies #[trigger] s[j] != '\x1b' && s[j] != '\r' && s[j]
        != '\n' by {
        assert(s[j] == t[j - 3 - l]);
    }
    lemma_plain_tail(s, 3 + l, after);
    assert(s.subrange(3 + l, s.len() as int) =~= t);
    assert(Seq::<char>::empty() + t =~= t);
    let st = flush(decode_from(s, 0, init));
    assert(st.0 =~= seq![seq![(t, style)]]);
    assert(s.last() == t.last());
}

/// The colors that the SGR parameters select: `30`-`37` set the
/// foreground and `40`-`47` the background to the standard ANSI colors
/// black, red, green, yellow, blue, magenta, cyan and gray, in that order;
/// `90`-`97` and `100`-`107` to their bright counterparts dark gray, light
/// red, light green, light yellow, light blue, light magenta, light cyan
/// and white. Shown on plain text, each gives one span in that color.
pub proof fn lemma_sgr_colors_decode(k: int, t: Seq<char>)
    requires
        0 <= k < 8,
        t.len() > 0,
        is_plain_piece(t),
    ensures
        ({
            let standard = seq![
                Color::Black,
                Color::Red,
                Color::Green,
                Color::Yellow,
                Color::Blue,
                Color::Magenta,
                Color::Cyan,
                Color::Gray,
            ];
            let bright = seq![
                Color::DarkGray,
                Color::LightRed,
                Color::LightGreen,
                Color::LightYellow,
                Color::LightBlue,
                Color::LightMagenta,
                Color::LightCyan,
                Color::White,
            ];
            &&& decode(sgr_escape((30 + k) as nat) + t) == seq![
                seq![(t, Style { fg: Some(standard[k]), ..plain_style() })],
            ]
            &&& decode(sgr_escape((40 + k) as nat) + t) == seq![
                seq![(t, Style { bg: Some(standard[k]), ..plain_style() })],
            ]
            &&& decode(sgr_escape((90 + k) as nat) + t) == seq![
                seq![(t, Style { fg: Some(bright[k]), ..plain_style() })],
            ]
            &&& decode(sgr_escape((100 + k) as nat) + t) == seq![
                seq![(t, Style { bg: Some(bright[k]), ..plain_style() })],
            ]
        }),
{
    lemma_sgr_decode((30 + k) as nat, t);
    lemma_sgr_decode((40 + k) as nat, t);
    lemma_sgr_decode((90 + k) as nat, t);
    lemma_sgr_decode((100 + k) as nat, t);
    let standard = seq![
        Color::Black,
        Color::Red,
        Color::Green,
        Color::Yellow,
        Color::Blue,
        Color::Magenta,
        Color::Cyan,
        Color::Gray,
    ];
    let bright = seq![
        Color::DarkGray,
        Color::LightRed,
        Color::LightGreen,
        Color::LightYellow,
        Color::LightBlue,
        Color::LightMagenta,
        Color::LightCyan,
        Color::White,
    ];
    assert(basic_color_of(k) == Some(standard[k]));
    assert(bright_color_of(k) == Some(bright[k]));
    let p30 = seq![(30 + k) as u16];
    let p40 = seq![(40 + k) as u16];
    let p90 = seq![(90 + k) as u16];
    let p100 = seq![(100 + k) as u16];
    assert(p30[0] as int == 30 + k && p40[0] as int == 40 + k && p90[0] as int == 90 + k
        && p100[0] as int == 100 + k);
    assert(sgr_step(plain_style(), p30, 0) == (Style { fg: basic_color_of(k), ..plain_style() }, 1int));
    assert(sgr_step(plain_style(), p40, 0) == (Style { bg: basic_color_of(k), ..plain_style() }, 1int));
    assert(sgr_step(plain_style(), p90, 0) == (Style { fg: bright_color_of(k), ..plain_style() }, 1int));
    assert(sgr_step(plain_style(), p100, 0) == (Style { bg: bright_color_of(k), ..plain_style() }, 1int));
    assert(sgr_from(Style { fg: basic_color_of(k), ..plain_style() }, p30, 1) == Style { fg: basic_color_of(k), ..plain_style() });
    assert(sgr_from(Style { bg: basic_color_of(k), ..plain_style() }, p40, 1) == Style { bg: basic_color_of(k), ..plain_style() });
    assert(sgr_from(Style { fg: bright_color_of(k), ..plain_style() }, p90, 1) == Style { fg: bright_color_of(k), ..plain_style() });
    assert(sgr_from(Style { bg: bright_color_of(k), ..plain_style() }, p100, 1) == Style { bg: bright_color_of(k), ..plain_style() });
    assert(sgr_from(plain_style(), p30, 0) == Style { fg: Some(standard[k]), ..plain_style() });
    assert(sgr_from(plain_style(), p40, 0) == Style { bg: Some(standard[k]), ..plain_style() });
    assert(sgr_from(plain_style(), p90, 0) == Style { fg: Some(bright[k]), ..plain_style() });
    assert(sgr_from(plain_style(), p100, 0) == Style { bg: Some(bright[k]), ..plain_style() });
}


/// What single SGR parameters do to any style: `0` resets it; `1`, `2`,
/// `3` and `4` turn bold, dim, italic and underlined on; `22` turns bold
/// and dim off, `23` italic and `24` underlined; `39` and `49` restore the
/// default foreground and background; nothing else changes.
pub proof fn lemma_sgr_parameters(style: Style)
    ensures
        sgr_from(style, seq![0u16], 0) == (Style {
            fg: None,
            bg: None,
            add_modifier: Modifiers { bold: false, dim: false, italic: false, underlined: false },
            sub_modifier: Modifiers { bold: false, dim: false, italic: false, underlined: false },
        }),
        sgr_from(style, seq![1u16], 0) == (Style {
            add_modifier: Modifiers { bold: true, ..style.add_modifier },
            sub_modifier: Modifiers { bold: false, ..style.sub_modifier },
            ..style
        }),
        sgr_from(style, seq![2u16], 0) == (Style {
            add_modifier: Modifiers { dim: true, ..style.add_modifier },
            sub_modifier: Modifiers { dim: false, ..style.sub_modifier },
            ..style
        }),
        sgr_from(style, seq![3u16], 0) == (Style {
            add_modifier: Modifiers { italic: true, ..style.add_modifier },
            sub_modifier: Modifiers { italic: false, ..style.sub_modifier },
            ..style
        }),
        sgr_from(style, seq![4u16], 0) == (Style {
            add_modifier: Modifiers { underlined: true, ..style.add_modifier },
            sub_modifier: Modifiers { underlined: false, ..style.sub_modifier },
            ..style
        }),
        sgr_from(style, seq![22u16], 0) == (Style {
            add_modifier: Modifiers { bold: false, dim: false, ..style.add_modifier },
            sub_modifier: Modifiers { bold: true, dim: true, ..style.sub_modifier },
            ..style
        }),
        sgr_from(style, seq![23u16], 0) == (Style {
            add_modifier: Modifiers { italic: false, ..style.add_modifier },
            sub_modifier: Modifiers { italic: true, ..style.sub_modifier },
            ..style
        }),
        sgr_from(style, seq![24u16], 0) == (Style {
            add_modifier: Modifiers { underlined: false, ..style.add_modifier },
            sub_modifier: Modifiers { underlined: true, ..style.sub_modifier },
            ..style
        }),
        sgr_from(style, seq![39u16], 0) == (Style { fg: None, ..style }),
        sgr_from(style, seq![49u16], 0) == (Style { bg: None, ..style }),
{
    lemma_single_param(style, seq![0u16]);
    lemma_single_param(style, seq![1u16]);
    lemma_single_param(style, seq![2u16]);
    lemma_single_param(style, seq![3u16]);
    lemma_single_param(style, seq![4u16]);
    lemma_single_param(style, seq![22u16]);
    lemma_single_param(style, seq![23u16]);
    lemma_single_param(style, seq![24u16]);
    lemma_single_param(style, seq![39u16]);
    lemma_single_param(style, seq![49u16]);
}

proof fn lemma_single_param(style: Style, p: Seq<u16>)
    requires
        p.len() == 1,
    ensures
        sgr_from(style, p, 0) == sgr_step(style, p, 0).0,
{
    let st = sgr_step(style, p, 0);
    assert(st.1 >= 1);
    assert(sgr_from(st.0, p, st.1) == st.0);
}


/// `38;5;n` and `48;5;n` set the foreground and background to the
/// indexed color `n`, and `38;2;r;g;b` and `48;2;r;g;b` to the RGB color
/// `(r, g, b)`, each value capped at 255; nothing else changes.
pub proof fn lemma_sgr_extended_colors(style: Style, n: u16, r: u16, g: u16, b: u16)
    ensures
        ({
            let cap = |v: u16| if v > 255 { 255u8 } else { v as u8 };
            &&& sgr_from(style, seq![38u16, 5u16, n], 0) == (Style { fg: Some(Color::Indexed(cap(n))), ..style })
            &&& sgr_from(style, seq![48u16, 5u16, n], 0) == (Style { bg: Some(Color::Indexed(cap(n))), ..style })
            &&& sgr_from(style, seq![38u16, 2u16, r, g, b], 0) == (Style {
                fg: Some(Color::Rgb(cap(r), cap(g), cap(b))),
                ..style
            })
            &&& sgr_from(style, seq![48u16, 2u16, r, g, b], 0) == (Style {
                bg: Some(Color::Rgb(cap(r), cap(g), cap(b))),
                ..style
            })
        }),
{
    let p1 = seq![38u16, 5u16, n];
    let p2 = seq![48u16, 5u16, n];
    let p3 = seq![38u16, 2u16, r, g, b];
    let p4 = seq![48u16, 2u16, r, g, b];
    assert(p1.skip(1) =~= seq![5u16, n]);
    assert(p2.skip(1) =~= seq![5u16, n]);
    assert(p3.skip(1) =~= seq![2u16, r, g, b]);
    assert(p4.skip(1) =~= seq![2u16, r, g, b]);
    let s1 = sgr_step(style, p1, 0);
    let s2 = sgr_step(style, p2, 0);
    let s3 = sgr_step(style, p3, 0);
    let s4 = sgr_step(style, p4, 0);
    assert(s1.1 == 3 && s2.1 == 3 && s3.1 == 5 && s4.1 == 5);
    assert(sgr_from(s1.0, p1, 3) == s1.0);
    assert(sgr_from(s2.0, p2, 3) == s2.0);
    assert(sgr_from(s3.0, p3, 5) == s3.0);
    assert(sgr_from(s4.0, p4, 5) == s4.0);
}


/// How an SGR sequence is read: numbers separated by `;` in order, an
/// empty number counting as 0, and an empty (or blank) sequence as the
/// single parameter 0.
pub proof fn lemma_sgr_params_read(a: nat, b: nat)
    requires
        a <= u16::MAX,
        b <= u16::MAX,
    ensures
        sgr_params(crate::text::decimal(a) + seq![';'] + crate::text::decimal(b)) == seq![a as u16, b as u16],
        sgr_params(crate::text::decimal(a) + seq![';']) == seq![a as u16, 0u16],
        sgr_params(Seq::<char>::empty()) == seq![0u16],
{
    let da = crate::text::decimal(a);
    let db = crate::text::decimal(b);
    crate::text::lemma_decimal_digits(a);
    crate::text::lemma_decimal_digits(b);
    crate::text::lemma_parse_decimal(a, u16::MAX as nat);
    crate::text::lemma_parse_decimal(b, u16::MAX as nat);
    assert(!da.contains(';')) by {
        if da.contains(';') {
            let k = choose|k: int| 0 <= k < da.len() && da[k] == ';';
            assert(crate::text::is_digit(da[k]));
        }
    }
    assert(!db.contains(';')) by {
        if db.contains(';') {
            let k = choose|k: int| 0 <= k < db.len() && db[k] == ';';
            assert(crate::text::is_digit(db[k]));
        }
    }
    crate::text::lemma_split_on_without_sep(da, ';');
    crate::text::lemma_split_on_without_sep(db, ';');
    crate::text::lemma_split_on_without_sep(Seq::<char>::empty(), ';');
    crate::text::lemma_split_on_concat(da, db, ';');
    crate::text::lemma_split_on_concat(da, Seq::<char>::empty(), ';');
    assert(da + seq![';'] + Seq::<char>::empty() =~= da + seq![';']);
    let both = da + seq![';'] + db;
    assert(!is_blank(both)) by {
        assert(both[0] == da[0]);
        assert(crate::text::is_digit(da[0]));
    }
    assert(!is_blank(da + seq![';'])) by {
        assert((da + seq![';'])[0] == da[0]);
        assert(crate::text::is_digit(da[0]));
    }
    assert(sgr_params(both) =~= seq![a as u16, b as u16]);
    assert(sgr_params(da + seq![';']) =~= seq![a as u16, 0u16]);
    assert(is_blank(Seq::<char>::empty()));
}

} // verus!
