//! The tmux side of the client: what is sent to tmux and how its listings
//! are read back.

use vstd::prelude::*;

use crate::model::{Pane, Session, SplitDirection};
use crate::text::{
    chars_are_blank, chars_contain, chars_from, chars_of, is_blank, parse_unsigned, parse_usize,
    contains_run, decimal, drop_blank, lines_of, push_decimal, str_contains, trim,
    trim_chars, lemma_parse_decimal, lemma_split_on_concat, lemma_split_on_without_sep, nonblank_lines, push_char, push_str, split_chars, split_on, string_from_chars, views,
};

verus! {

/// Why a request to tmux, or a row that tmux printed, was refused.
#[derive(Debug, Clone, PartialEq, Eq)]
pub enum TmuxError {
    /// A session row without exactly four tab-separated fields.
    UnexpectedSessionRow(String),
    /// A pane row without exactly twelve tab-separated fields.
    UnexpectedPaneRow(String),
    /// A field that does not hold what its label says.
    InvalidField { label: String, value: String },
    /// A session name that trims to nothing.
    EmptySessionName,
    /// A session name holding tmux's target separator `:`.
    SessionNameSeparator,
    /// A pane id that does not start with `%`.
    PaneIdPrefix(String),
    /// A pane id whose rest is not a number.
    PaneIdNotNumeric(String),
    /// A key name that trims to nothing.
    EmptyKeyName,
}

/// A `TmuxError` with its strings taken as character sequences.
pub enum TmuxFailure {
    UnexpectedSessionRow(Seq<char>),
    UnexpectedPaneRow(Seq<char>),
    InvalidField(Seq<char>, Seq<char>),
    EmptySessionName,
    SessionNameSeparator,
    PaneIdPrefix(Seq<char>),
    PaneIdNotNumeric(Seq<char>),
    EmptyKeyName,
}

impl View for TmuxError {
    type V = TmuxFailure;

    open spec fn view(&self) -> TmuxFailure {
        match self {
            TmuxError::UnexpectedSessionRow(l) => TmuxFailure::UnexpectedSessionRow(l@),
            TmuxError::UnexpectedPaneRow(l) => TmuxFailure::UnexpectedPaneRow(l@),
            TmuxError::InvalidField { label, value } => TmuxFailure::InvalidField(label@, value@),
            TmuxError::EmptySessionName => TmuxFailure::EmptySessionName,
            TmuxError::SessionNameSeparator => TmuxFailure::SessionNameSeparator,
            TmuxError::PaneIdPrefix(p) => TmuxFailure::PaneIdPrefix(p@),
            TmuxError::PaneIdNotNumeric(p) => TmuxFailure::PaneIdNotNumeric(p@),
            TmuxError::EmptyKeyName => TmuxFailure::EmptyKeyName,
        }
    }
}

/// A `usize` field as tmux prints it.
pub open spec fn usize_field(s: Seq<char>) -> Option<nat> {
    parse_unsigned(s, usize::MAX as nat)
}

/// A `0`/`1` flag as tmux prints it.
pub open spec fn flag_field(s: Seq<char>) -> Option<bool> {
    if s == seq!['0'] {
        Some(false)
    } else if s == seq!['1'] {
        Some(true)
    } else {
        None
    }
}

/// Parses a numeric field of a tmux row; `label` names it in the error.
pub fn parse_usize_field(label: &str, value: &str) -> (r: Result<usize, TmuxError>)
    ensures
        match r {
            Ok(n) => usize_field(value@) == Some(n as nat),
            Err(e) => usize_field(value@) is None && e@ == TmuxFailure::InvalidField(label@, value@),
        },
{
    let chars = chars_of(value);
    match parse_usize(chars.as_slice()) {
        Some(n) => Ok(n),
        None => Err(TmuxError::InvalidField { label: label.to_owned(), value: value.to_owned() }),
    }
}

fn chars_flag(s: &[char]) -> (r: Option<bool>)
    ensures
        r == flag_field(s@),
{
    if s.len() == 1 && s[0] == '0' {
        assert(s@ =~= seq!['0']);
        Some(false)
    } else if s.len() == 1 && s[0] == '1' {
        assert(s@ =~= seq!['1']);
        Some(true)
    } else {
        assert(s@ != seq!['0'] && s@ != seq!['1']) by {
            if s@.len() == 1 {
                assert(s@[0] == s[0]);
            }
        }
        None
    }
}

/// Parses a `0`/`1` flag of a tmux row; `label` names it in the error.
pub fn parse_bool_field(label: &str, value: &str) -> (r: Result<bool, TmuxError>)
    ensures
        match r {
            Ok(b) => flag_field(value@) == Some(b),
            Err(e) => flag_field(value@) is None && e@ == TmuxFailure::InvalidField(label@, value@),
        },
{
    let chars = chars_of(value);
    match chars_flag(chars.as_slice()) {
        Some(b) => Ok(b),
        None => Err(TmuxError::InvalidField { label: label.to_owned(), value: value.to_owned() }),
    }
}

/// A session name that tmux accepts as a target: not blank, no `:`.
pub open spec fn session_name_failure(name: Seq<char>) -> Option<TmuxFailure> {
    if is_blank(name) {
        Some(TmuxFailure::EmptySessionName)
    } else if name.contains(':') {
        Some(TmuxFailure::SessionNameSeparator)
    } else {
        None
    }
}

/// Checks that `name` can name a tmux session.
pub fn validate_session_name(name: &str) -> (r: Result<(), TmuxError>)
    ensures
        match r {
            Ok(()) => session_name_failure(name@) is None,
            Err(e) => session_name_failure(name@) == Some(e@),
        },
{
    let chars = chars_of(name);
    if chars_are_blank(chars.as_slice()) {
        return Err(TmuxError::EmptySessionName);
    }
    if chars_contain(chars.as_slice(), ':') {
        return Err(TmuxError::SessionNameSeparator);
    }
    Ok(())
}

/// A tmux pane id: `%` followed by a number.
pub open spec fn pane_id_failure(id: Seq<char>) -> Option<TmuxFailure> {
    if !(id.len() > 0 && id[0] == '%') {
        Some(TmuxFailure::PaneIdPrefix(id))
    } else if usize_field(id.drop_first()) is None {
        Some(TmuxFailure::PaneIdNotNumeric(id))
    } else {
        None
    }
}

/// Checks that `pane_id` is a tmux pane id.
pub fn validate_pane_id(pane_id: &str) -> (r: Result<(), TmuxError>)
    ensures
        match r {
            Ok(()) => pane_id_failure(pane_id@) is None,
            Err(e) => pane_id_failure(pane_id@) == Some(e@),
        },
{
    let chars = chars_of(pane_id);
    if !(chars.len() > 0 && chars[0] == '%') {
        return Err(TmuxError::PaneIdPrefix(pane_id.to_owned()));
    }
    let rest = chars_from(chars.as_slice(), 1);
    assert(rest@ =~= pane_id@.drop_first());
    if parse_usize(rest.as_slice()).is_none() {
        return Err(TmuxError::PaneIdNotNumeric(pane_id.to_owned()));
    }
    Ok(())
}

/// Why a session row, as `list-sessions` prints it, is refused.
pub open spec fn session_row_failure(line: Seq<char>) -> Option<TmuxFailure> {
    let p = split_on(line, '\t');
    if p.len() != 4 {
        Some(TmuxFailure::UnexpectedSessionRow(line))
    } else if usize_field(p[2]) is None {
        Some(TmuxFailure::InvalidField("window count"@, p[2]))
    } else if flag_field(p[3]) is None {
        Some(TmuxFailure::InvalidField("attached flag"@, p[3]))
    } else {
        None
    }
}

/// `s` is the session that an accepted session row describes: id, name,
/// window count and attachment flag, in that order.
pub open spec fn session_from_row(line: Seq<char>, s: Session) -> bool {
    let p = split_on(line, '\t');
    &&& session_row_failure(line) is None
    &&& s.id@ == p[0]
    &&& s.name@ == p[1]
    &&& usize_field(p[2]) == Some(s.windows as nat)
    &&& flag_field(p[3]) == Some(s.attached)
}

/// Parses one row of `tmux list-sessions -F
/// '#{session_id}\t#{session_name}\t#{session_windows}\t#{session_attached}'`.
pub fn parse_session_line(line: &str) -> (r: Result<Session, TmuxError>)
    ensures
        match r {
            Ok(s) => session_from_row(line@, s),
            Err(e) => session_row_failure(line@) == Some(e@),
        },
{
    let chars = chars_of(line);
    let parts = split_chars(chars.as_slice(), '\t');
    if parts.len() != 4 {
        return Err(TmuxError::UnexpectedSessionRow(line.to_owned()));
    }
    assert(views(parts@)[0] == parts@[0]@);
    assert(views(parts@)[1] == parts@[1]@);
    assert(views(parts@)[2] == parts@[2]@);
    assert(views(parts@)[3] == parts@[3]@);
    let windows_text = string_from_chars(parts[2].as_slice());
    let windows = parse_usize_field("window count", windows_text.as_str())?;
    let attached_text = string_from_chars(parts[3].as_slice());
    let attached = parse_bool_field("attached flag", attached_text.as_str())?;
    Ok(Session {
        id: string_from_chars(parts[0].as_slice()),
        name: string_from_chars(parts[1].as_slice()),
        windows,
        attached,
    })
}

/// Why a pane row, as `list-panes` prints it, is refused: the fields are
/// checked in the order active flag, index, width, height, left, top,
/// cursor x, cursor y, cursor flag.
pub open spec fn pane_row_failure(line: Seq<char>) -> Option<TmuxFailure> {
    let p = split_on(line, '\t');
    if p.len() != 12 {
        Some(TmuxFailure::UnexpectedPaneRow(line))
    } else if flag_field(p[2]) is None {
        Some(TmuxFailure::InvalidField("pane active flag"@, p[2]))
    } else if usize_field(p[1]) is None {
        Some(TmuxFailure::InvalidField("pane index"@, p[1]))
    } else if usize_field(p[5]) is None {
        Some(TmuxFailure::InvalidField("pane width"@, p[5]))
    } else if usize_field(p[6]) is None {
        Some(TmuxFailure::InvalidField("pane height"@, p[6]))
    } else if usize_field(p[7]) is None {
        Some(TmuxFailure::InvalidField("pane left"@, p[7]))
    } else if usize_field(p[8]) is None {
        Some(TmuxFailure::InvalidField("pane top"@, p[8]))
    } else if usize_field(p[9]) is None {
        Some(TmuxFailure::InvalidField("cursor x"@, p[9]))
    } else if usize_field(p[10]) is None {
        Some(TmuxFailure::InvalidField("cursor y"@, p[10]))
    } else if flag_field(p[11]) is None {
        Some(TmuxFailure::InvalidField("cursor flag"@, p[11]))
    } else {
        None
    }
}

/// `pane` is the pane that an accepted pane row describes.
pub open spec fn pane_from_row(line: Seq<char>, pane: Pane) -> bool {
    let p = split_on(line, '\t');
    &&& pane_row_failure(line) is None
    &&& pane.id@ == p[0]
    &&& usize_field(p[1]) == Some(pane.index as nat)
    &&& flag_field(p[2]) == Some(pane.active)
    &&& pane.current_command@ == p[3]
    &&& pane.current_path@ == p[4]
    &&& usize_field(p[5]) == Some(pane.width as nat)
    &&& usize_field(p[6]) == Some(pane.height as nat)
    &&& usize_field(p[7]) == Some(pane.left as nat)
    &&& usize_field(p[8]) == Some(pane.top as nat)
    &&& usize_field(p[9]) == Some(pane.cursor_x as nat)
    &&& usize_field(p[10]) == Some(pane.cursor_y as nat)
    &&& flag_field(p[11]) == Some(pane.cursor_visible)
}

fn field_text(parts: &Vec<Vec<char>>, i: usize) -> (s: String)
    requires
        i < parts.len(),
    ensures
        s@ == views(parts@)[i as int],
{
    string_from_chars(parts[i].as_slice())
}

/// Parses one row of `tmux list-panes -F` with the fields id, index, active,
/// current command, current path, width, height, left, top, cursor x,
/// cursor y and cursor flag.
pub fn parse_pane_line(line: &str) -> (r: Result<Pane, TmuxError>)
    ensures
        match r {
            Ok(p) => pane_from_row(line@, p),
            Err(e) => pane_row_failure(line@) == Some(e@),
        },
{
    let chars = chars_of(line);
    let parts = split_chars(chars.as_slice(), '\t');
    if parts.len() != 12 {
        return Err(TmuxError::UnexpectedPaneRow(line.to_owned()));
    }
    let active = parse_bool_field("pane active flag", field_text(&parts, 2).as_str())?;
    let index = parse_usize_field("pane index", field_text(&parts, 1).as_str())?;
    let width = parse_usize_field("pane width", field_text(&parts, 5).as_str())?;
    let height = parse_usize_field("pane height", field_text(&parts, 6).as_str())?;
    let left = parse_usize_field("pane left", field_text(&parts, 7).as_str())?;
    let top = parse_usize_field("pane top", field_text(&parts, 8).as_str())?;
    let cursor_x = parse_usize_field("cursor x", field_text(&parts, 9).as_str())?;
    let cursor_y = parse_usize_field("cursor y", field_text(&parts, 10).as_str())?;
    let cursor_visible = parse_bool_field("cursor flag", field_text(&parts, 11).as_str())?;
    Ok(Pane {
        id: field_text(&parts, 0),
        index,
        active,
        current_command: field_text(&parts, 3),
        current_path: field_text(&parts, 4),
        width,
        height,
        left,
        top,
        cursor_x,
        cursor_y,
        cursor_visible,
    })
}

/// A character that a POSIX shell takes literally outside quotes.
pub open spec fn is_shell_safe(c: char) -> bool {
    ||| ('a' <= c && c <= 'z')
    ||| ('A' <= c && c <= 'Z')
    ||| ('0' <= c && c <= '9')
    ||| c == '_' || c == '-' || c == '.' || c == '/'
    ||| c == ':' || c == '=' || c == '+' || c == ','
}

/// `s` with each `'` written as `'"'"'`: close the single-quoted string,
/// a double-quoted `'`, reopen.
pub open spec fn escape_single_quotes(s: Seq<char>) -> Seq<char>
    decreases s.len(),
{
    if s.len() == 0 {
        Seq::<char>::empty()
    } else {
        escape_single_quotes(s.drop_last()) + if s.last() == '\'' {
            seq!['\'', '"', '\'', '"', '\'']
        } else {
            seq![s.last()]
        }
    }
}

/// One shell word that stands for `value`: `''` for the empty string, the
/// value itself when every character is safe, else the value in single
/// quotes.
pub open spec fn shell_word(value: Seq<char>) -> Seq<char> {
    if value.len() == 0 {
        seq!['\'', '\'']
    } else if forall|i: int| 0 <= i < value.len() ==> is_shell_safe(#[trigger] value[i]) {
        value
    } else {
        seq!['\''] + escape_single_quotes(value) + seq!['\'']
    }
}

/// Words separated by single spaces.
pub open spec fn join_words(words: Seq<Seq<char>>) -> Seq<char>
    decreases words.len(),
{
    if words.len() == 0 {
        Seq::<char>::empty()
    } else if words.len() == 1 {
        words[0]
    } else {
        join_words(words.drop_last()) + seq![' '] + words.last()
    }
}

fn char_is_shell_safe(c: char) -> (b: bool)
    ensures
        b == is_shell_safe(c),
{
    ('a' <= c && c <= 'z') || ('A' <= c && c <= 'Z') || ('0' <= c && c <= '9') || c == '_'
        || c == '-' || c == '.' || c == '/' || c == ':' || c == '=' || c == '+' || c == ','
}

/// Quotes `value` as one shell word, only when it needs quoting.
pub fn quote_shell_arg(value: &str) -> (r: String)
    ensures
        r@ == shell_word(value@),
{
    let chars = chars_of(value);
    if chars.len() == 0 {
        let mut empty = String::new();
        push_char(&mut empty, '\'');
        push_char(&mut empty, '\'');
        assert(empty@ =~= seq!['\'', '\'']);
        return empty;
    }
    let mut all_safe = true;
    let mut i: usize = 0;
    while i < chars.len()
        invariant
            i <= chars.len(),
            chars@ == value@,
            all_safe == (forall|j: int| 0 <= j < i ==> is_shell_safe(#[trigger] chars@[j])),
        decreases chars.len() - i,
    {
        if !char_is_shell_safe(chars[i]) {
            all_safe = false;
        }
        i = i + 1;
    }
    if all_safe {
        return value.to_owned();
    }
    let mut out = String::new();
    push_char(&mut out, '\'');
    let mut k: usize = 0;
    assert(chars@.take(0) =~= Seq::<char>::empty());
    while k < chars.len()
        invariant
            k <= chars.len(),
            chars@ == value@,
            out@ == seq!['\''] + escape_single_quotes(chars@.take(k as int)),
        decreases chars.len() - k,
    {
        let c = chars[k];
        assert(chars@.take(k + 1).drop_last() =~= chars@.take(k as int));
        assert(chars@.take(k + 1).last() == c);
        let ghost before = out@;
        if c == '\'' {
            push_char(&mut out, '\'');
            push_char(&mut out, '"');
            push_char(&mut out, '\'');
            push_char(&mut out, '"');
            push_char(&mut out, '\'');
            assert(out@ =~= before + seq!['\'', '"', '\'', '"', '\'']);
        } else {
            push_char(&mut out, c);
            assert(out@ =~= before + seq![c]);
        }
        assert(out@ =~= seq!['\''] + escape_single_quotes(chars@.take(k + 1)));
        k = k + 1;
    }
    assert(chars@.take(chars@.len() as int) =~= chars@);
    push_char(&mut out, '\'');
    assert(out@ =~= seq!['\''] + escape_single_quotes(value@) + seq!['\'']);
    out
}

/// The words of a command line as the shell words of its parts.
pub open spec fn shell_command(parts: Seq<String>) -> Seq<char> {
    join_words(parts.map_values(|p: String| shell_word(p@)))
}

/// Joins `parts` into one shell command line, quoting each part only when
/// it needs quoting.
pub fn join_shell_command(parts: &[String]) -> (r: String)
    ensures
        r@ == shell_command(parts@),
{
    let mut out = String::new();
    let mut i: usize = 0;
    let ghost words = parts@.map_values(|p: String| shell_word(p@));
    assert(words.take(0) =~= Seq::<Seq<char>>::empty());
    while i < parts.len()
        invariant
            i <= parts.len(),
            words == parts@.map_values(|p: String| shell_word(p@)),
            out@ == join_words(words.take(i as int)),
        decreases parts.len() - i,
    {
        let word = quote_shell_arg(parts[i].as_str());
        assert(words.take(i + 1).drop_last() =~= words.take(i as int));
        assert(words.take(i + 1).last() == word@);
        if i > 0 {
            push_char(&mut out, ' ');
        }
        push_str(&mut out, word.as_str());
        if i == 0 {
            assert(out@ =~= join_words(words.take(1)));
        } else {
            assert(out@ =~= join_words(words.take(i + 1)));
        }
        i = i + 1;
    }
    assert(words.take(parts@.len() as int) =~= words);
    out
}

/// The rows of a tmux listing: its lines that hold more than white space.
pub open spec fn listing_rows(out: Seq<char>) -> Seq<Seq<char>> {
    drop_blank(lines_of(out))
}

/// Parses the output of `list-sessions`: every row must be a session row;
/// the first refused row gives the error.
pub fn parse_session_list(stdout: &str) -> (r: Result<Vec<Session>, TmuxError>)
    ensures
        ({
            let rows = listing_rows(stdout@);
            match r {
                Ok(v) => v.len() == rows.len() && forall|i: int|
                    0 <= i < rows.len() ==> session_from_row(rows[i], #[trigger] v@[i]),
                Err(e) => exists|k: int|
                    0 <= k < rows.len() && session_row_failure(#[trigger] rows[k]) == Some(e@)
                        && forall|j: int|
                        0 <= j < k ==> session_row_failure(#[trigger] rows[j]) is None,
            }
        }),
{
    let rows = nonblank_lines(stdout);
    let ghost rs = listing_rows(stdout@);
    let mut sessions: Vec<Session> = Vec::new();
    let mut i: usize = 0;
    while i < rows.len()
        invariant
            i <= rows.len(),
            views(rows@) == rs,
            rs == listing_rows(stdout@),
            sessions.len() == i,
            forall|j: int| 0 <= j < i ==> session_from_row(rs[j], #[trigger] sessions@[j]),
            forall|j: int| 0 <= j < i ==> session_row_failure(#[trigger] rs[j]) is None,
        decreases rows.len() - i,
    {
        assert(views(rows@)[i as int] == rows@[i as int]@);
        let line = string_from_chars(rows[i].as_slice());
        match parse_session_line(line.as_str()) {
            Ok(session) => {
                sessions.push(session);
            },
            Err(e) => {
                assert(session_row_failure(rs[i as int]) == Some(e@));
                return Err(e);
            },
        }
        i = i + 1;
    }
    Ok(sessions)
}

/// Parses the output of `list-panes`: every row must be a pane row; the
/// first refused row gives the error.
pub fn parse_pane_list(stdout: &str) -> (r: Result<Vec<Pane>, TmuxError>)
    ensures
        ({
            let rows = listing_rows(stdout@);
            match r {
                Ok(v) => v.len() == rows.len() && forall|i: int|
                    0 <= i < rows.len() ==> pane_from_row(rows[i], #[trigger] v@[i]),
                Err(e) => exists|k: int|
                    0 <= k < rows.len() && pane_row_failure(#[trigger] rows[k]) == Some(e@)
                        && forall|j: int| 0 <= j < k ==> pane_row_failure(#[trigger] rows[j]) is None,
            }
        }),
{
    let rows = nonblank_lines(stdout);
    let ghost rs = listing_rows(stdout@);
    let mut panes: Vec<Pane> = Vec::new();
    let mut i: usize = 0;
    while i < rows.len()
        invariant
            i <= rows.len(),
            views(rows@) == rs,
            rs == listing_rows(stdout@),
            panes.len() == i,
            forall|j: int| 0 <= j < i ==> pane_from_row(rs[j], #[trigger] panes@[j]),
            forall|j: int| 0 <= j < i ==> pane_row_failure(#[trigger] rs[j]) is None,
        decreases rows.len() - i,
    {
        assert(views(rows@)[i as int] == rows@[i as int]@);
        let line = string_from_chars(rows[i].as_slice());
        match parse_pane_line(line.as_str()) {
            Ok(pane) => {
                panes.push(pane);
            },
            Err(e) => {
                assert(pane_row_failure(rs[i as int]) == Some(e@));
                return Err(e);
            },
        }
        i = i + 1;
    }
    Ok(panes)
}

/// The character sequences of a list of arguments.
pub open spec fn arg_views(args: Seq<String>) -> Seq<Seq<char>> {
    args.map_values(|a: String| a@)
}

/// A decimal number with a leading `-` when negative.
pub open spec fn signed_decimal(v: int) -> Seq<char> {
    if v < 0 {
        seq!['-'] + decimal((-v) as nat)
    } else {
        decimal(v as nat)
    }
}

/// The format of a `list-sessions` row.
pub const SESSION_FORMAT: &'static str = "#{session_id}\t#{session_name}\t#{session_windows}\t#{session_attached}";

/// The format of a `list-panes` row.
pub const PANE_FORMAT: &'static str = "#{pane_id}\t#{pane_index}\t#{pane_active}\t#{pane_current_command}\t#{pane_current_path}\t#{pane_width}\t#{pane_height}\t#{pane_left}\t#{pane_top}\t#{cursor_x}\t#{cursor_y}\t#{cursor_flag}";

/// The marker in `list-sessions`' error output when no tmux server runs.
pub const NO_SERVER_MARKER: &'static str = "no server running";

/// The arguments of `tmux -V`.
pub fn version_args() -> (args: Vec<String>)
    ensures
        arg_views(args@) == seq!["-V"@],
{
    let mut args = Vec::new();
    args.push("-V".to_owned());
    assert(arg_views(args@) =~= seq!["-V"@]);
    args
}

/// The arguments that list the sessions, one `SESSION_FORMAT` row each.
pub fn list_sessions_args() -> (args: Vec<String>)
    ensures
        arg_views(args@) == seq!["list-sessions"@, "-F"@, SESSION_FORMAT@],
{
    let mut args = Vec::new();
    args.push("list-sessions".to_owned());
    args.push("-F".to_owned());
    args.push(SESSION_FORMAT.to_owned());
    assert(arg_views(args@) =~= seq!["list-sessions"@, "-F"@, SESSION_FORMAT@]);
    args
}

/// The arguments that list the panes of `session`, one `PANE_FORMAT` row
/// each.
pub fn list_panes_args(session: &str) -> (r: Result<Vec<String>, TmuxError>)
    ensures
        match r {
            Ok(args) => session_name_failure(session@) is None && arg_views(args@) == seq![
                "list-panes"@,
                "-t"@,
                session@,
                "-F"@,
                PANE_FORMAT@,
            ],
            Err(e) => session_name_failure(session@) == Some(e@),
        },
{
    validate_session_name(session)?;
    let mut args = Vec::new();
    args.push("list-panes".to_owned());
    args.push("-t".to_owned());
    args.push(session.to_owned());
    args.push("-F".to_owned());
    args.push(PANE_FORMAT.to_owned());
    assert(arg_views(args@) =~= seq!["list-panes"@, "-t"@, session@, "-F"@, PANE_FORMAT@]);
    Ok(args)
}

/// The arguments that create the detached session `name`, started in `cwd`
/// when one is given and running `command` (as one shell command line)
/// when it is not empty.
pub fn create_session_args(name: &str, cwd: Option<&str>, command: &[String]) -> (r: Result<
    Vec<String>,
    TmuxError,
>)
    ensures
        match r {
            Ok(args) => session_name_failure(name@) is None && arg_views(args@) == seq![
                "new-session"@,
                "-d"@,
                "-s"@,
                name@,
            ] + (match cwd {
                Some(dir) => seq!["-c"@, dir@],
                None => Seq::<Seq<char>>::empty(),
            }) + (if command@.len() > 0 {
                seq![shell_command(command@)]
            } else {
                Seq::<Seq<char>>::empty()
            }),
            Err(e) => session_name_failure(name@) == Some(e@),
        },
{
    validate_session_name(name)?;
    let mut args = Vec::new();
    args.push("new-session".to_owned());
    args.push("-d".to_owned());
    args.push("-s".to_owned());
    args.push(name.to_owned());
    let ghost base = arg_views(args@);
    assert(base =~= seq!["new-session"@, "-d"@, "-s"@, name@]);
    if let Some(dir) = cwd {
        args.push("-c".to_owned());
        args.push(dir.to_owned());
    }
    let ghost with_dir = arg_views(args@);
    assert(with_dir =~= base + match cwd {
        Some(dir) => seq!["-c"@, dir@],
        None => Seq::<Seq<char>>::empty(),
    });
    if command.len() > 0 {
        args.push(join_shell_command(command));
    }
    assert(arg_views(args@) =~= with_dir + (if command@.len() > 0 {
        seq![shell_command(command@)]
    } else {
        Seq::<Seq<char>>::empty()
    }));
    Ok(args)
}

/// The arguments that make `pane_id` the active pane.
pub fn select_pane_args(pane_id: &str) -> (r: Result<Vec<String>, TmuxError>)
    ensures
        match r {
            Ok(args) => pane_id_failure(pane_id@) is None && arg_views(args@) == seq![
                "select-pane"@,
                "-t"@,
                pane_id@,
            ],
            Err(e) => pane_id_failure(pane_id@) == Some(e@),
        },
{
    validate_pane_id(pane_id)?;
    let mut args = Vec::new();
    args.push("select-pane".to_owned());
    args.push("-t".to_owned());
    args.push(pane_id.to_owned());
    assert(arg_views(args@) =~= seq!["select-pane"@, "-t"@, pane_id@]);
    Ok(args)
}

/// tmux's flag for a split direction: `-h` puts the new pane to the right,
/// `-v` below.
pub open spec fn split_flag(direction: SplitDirection) -> Seq<char> {
    match direction {
        SplitDirection::Right => "-h"@,
        SplitDirection::Down => "-v"@,
    }
}

/// The arguments that split `pane_id`, the new pane starting in the split
/// pane's current directory.
pub fn split_pane_args(pane_id: &str, direction: SplitDirection) -> (r: Result<
    Vec<String>,
    TmuxError,
>)
    ensures
        match r {
            Ok(args) => pane_id_failure(pane_id@) is None && arg_views(args@) == seq![
                "split-window"@,
                "-t"@,
                pane_id@,
                split_flag(direction),
                "-c"@,
                "#{pane_current_path}"@,
            ],
            Err(e) => pane_id_failure(pane_id@) == Some(e@),
        },
{
    validate_pane_id(pane_id)?;
    let flag = match direction {
        SplitDirection::Right => "-h",
        SplitDirection::Down => "-v",
    };
    let mut args = Vec::new();
    args.push("split-window".to_owned());
    args.push("-t".to_owned());
    args.push(pane_id.to_owned());
    args.push(flag.to_owned());
    args.push("-c".to_owned());
    args.push("#{pane_current_path}".to_owned());
    assert(arg_views(args@) =~= seq![
        "split-window"@,
        "-t"@,
        pane_id@,
        split_flag(direction),
        "-c"@,
        "#{pane_current_path}"@,
    ]);
    Ok(args)
}

/// The arguments that close `pane_id`.
pub fn kill_pane_args(pane_id: &str) -> (r: Result<Vec<String>, TmuxError>)
    ensures
        match r {
            Ok(args) => pane_id_failure(pane_id@) is None && arg_views(args@) == seq![
                "kill-pane"@,
                "-t"@,
                pane_id@,
            ],
            Err(e) => pane_id_failure(pane_id@) == Some(e@),
        },
{
    validate_pane_id(pane_id)?;
    let mut args = Vec::new();
    args.push("kill-pane".to_owned());
    args.push("-t".to_owned());
    args.push(pane_id.to_owned());
    assert(arg_views(args@) =~= seq!["kill-pane"@, "-t"@, pane_id@]);
    Ok(args)
}

fn decimal_arg(n: u64) -> (s: String)
    ensures
        s@ == decimal(n as nat),
{
    let mut s = String::new();
    push_decimal(&mut s, n);
    assert(Seq::<char>::empty() + decimal(n as nat) =~= decimal(n as nat));
    s
}

/// The arguments that resize the window of `session` to `width` by `height`
/// cells, each at least 1.
pub fn resize_window_args(session: &str, width: u16, height: u16) -> (r: Result<
    Vec<String>,
    TmuxError,
>)
    ensures
        match r {
            Ok(args) => session_name_failure(session@) is None && arg_views(args@) == seq![
                "resize-window"@,
                "-t"@,
                session@,
                "-x"@,
                decimal(if width == 0 { 1nat } else { width as nat }),
                "-y"@,
                decimal(if height == 0 { 1nat } else { height as nat }),
            ],
            Err(e) => session_name_failure(session@) == Some(e@),
        },
{
    validate_session_name(session)?;
    let w: u16 = if width == 0 { 1 } else { width };
    let h: u16 = if height == 0 { 1 } else { height };
    let mut args = Vec::new();
    args.push("resize-window".to_owned());
    args.push("-t".to_owned());
    args.push(session.to_owned());
    args.push("-x".to_owned());
    args.push(decimal_arg(w as u64));
    args.push("-y".to_owned());
    args.push(decimal_arg(h as u64));
    assert(arg_views(args@) =~= seq![
        "resize-window"@,
        "-t"@,
        session@,
        "-x"@,
        decimal(if width == 0 { 1nat } else { width as nat }),
        "-y"@,
        decimal(if height == 0 { 1nat } else { height as nat }),
    ]);
    Ok(args)
}

/// The arguments that print the visible content of `pane_id` with its
/// escape sequences; with a height and a scroll offset, the `height` lines
/// that end `scroll_offset` lines above the bottom of the visible area.
pub fn capture_pane_args(pane_id: &str, height: usize, scroll_offset: usize) -> (r: Result<
    Vec<String>,
    TmuxError,
>)
    requires
        height <= isize::MAX,
        scroll_offset <= isize::MAX,
    ensures
        match r {
            Ok(args) => pane_id_failure(pane_id@) is None && arg_views(args@) == seq![
                "capture-pane"@,
                "-e"@,
                "-p"@,
                "-N"@,
                "-t"@,
                pane_id@,
            ] + (if height > 0 && scroll_offset > 0 {
                seq![
                    "-S"@,
                    seq!['-'] + decimal(scroll_offset as nat),
                    "-E"@,
                    signed_decimal(height - 1 - scroll_offset),
                ]
            } else {
                Seq::<Seq<char>>::empty()
            }),
            Err(e) => pane_id_failure(pane_id@) == Some(e@),
        },
{
    validate_pane_id(pane_id)?;
    let mut args = Vec::new();
    args.push("capture-pane".to_owned());
    args.push("-e".to_owned());
    args.push("-p".to_owned());
    args.push("-N".to_owned());
    args.push("-t".to_owned());
    args.push(pane_id.to_owned());
    let ghost base = arg_views(args@);
    assert(base =~= seq!["capture-pane"@, "-e"@, "-p"@, "-N"@, "-t"@, pane_id@]);
    if height > 0 && scroll_offset > 0 {
        let mut start = String::new();
        push_char(&mut start, '-');
        push_decimal(&mut start, scroll_offset as u64);
        assert(start@ =~= seq!['-'] + decimal(scroll_offset as nat));
        let last = height - 1;
        let mut end = String::new();
        if last >= scroll_offset {
            push_decimal(&mut end, (last - scroll_offset) as u64);
            assert(end@ =~= signed_decimal(height - 1 - scroll_offset));
        } else {
            push_char(&mut end, '-');
            push_decimal(&mut end, (scroll_offset - last) as u64);
            assert(end@ =~= signed_decimal(height - 1 - scroll_offset));
        }
        args.push("-S".to_owned());
        args.push(start);
        args.push("-E".to_owned());
        args.push(end);
    }
    assert(arg_views(args@) =~= base + (if height > 0 && scroll_offset > 0 {
        seq![
            "-S"@,
            seq!['-'] + decimal(scroll_offset as nat),
            "-E"@,
            signed_decimal(height - 1 - scroll_offset),
        ]
    } else {
        Seq::<Seq<char>>::empty()
    }));
    Ok(args)
}

/// The arguments that type `text` literally into `pane_id`; `None` when
/// there is nothing to type.
pub fn send_literal_args(pane_id: &str, text: &str) -> (r: Result<
    Option<Vec<String>>,
    TmuxError,
>)
    ensures
        match r {
            Ok(None) => pane_id_failure(pane_id@) is None && text@.len() == 0,
            Ok(Some(args)) => pane_id_failure(pane_id@) is None && text@.len() > 0 && arg_views(
                args@,
            ) == seq!["send-keys"@, "-t"@, pane_id@, "-l"@, text@],
            Err(e) => pane_id_failure(pane_id@) == Some(e@),
        },
{
    validate_pane_id(pane_id)?;
    let chars = chars_of(text);
    if chars.len() == 0 {
        return Ok(None);
    }
    let mut args = Vec::new();
    args.push("send-keys".to_owned());
    args.push("-t".to_owned());
    args.push(pane_id.to_owned());
    args.push("-l".to_owned());
    args.push(text.to_owned());
    assert(arg_views(args@) =~= seq!["send-keys"@, "-t"@, pane_id@, "-l"@, text@]);
    Ok(Some(args))
}

/// The arguments that press the named key (`Enter`, `C-c`, `F5`, ...) in
/// `pane_id`.
pub fn send_key_args(pane_id: &str, key: &str) -> (r: Result<Vec<String>, TmuxError>)
    ensures
        match r {
            Ok(args) => pane_id_failure(pane_id@) is None && !is_blank(key@) && arg_views(args@)
                == seq!["send-keys"@, "-t"@, pane_id@, key@],
            Err(e) => match pane_id_failure(pane_id@) {
                Some(f) => e@ == f,
                None => is_blank(key@) && e@ == TmuxFailure::EmptyKeyName,
            },
        },
{
    validate_pane_id(pane_id)?;
    let chars = chars_of(key);
    if chars_are_blank(chars.as_slice()) {
        return Err(TmuxError::EmptyKeyName);
    }
    let mut args = Vec::new();
    args.push("send-keys".to_owned());
    args.push("-t".to_owned());
    args.push(pane_id.to_owned());
    args.push(key.to_owned());
    assert(arg_views(args@) =~= seq!["send-keys"@, "-t"@, pane_id@, key@]);
    Ok(args)
}

/// The arguments that switch tmux's mouse support on for `session`, so
/// that tmux itself selects text and resizes panes with the mouse.
pub fn mouse_on_args(session: &str) -> (r: Result<Vec<String>, TmuxError>)
    ensures
        match r {
            Ok(args) => session_name_failure(session@) is None && arg_views(args@) == seq![
                "set-option"@,
                "-t"@,
                session@,
                "mouse"@,
                "on"@,
            ],
            Err(e) => session_name_failure(session@) == Some(e@),
        },
{
    validate_session_name(session)?;
    let mut args = Vec::new();
    args.push("set-option".to_owned());
    args.push("-t".to_owned());
    args.push(session.to_owned());
    args.push("mouse".to_owned());
    args.push("on".to_owned());
    assert(arg_views(args@) =~= seq!["set-option"@, "-t"@, session@, "mouse"@, "on"@]);
    Ok(args)
}

/// What one run of `list-sessions` means: when it failed only because no
/// server runs, no sessions; when it failed otherwise, the failure (with
/// its exit status `status`); when it succeeded, the sessions its output
/// lists, in order, or the message of the first row that does not parse.
pub open spec fn session_listing_outcome(
    success: bool,
    status: Seq<char>,
    stdout: Seq<char>,
    stderr: Seq<char>,
    r: Result<Vec<Session>, String>,
) -> bool {
    if !success && contains_run(stderr, NO_SERVER_MARKER@) {
        r matches Ok(v) && v@.len() == 0
    } else if !success {
        r matches Err(m) && m@ == failure_text("tmux list-sessions"@, status, stderr, stdout)
    } else {
        let rows = listing_rows(stdout);
        match r {
            Ok(v) => v.len() == rows.len() && forall|i: int|
                0 <= i < rows.len() ==> session_from_row(rows[i], #[trigger] v@[i]),
            Err(m) => exists|k: int|
                0 <= k < rows.len() && (session_row_failure(#[trigger] rows[k]) matches Some(f)
                    && m@ == failure_description(f)) && forall|j: int|
                    0 <= j < k ==> session_row_failure(#[trigger] rows[j]) is None,
        }
    }
}

/// The sessions that one run of `list-sessions` reports, from whether it
/// succeeded, its exit status and what it printed.
pub fn session_listing(success: bool, status: &str, stdout: &str, stderr: &str) -> (r: Result<
    Vec<Session>,
    String,
>)
    ensures
        session_listing_outcome(success, status@, stdout@, stderr@, r),
{
    if !success {
        if no_server_running(stderr) {
            return Ok(Vec::new());
        }
        return Err(failure_message("tmux list-sessions", status, stderr, stdout));
    }
    match parse_session_list(stdout) {
        Ok(v) => Ok(v),
        Err(e) => {
            let m = e.message();
            Err(m)
        },
    }
}

/// Whether `list-sessions` failed only because no tmux server is running,
/// which means there are no sessions.
pub fn no_server_running(stderr: &str) -> (b: bool)
    ensures
        b == contains_run(stderr@, NO_SERVER_MARKER@),
{
    str_contains(stderr, NO_SERVER_MARKER)
}

/// The message for a tmux command that failed: its label and exit status,
/// then the trimmed error output and the trimmed standard output, on two
/// lines when both are present.
pub open spec fn failure_text(
    label: Seq<char>,
    status: Seq<char>,
    stderr: Seq<char>,
    stdout: Seq<char>,
) -> Seq<char> {
    label + " failed with status "@ + status + ": "@ + trim(stderr) + (if stderr.len() == 0
        || stdout.len() == 0 {
        Seq::<char>::empty()
    } else {
        seq!['\n']
    }) + trim(stdout)
}

/// Describes a failed tmux command (what `ensure_success` reports).
pub fn failure_message(label: &str, status: &str, stderr: &str, stdout: &str) -> (m: String)
    ensures
        m@ == failure_text(label@, status@, stderr@, stdout@),
{
    let mut m = String::new();
    push_str(&mut m, label);
    push_str(&mut m, " failed with status ");
    push_str(&mut m, status);
    push_str(&mut m, ": ");
    let err_chars = chars_of(stderr);
    let out_chars = chars_of(stdout);
    let err_trim = string_from_chars(trim_chars(err_chars.as_slice()).as_slice());
    push_str(&mut m, err_trim.as_str());
    let ghost before = m@;
    if !(err_chars.len() == 0 || out_chars.len() == 0) {
        push_char(&mut m, '\n');
    }
    let out_trim = string_from_chars(trim_chars(out_chars.as_slice()).as_slice());
    push_str(&mut m, out_trim.as_str());
    assert(m@ =~= failure_text(label@, status@, stderr@, stdout@));
    m
}

/// The message that describes a failure.
pub open spec fn failure_description(f: TmuxFailure) -> Seq<char> {
    match f {
        TmuxFailure::UnexpectedSessionRow(l) => "unexpected tmux session row: "@ + l,
        TmuxFailure::UnexpectedPaneRow(l) => "unexpected tmux pane row: "@ + l,
        TmuxFailure::InvalidField(label, v) => "invalid tmux "@ + label + ": "@ + v,
        TmuxFailure::EmptySessionName => "session name cannot be empty"@,
        TmuxFailure::SessionNameSeparator =>
            "session name cannot contain ':' because tmux treats it as a target separator"@,
        TmuxFailure::PaneIdPrefix(p) => "pane id must start with '%': "@ + p,
        TmuxFailure::PaneIdNotNumeric(p) => "pane id must be a tmux numeric pane id: "@ + p,
        TmuxFailure::EmptyKeyName => "key name cannot be empty"@,
    }
}

impl TmuxError {
    /// The message that describes this error.
    pub fn message(&self) -> (m: String)
        ensures
            m@ == failure_description(self@),
    {
        let mut m = String::new();
        match self {
            TmuxError::UnexpectedSessionRow(l) => {
                push_str(&mut m, "unexpected tmux session row: ");
                push_str(&mut m, l.as_str());
            },
            TmuxError::UnexpectedPaneRow(l) => {
                push_str(&mut m, "unexpected tmux pane row: ");
                push_str(&mut m, l.as_str());
            },
            TmuxError::InvalidField { label, value } => {
                push_str(&mut m, "invalid tmux ");
                push_str(&mut m, label.as_str());
                push_str(&mut m, ": ");
                push_str(&mut m, value.as_str());
            },
            TmuxError::EmptySessionName => {
                push_str(&mut m, "session name cannot be empty");
            },
            TmuxError::SessionNameSeparator => {
                push_str(
                    &mut m,
                    "session name cannot contain ':' because tmux treats it as a target separator",
                );
            },
            TmuxError::PaneIdPrefix(p) => {
                push_str(&mut m, "pane id must start with '%': ");
                push_str(&mut m, p.as_str());
            },
            TmuxError::PaneIdNotNumeric(p) => {
                push_str(&mut m, "pane id must be a tmux numeric pane id: ");
                push_str(&mut m, p.as_str());
            },
            TmuxError::EmptyKeyName => {
                push_str(&mut m, "key name cannot be empty");
            },
        }
        assert(m@ =~= failure_description(self@));
        m
    }
}

/// tmux's `0`/`1` flag.
pub open spec fn flag_text(b: bool) -> Seq<char> {
    if b {
        seq!['1']
    } else {
        seq!['0']
    }
}

/// The row that `list-sessions -F SESSION_FORMAT` prints for a session.
pub open spec fn session_row_text(id: Seq<char>, name: Seq<char>, windows: nat, attached: bool) -> Seq<
    char,
> {
    id + seq!['\t'] + name + seq!['\t'] + decimal(windows) + seq!['\t'] + flag_text(attached)
}

proof fn lemma_decimal_has_no_tab(n: nat)
    ensures
        !decimal(n).contains('\t'),
{
    crate::text::lemma_decimal_digits(n);
    assert forall|i: int| 0 <= i < decimal(n).len() implies decimal(n)[i] != '\t' by {
        assert(crate::text::is_digit(decimal(n)[i]));
    }
}

/// A session row is read back as the session that tmux described, as long
/// as its id and name hold no tab and its window count fits a `usize`.
pub proof fn lemma_session_row_read_back(
    id: Seq<char>,
    name: Seq<char>,
    windows: nat,
    attached: bool,
    s: Session,
)
    requires
        !id.contains('\t'),
        !name.contains('\t'),
        windows <= usize::MAX,
    ensures
        session_row_failure(session_row_text(id, name, windows, attached)) is None,
        session_from_row(session_row_text(id, name, windows, attached), s) <==> (s.id@ == id
            && s.name@ == name && s.windows == windows && s.attached == attached),
{
    let t = seq!['\t'];
    let dec = decimal(windows);
    let flag = flag_text(attached);
    lemma_decimal_has_no_tab(windows);
    lemma_flag_has_no_tab(attached);
    lemma_split_on_without_sep(id, '\t');
    lemma_split_on_without_sep(name, '\t');
    lemma_split_on_without_sep(dec, '\t');
    lemma_split_on_without_sep(flag, '\t');
    lemma_split_on_concat(id, name, '\t');
    lemma_split_on_concat(id + t + name, dec, '\t');
    lemma_split_on_concat(id + t + name + t + dec, flag, '\t');
    let row = session_row_text(id, name, windows, attached);
    assert(row =~= (id + t + name + t + dec) + t + flag);
    let parts = split_on(row, '\t');
    assert(parts =~= seq![id, name, dec, flag]);
    lemma_parse_decimal(windows, usize::MAX as nat);
}

/// The row that `list-panes -F PANE_FORMAT` prints for a pane.
pub open spec fn pane_row_text(p: Pane) -> Seq<char> {
    let t = seq!['\t'];
    p.id@ + t + decimal(p.index as nat) + t + flag_text(p.active) + t + p.current_command@ + t
        + p.current_path@ + t + decimal(p.width as nat) + t + decimal(p.height as nat) + t
        + decimal(p.left as nat) + t + decimal(p.top as nat) + t + decimal(p.cursor_x as nat) + t
        + decimal(p.cursor_y as nat) + t + flag_text(p.cursor_visible)
}

/// `a` and `b` describe the same pane.
pub open spec fn same_pane(a: Pane, b: Pane) -> bool {
    &&& a.id@ == b.id@
    &&& a.index == b.index
    &&& a.active == b.active
    &&& a.current_command@ == b.current_command@
    &&& a.current_path@ == b.current_path@
    &&& a.width == b.width
    &&& a.height == b.height
    &&& a.left == b.left
    &&& a.top == b.top
    &&& a.cursor_x == b.cursor_x
    &&& a.cursor_y == b.cursor_y
    &&& a.cursor_visible == b.cursor_visible
}

proof fn lemma_flag_has_no_tab(b: bool)
    ensures
        !flag_text(b).contains('\t'),
        flag_field(flag_text(b)) == Some(b),
{
    let flag = flag_text(b);
    if flag.contains('\t') {
        let i = choose|i: int| 0 <= i < flag.len() && flag[i] == '\t';
    }
    assert(flag_field(flag) == Some(b)) by {
        if b {
            assert(flag =~= seq!['1']);
            assert(flag[0] != seq!['0'][0]);
        } else {
            assert(flag =~= seq!['0']);
        }
    }
}

proof fn lemma_number_field(n: nat)
    requires
        n <= usize::MAX,
    ensures
        !decimal(n).contains('\t'),
        split_on(decimal(n), '\t') == seq![decimal(n)],
        usize_field(decimal(n)) == Some(n),
{
    lemma_decimal_has_no_tab(n);
    lemma_split_on_without_sep(decimal(n), '\t');
    lemma_parse_decimal(n, usize::MAX as nat);
}

/// A pane row is read back as the pane that tmux described, as long as its
/// id, command and path hold no tab.
pub proof fn lemma_pane_row_read_back(p: Pane, q: Pane)
    requires
        !p.id@.contains('\t'),
        !p.current_command@.contains('\t'),
        !p.current_path@.contains('\t'),
    ensures
        pane_row_failure(pane_row_text(p)) is None,
        pane_from_row(pane_row_text(p), q) <==> same_pane(p, q),
{
    let t = seq!['\t'];
    let f = seq![
        p.id@,
        decimal(p.index as nat),
        flag_text(p.active),
        p.current_command@,
        p.current_path@,
        decimal(p.width as nat),
        decimal(p.height as nat),
        decimal(p.left as nat),
        decimal(p.top as nat),
        decimal(p.cursor_x as nat),
        decimal(p.cursor_y as nat),
        flag_text(p.cursor_visible),
    ];
    lemma_flag_has_no_tab(p.active);
    lemma_flag_has_no_tab(p.cursor_visible);
    lemma_split_on_without_sep(flag_text(p.active), '\t');
    lemma_split_on_without_sep(flag_text(p.cursor_visible), '\t');
    lemma_split_on_without_sep(p.id@, '\t');
    lemma_split_on_without_sep(p.current_command@, '\t');
    lemma_split_on_without_sep(p.current_path@, '\t');
    lemma_number_field(p.index as nat);
    lemma_number_field(p.width as nat);
    lemma_number_field(p.height as nat);
    lemma_number_field(p.left as nat);
    lemma_number_field(p.top as nat);
    lemma_number_field(p.cursor_x as nat);
    lemma_number_field(p.cursor_y as nat);
    let r1 = f[0];
    let r2 = r1 + t + f[1];
    let r3 = r2 + t + f[2];
    let r4 = r3 + t + f[3];
    let r5 = r4 + t + f[4];
    let r6 = r5 + t + f[5];
    let r7 = r6 + t + f[6];
    let r8 = r7 + t + f[7];
    let r9 = r8 + t + f[8];
    let r10 = r9 + t + f[9];
    let r11 = r10 + t + f[10];
    let r12 = r11 + t + f[11];
    lemma_split_on_concat(r1, f[1], '\t');
    lemma_split_on_concat(r2, f[2], '\t');
    lemma_split_on_concat(r3, f[3], '\t');
    lemma_split_on_concat(r4, f[4], '\t');
    lemma_split_on_concat(r5, f[5], '\t');
    lemma_split_on_concat(r6, f[6], '\t');
    lemma_split_on_concat(r7, f[7], '\t');
    lemma_split_on_concat(r8, f[8], '\t');
    lemma_split_on_concat(r9, f[9], '\t');
    lemma_split_on_concat(r10, f[10], '\t');
    lemma_split_on_concat(r11, f[11], '\t');
    assert(pane_row_text(p) =~= r12);
    assert(split_on(r12, '\t') =~= f);
}

/// A pane id that tmux prints, `%` and a number, is accepted.
pub proof fn lemma_pane_id_accepted(n: nat)
    requires
        n <= usize::MAX,
    ensures
        pane_id_failure(seq!['%'] + decimal(n)) is None,
{
    lemma_parse_decimal(n, usize::MAX as nat);
    assert((seq!['%'] + decimal(n)).drop_first() =~= decimal(n));
}

/// Where a POSIX shell reader stands: outside quotes, inside single
/// quotes, or inside double quotes.
pub enum QuoteMode {
    Plain,
    Single,
    Double,
}

/// How a POSIX shell splits `rest` into words, for the part of the shell
/// language that quoting produces: spaces separate words; outside quotes
/// a character that is not special stands for itself; single quotes keep every
/// character up to the next `'`; double quotes keep every character up to
/// the next `"` except `$`, `` ` `` and `\`, which this reader refuses, as
/// it refuses an unclosed quote and, outside quotes, every character that
/// the shell does not take literally (`shell_special`).
/// `word` is the word read so far, `started` whether one has begun,
/// `words` the words finished.
pub open spec fn shell_read(
    rest: Seq<char>,
    mode: QuoteMode,
    word: Seq<char>,
    started: bool,
    words: Seq<Seq<char>>,
) -> Option<Seq<Seq<char>>>
    decreases rest.len(),
{
    if rest.len() == 0 {
        match mode {
            QuoteMode::Plain => if started {
                Some(words.push(word))
            } else {
                Some(words)
            },
            _ => None,
        }
    } else {
        let c = rest[0];
        let tail = rest.drop_first();
        match mode {
            QuoteMode::Plain => if c == ' ' {
                if started {
                    shell_read(tail, QuoteMode::Plain, Seq::<char>::empty(), false, words.push(word))
                } else {
                    shell_read(tail, QuoteMode::Plain, Seq::<char>::empty(), false, words)
                }
            } else if c == '\'' {
                shell_read(tail, QuoteMode::Single, word, true, words)
            } else if c == '"' {
                shell_read(tail, QuoteMode::Double, word, true, words)
            } else if shell_special(c) {
                None
            } else {
                shell_read(tail, QuoteMode::Plain, word.push(c), true, words)
            },
            QuoteMode::Single => if c == '\'' {
                shell_read(tail, QuoteMode::Plain, word, true, words)
            } else {
                shell_read(tail, QuoteMode::Single, word.push(c), true, words)
            },
            QuoteMode::Double => if c == '"' {
                shell_read(tail, QuoteMode::Plain, word, true, words)
            } else if c == '$' || c == '`' || c == '\\' {
                None
            } else {
                shell_read(tail, QuoteMode::Double, word.push(c), true, words)
            },
        }
    }
}

/// A character that a POSIX shell does not take literally outside quotes:
/// the ones that must be quoted to stand for themselves (`|` `&` `;` `<`
/// `>` `(` `)` `$` `` ` `` `\` `"` `'`, space, tab, newline), the ones that
/// may need quoting (`*` `?` `[` `#` `~` `%`), and `!`, `{`, `}`, which some
/// shells treat specially. `=` is taken literally except in a leading
/// assignment, which word splitting does not concern.
pub open spec fn shell_special(c: char) -> bool {
    ||| c == '|' || c == '&' || c == ';' || c == '<' || c == '>' || c == '(' || c == ')'
    ||| c == '$' || c == '`' || c == '\\' || c == '"' || c == '\'' || c == ' ' || c == '\t'
    ||| c == '\n' || c == '*' || c == '?' || c == '[' || c == '#' || c == '~' || c == '%'
    ||| c == '!' || c == '{' || c == '}'
}

/// The words a POSIX shell reads from a command line.
pub open spec fn shell_words(line: Seq<char>) -> Option<Seq<Seq<char>>> {
    shell_read(line, QuoteMode::Plain, Seq::<char>::empty(), false, Seq::<Seq<char>>::empty())
}

proof fn lemma_read_safe(
    v: Seq<char>,
    rest: Seq<char>,
    word: Seq<char>,
    started: bool,
    words: Seq<Seq<char>>,
)
    requires
        v.len() > 0,
        forall|i: int| 0 <= i < v.len() ==> is_shell_safe(#[trigger] v[i]),
    ensures
        shell_read(v + rest, QuoteMode::Plain, word, started, words) == shell_read(
            rest,
            QuoteMode::Plain,
            word + v,
            true,
            words,
        ),
    decreases v.len(),
{
    let c = v[0];
    let t = v.drop_first();
    assert((v + rest)[0] == c);
    assert((v + rest).drop_first() =~= t + rest);
    assert(word.push(c) + t =~= word + v);
    if t.len() > 0 {
        assert forall|i: int| 0 <= i < t.len() implies is_shell_safe(#[trigger] t[i]) by {
            assert(t[i] == v[i + 1]);
        }
        lemma_read_safe(t, rest, word.push(c), true, words);
    } else {
        assert(t + rest =~= rest);
    }
}

proof fn lemma_read_escaped(v: Seq<char>, rest: Seq<char>, word: Seq<char>, words: Seq<Seq<char>>)
    ensures
        shell_read(escape_single_quotes(v) + rest, QuoteMode::Single, word, true, words)
            == shell_read(rest, QuoteMode::Single, word + v, true, words),
    decreases v.len(),
{
    if v.len() == 0 {
        assert(escape_single_quotes(v) =~= Seq::<char>::empty());
        assert(escape_single_quotes(v) + rest =~= rest);
        assert(word + v =~= word);
    } else {
        let v0 = v.drop_last();
        let c = v.last();
        let piece = if c == '\'' {
            seq!['\'', '"', '\'', '"', '\'']
        } else {
            seq![c]
        };
        assert(escape_single_quotes(v) + rest =~= escape_single_quotes(v0) + (piece + rest));
        lemma_read_escaped(v0, piece + rest, word, words);
        assert(word + v0 + seq![c] =~= word + v);
        let w = word + v0;
        if c == '\'' {
            let r1 = piece + rest;
            let r2 = r1.drop_first();
            let r3 = r2.drop_first();
            let r4 = r3.drop_first();
            let r5 = r4.drop_first();
            assert(r1[0] == '\'' && r2[0] == '"' && r3[0] == '\'' && r4[0] == '"' && r5[0] == '\'');
            assert(r5.drop_first() =~= rest);
            assert(shell_read(r1, QuoteMode::Single, w, true, words) == shell_read(
                r2,
                QuoteMode::Plain,
                w,
                true,
                words,
            ));
            assert(shell_read(r2, QuoteMode::Plain, w, true, words) == shell_read(
                r3,
                QuoteMode::Double,
                w,
                true,
                words,
            ));
            assert(shell_read(r3, QuoteMode::Double, w, true, words) == shell_read(
                r4,
                QuoteMode::Double,
                w.push('\''),
                true,
                words,
            ));
            assert(shell_read(r4, QuoteMode::Double, w.push('\''), true, words) == shell_read(
                r5,
                QuoteMode::Plain,
                w.push('\''),
                true,
                words,
            ));
            assert(shell_read(r5, QuoteMode::Plain, w.push('\''), true, words) == shell_read(
                rest,
                QuoteMode::Single,
                w.push('\''),
                true,
                words,
            ));
            assert(w.push('\'') =~= word + v);
        } else {
            let r1 = piece + rest;
            assert(r1[0] == c);
            assert(r1.drop_first() =~= rest);
            assert(shell_read(r1, QuoteMode::Single, w, true, words) == shell_read(
                rest,
                QuoteMode::Single,
                w.push(c),
                true,
                words,
            ));
            assert(w.push(c) =~= word + v);
        }
    }
}

proof fn lemma_read_word(v: Seq<char>, rest: Seq<char>, words: Seq<Seq<char>>)
    ensures
        shell_read(shell_word(v) + rest, QuoteMode::Plain, Seq::<char>::empty(), false, words)
            == shell_read(rest, QuoteMode::Plain, v, true, words),
{
    let e = Seq::<char>::empty();
    if v.len() == 0 {
        let r = shell_word(v) + rest;
        assert(r[0] == '\'');
        assert(r.drop_first()[0] == '\'');
        assert(r.drop_first().drop_first() =~= rest);
        assert(shell_read(r, QuoteMode::Plain, e, false, words) == shell_read(
            r.drop_first(),
            QuoteMode::Single,
            e,
            true,
            words,
        ));
        assert(shell_read(r.drop_first(), QuoteMode::Single, e, true, words) == shell_read(
            rest,
            QuoteMode::Plain,
            e,
            true,
            words,
        ));
        assert(v =~= e);
    } else if forall|i: int| 0 <= i < v.len() ==> is_shell_safe(#[trigger] v[i]) {
        lemma_read_safe(v, rest, e, false, words);
        assert(e + v =~= v);
    } else {
        let r = shell_word(v) + rest;
        let inner = escape_single_quotes(v) + (seq!['\''] + rest);
        assert(r =~= seq!['\''] + inner);
        assert(r[0] == '\'');
        assert(r.drop_first() =~= inner);
        assert(shell_read(r, QuoteMode::Plain, e, false, words) == shell_read(
            inner,
            QuoteMode::Single,
            e,
            true,
            words,
        ));
        lemma_read_escaped(v, seq!['\''] + rest, e, words);
        let closing = seq!['\''] + rest;
        assert(closing[0] == '\'');
        assert(closing.drop_first() =~= rest);
        assert(shell_read(closing, QuoteMode::Single, e + v, true, words) == shell_read(
            rest,
            QuoteMode::Plain,
            e + v,
            true,
            words,
        ));
        assert(e + v =~= v);
    }
}

proof fn lemma_read_joined(vs: Seq<Seq<char>>, rest: Seq<char>, words: Seq<Seq<char>>)
    requires
        vs.len() > 0,
    ensures
        shell_read(
            join_words(vs.map_values(|v: Seq<char>| shell_word(v))) + rest,
            QuoteMode::Plain,
            Seq::<char>::empty(),
            false,
            words,
        ) == shell_read(rest, QuoteMode::Plain, vs.last(), true, words + vs.drop_last()),
    decreases vs.len(),
{
    let qs = vs.map_values(|v: Seq<char>| shell_word(v));
    if vs.len() == 1 {
        assert(join_words(qs) == qs[0]);
        lemma_read_word(vs[0], rest, words);
        assert(words + vs.drop_last() =~= words);
    } else {
        let vs0 = vs.drop_last();
        let qs0 = vs0.map_values(|v: Seq<char>| shell_word(v));
        assert(qs.drop_last() =~= qs0);
        let last = vs.last();
        let tail = seq![' '] + (shell_word(last) + rest);
        assert(join_words(qs) + rest =~= join_words(qs0) + tail);
        lemma_read_joined(vs0, tail, words);
        assert(tail[0] == ' ');
        assert(tail.drop_first() =~= shell_word(last) + rest);
        lemma_read_word(last, rest, (words + vs0.drop_last()).push(vs0.last()));
        assert((words + vs0.drop_last()).push(vs0.last()) =~= words + vs.drop_last());
    }
}

/// A word is left unquoted only when it is not empty and the shell takes
/// every one of its characters literally; any other word is put in single
/// quotes.
pub proof fn lemma_unquoted_words_are_literal(value: Seq<char>)
    ensures
        shell_word(value) == value ==> value.len() > 0 && forall|i: int|
            0 <= i < value.len() ==> !shell_special(#[trigger] value[i]),
        shell_word(value) != value ==> shell_word(value).len() >= 2 && shell_word(value)[0] == '\''
            && shell_word(value).last() == '\'',
{
    lemma_escape_len(value);
    if value.len() > 0 && forall|i: int| 0 <= i < value.len() ==> is_shell_safe(#[trigger] value[i]) {
        assert forall|i: int| 0 <= i < value.len() implies !shell_special(#[trigger] value[i]) by {
            assert(is_shell_safe(value[i]));
        }
    }
}

proof fn lemma_escape_len(s: Seq<char>)
    ensures
        escape_single_quotes(s).len() >= s.len(),
    decreases s.len(),
{
    if s.len() > 0 {
        lemma_escape_len(s.drop_last());
    }
}

/// A joined command line is read by the shell as exactly the parts it
/// was joined from, whatever characters they hold.
pub proof fn lemma_shell_command_reads_back(parts: Seq<String>)
    ensures
        shell_words(shell_command(parts)) == Some(parts.map_values(|p: String| p@)),
{
    let vs = parts.map_values(|p: String| p@);
    let qs = parts.map_values(|p: String| shell_word(p@));
    assert(qs =~= vs.map_values(|v: Seq<char>| shell_word(v)));
    if parts.len() == 0 {
        assert(join_words(qs) =~= Seq::<char>::empty());
        assert(vs =~= Seq::<Seq<char>>::empty());
    } else {
        lemma_read_joined(vs, Seq::<char>::empty(), Seq::<Seq<char>>::empty());
        assert(join_words(qs) + Seq::<char>::empty() =~= join_words(qs));
        assert(Seq::<Seq<char>>::empty() + vs.drop_last() =~= vs.drop_last());
        assert(vs.drop_last().push(vs.last()) =~= vs);
    }
}

} // verus!
