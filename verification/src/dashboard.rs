//! The dashboard's state: the listed sessions and the panes of the
//! selected one, which of each is selected, which list has the keyboard
//! focus, and the status message; and how it answers keys and the mouse.

use vstd::prelude::*;

use crate::geometry::{rect_contains, rect_has, Rect};
use crate::model::{Pane, Session, SplitDirection};
use crate::session_view::{concat, CommandView, KeyCode, PaneCommand};
use crate::text::{decimal, push_decimal, push_str, str_equal};

verus! {

/// The list that has the keyboard focus.
#[derive(Debug, Clone, Copy, PartialEq, Eq, Structural)]
pub enum Focus {
    Sessions,
    Panes,
}

/// The dashboard: the sessions of the local target and the panes of the
/// selected session, which session and which pane are selected, which list
/// has the focus, and a status message. Each selection always points into
/// its list, or is 0 when the list is empty.
pub struct TuiState {
    sessions: Vec<Session>,
    selected: usize,
    panes: Vec<Pane>,
    selected_pane: usize,
    focus: Focus,
    message: String,
}

/// The selection fits the list: below its length, or 0 for no sessions.
pub open spec fn selection_fits(selected: int, len: int) -> bool {
    if len == 0 {
        selected == 0
    } else {
        0 <= selected < len
    }
}

/// The selection after moving down in a list of `len`: one further,
/// stopping at the last.
pub open spec fn next_selection(selected: int, len: int) -> int {
    if selected + 1 < len {
        selected + 1
    } else {
        selected
    }
}

/// The selection after moving up: one back, stopping at the first.
pub open spec fn previous_selection(selected: int) -> int {
    if selected > 0 {
        selected - 1
    } else {
        0
    }
}

/// The selection in a list that now has `len` entries: kept when it still
/// points into the list, else the last entry, or 0 for an empty list.
pub open spec fn capped_selection(selected: int, len: int) -> int {
    if selected < len {
        selected
    } else if len == 0 {
        0
    } else {
        len - 1
    }
}

/// Moving the selection keeps it on the list, and moving down then up (or
/// up then down) away from the ends comes back to the same session.
pub proof fn lemma_selection_moves(selected: int, len: int)
    requires
        selection_fits(selected, len),
    ensures
        selection_fits(next_selection(selected, len), len),
        selection_fits(previous_selection(selected), len),
        selected + 1 < len ==> previous_selection(next_selection(selected, len)) == selected,
        selected > 0 ==> next_selection(previous_selection(selected), len) == selected,
        selected + 1 < len ==> next_selection(selected, len) == selected + 1,
        len > 0 ==> next_selection(len - 1, len) == len - 1,
        selected > 0 ==> previous_selection(selected) == selected - 1,
        previous_selection(0) == 0,
{
}

/// When a list is listed again, a selection that still points into the
/// new list stays where it is; one past the new end moves to the last
/// entry; in an empty list it is 0. (Both the session list and the pane
/// list are taken in this way.)
pub proof fn lemma_relisting_keeps_selection(selected: int, len: int)
    requires
        0 <= selected,
        0 <= len,
    ensures
        selected < len ==> capped_selection(selected, len) == selected,
        len > 0 && selected >= len ==> capped_selection(selected, len) == len - 1,
        len == 0 ==> capped_selection(selected, len) == 0,
        selection_fits(capped_selection(selected, len), len),
{
}

/// The other list.
pub open spec fn toggled(focus: Focus) -> Focus {
    match focus {
        Focus::Sessions => Focus::Panes,
        Focus::Panes => Focus::Sessions,
    }
}

/// The `k`-th name a new session may get, from 0: `shell`, then
/// `shell-1`, `shell-2`, and so on.
pub open spec fn session_name_candidate(k: nat) -> Seq<char> {
    if k == 0 {
        "shell"@
    } else {
        "shell-"@ + decimal(k)
    }
}

/// One of `sessions` is named `name`.
pub open spec fn name_taken(sessions: Seq<Session>, name: Seq<char>) -> bool {
    exists|i: int| 0 <= i < sessions.len() && (#[trigger] sessions[i]).name@ == name
}

/// The first name from the `k`-th candidate up to the `limit`-th that no
/// session has.
pub open spec fn first_free_name(sessions: Seq<Session>, k: nat, limit: nat) -> Option<Seq<char>>
    decreases limit + 1 - k,
{
    if k > limit {
        None
    } else if !name_taken(sessions, session_name_candidate(k)) {
        Some(session_name_candidate(k))
    } else {
        first_free_name(sessions, k + 1, limit)
    }
}

/// The name of a new session next to `sessions`: the first candidate that
/// no session has, trying one more candidate than there are sessions.
pub open spec fn new_session_name_of(sessions: Seq<Session>) -> Option<Seq<char>> {
    first_free_name(sessions, 0, sessions.len())
}

/// The name of a new shell session that none of `sessions` has.
pub fn new_session_name(sessions: &[Session]) -> (r: Option<String>)
    ensures
        match r {
            Some(n) => new_session_name_of(sessions@) == Some(n@) && !name_taken(sessions@, n@),
            None => new_session_name_of(sessions@) is None,
        },
{
    let limit = sessions.len();
    let mut k: usize = 0;
    loop
        invariant
            k <= limit,
            limit == sessions@.len(),
            new_session_name_of(sessions@) == first_free_name(sessions@, k as nat, limit as nat),
        decreases limit - k,
    {
        let mut name = String::new();
        if k == 0 {
            push_str(&mut name, "shell");
        } else {
            push_str(&mut name, "shell-");
            push_decimal(&mut name, k as u64);
        }
        assert(name@ =~= session_name_candidate(k as nat));
        let mut taken = false;
        let mut i: usize = 0;
        while i < sessions.len()
            invariant
                i <= sessions@.len(),
                taken == exists|j: int| 0 <= j < i && (#[trigger] sessions@[j]).name@ == name@,
            decreases sessions.len() - i,
        {
            if str_equal(sessions[i].name.as_str(), name.as_str()) {
                taken = true;
            }
            i = i + 1;
        }
        if !taken {
            return Some(name);
        }
        if k == limit {
            return None;
        }
        k = k + 1;
    }
}

/// The areas the dashboard is drawn in: the session list, the pane list
/// and the row of buttons.
#[derive(Debug, Clone, Copy, PartialEq, Eq, Structural)]
pub struct DashboardLayout {
    pub sessions: Rect,
    pub panes: Rect,
    pub buttons: Rect,
}

/// The dashboard's buttons, drawn left to right as `[New] [Attach]
/// [Right] [Down] [Close] [Refresh]`.
#[derive(Debug, Clone, Copy, PartialEq, Eq, Structural)]
pub enum Button {
    New,
    Attach,
    Right,
    Down,
    Close,
    Refresh,
}

/// The button drawn `offset` columns right of the start of the button row.
pub open spec fn button_at_offset(offset: int) -> Option<Button> {
    if 0 <= offset < 5 {
        Some(Button::New)
    } else if 6 <= offset < 14 {
        Some(Button::Attach)
    } else if 15 <= offset < 22 {
        Some(Button::Right)
    } else if 23 <= offset < 29 {
        Some(Button::Down)
    } else if 30 <= offset < 37 {
        Some(Button::Close)
    } else if 38 <= offset < 47 {
        Some(Button::Refresh)
    } else {
        None
    }
}

/// The button under the cell `(column, row)` of the button row `area`.
pub open spec fn button_hit(area: Rect, column: int, row: int) -> Option<Button> {
    if rect_has(area, column, row) && row == area.y {
        button_at_offset(column - area.x)
    } else {
        None
    }
}

/// The button at `(column, row)`.
pub fn button_at(area: Rect, column: u16, row: u16) -> (b: Option<Button>)
    ensures
        b == button_hit(area, column as int, row as int),
{
    if !rect_contains(area, column, row) || row != area.y {
        return None;
    }
    let d = column - area.x;
    if d < 5 {
        Some(Button::New)
    } else if 6 <= d && d < 14 {
        Some(Button::Attach)
    } else if 15 <= d && d < 22 {
        Some(Button::Right)
    } else if 23 <= d && d < 29 {
        Some(Button::Down)
    } else if 30 <= d && d < 37 {
        Some(Button::Close)
    } else if 38 <= d && d < 47 {
        Some(Button::Refresh)
    } else {
        None
    }
}

/// What the dashboard reads from the terminal: a key (without its
/// modifiers), the mouse wheel or a left click at a cell, or a resize.
pub enum DashboardInput {
    Key(KeyCode),
    ScrollDown(u16, u16),
    ScrollUp(u16, u16),
    Click(u16, u16),
    Resize,
    Other,
}

/// What the dashboard does next: stay (redrawing or not), list the
/// sessions again, quit, leave to attach the named session (`None` when
/// there is none), create a shell session of that name in the current
/// directory and attach it, list the panes of the selected session, or
/// have tmux carry out a pane command.
pub enum DashboardAction {
    Stay { redraw: bool },
    Refresh,
    Quit,
    Attach(Option<String>),
    Launch(String),
    LoadPanes,
    Pane(PaneCommand),
}

impl TuiState {
    /// The listed sessions.
    pub closed spec fn spec_sessions(&self) -> Seq<Session> {
        self.sessions@
    }

    /// The selected session's position.
    pub closed spec fn spec_selected(&self) -> int {
        self.selected as int
    }

    /// The panes of the selected session.
    pub closed spec fn spec_panes(&self) -> Seq<Pane> {
        self.panes@
    }

    /// The selected pane's position.
    pub closed spec fn spec_selected_pane(&self) -> int {
        self.selected_pane as int
    }

    /// The list with the keyboard focus.
    pub closed spec fn spec_focus(&self) -> Focus {
        self.focus
    }

    /// The status message.
    pub closed spec fn spec_message(&self) -> Seq<char> {
        self.message@
    }

    #[verifier::type_invariant]
    closed spec fn selection_in_range(&self) -> bool {
        &&& selection_fits(self.selected as int, self.sessions@.len() as int)
        &&& selection_fits(self.selected_pane as int, self.panes@.len() as int)
    }
}

/// `new` is `old` with the two selections, the focus and the message set
/// as given, and the same sessions and panes.
pub open spec fn moved(
    old: TuiState,
    new: TuiState,
    selected: int,
    selected_pane: int,
    focus: Focus,
    message: Seq<char>,
) -> bool {
    &&& new.spec_sessions() == old.spec_sessions()
    &&& new.spec_panes() == old.spec_panes()
    &&& new.spec_selected() == selected
    &&& new.spec_selected_pane() == selected_pane
    &&& new.spec_focus() == focus
    &&& new.spec_message() == message
}

/// `new` is `old`.
pub open spec fn still(old: TuiState, new: TuiState) -> bool {
    moved(old, new, old.spec_selected(), old.spec_selected_pane(), old.spec_focus(), old.spec_message())
}

/// `new` is `old` with the message `message`.
pub open spec fn says(old: TuiState, new: TuiState, message: Seq<char>) -> bool {
    moved(old, new, old.spec_selected(), old.spec_selected_pane(), old.spec_focus(), message)
}

/// The id of the selected pane, if there is one.
pub open spec fn selected_pane_id(state: TuiState) -> Option<Seq<char>> {
    if 0 <= state.spec_selected_pane() < state.spec_panes().len() {
        Some(state.spec_panes()[state.spec_selected_pane()].id@)
    } else {
        None
    }
}

/// Moving down (or up, when `down` is false) in the focused list: in the
/// session list the panes of the newly selected session must be listed,
/// in the pane list only a redraw is needed.
pub open spec fn moves_in_focus(old: TuiState, new: TuiState, down: bool, action: DashboardAction) -> bool {
    match old.spec_focus() {
        Focus::Sessions => {
            &&& action is LoadPanes
            &&& moved(
                old,
                new,
                if down {
                    next_selection(old.spec_selected(), old.spec_sessions().len() as int)
                } else {
                    previous_selection(old.spec_selected())
                },
                old.spec_selected_pane(),
                old.spec_focus(),
                old.spec_message(),
            )
        },
        Focus::Panes => {
            &&& action == (DashboardAction::Stay { redraw: true })
            &&& moved(
                old,
                new,
                old.spec_selected(),
                if down {
                    next_selection(old.spec_selected_pane(), old.spec_panes().len() as int)
                } else {
                    previous_selection(old.spec_selected_pane())
                },
                old.spec_focus(),
                old.spec_message(),
            )
        },
    }
}

/// Moving the selection of the list under the wheel: the pane list when
/// the wheel turns over it, else the session list.
pub open spec fn wheel_moves(
    old: TuiState,
    new: TuiState,
    over_panes: bool,
    down: bool,
    action: DashboardAction,
) -> bool {
    if over_panes {
        &&& action == (DashboardAction::Stay { redraw: true })
        &&& moved(
            old,
            new,
            old.spec_selected(),
            if down {
                next_selection(old.spec_selected_pane(), old.spec_panes().len() as int)
            } else {
                previous_selection(old.spec_selected_pane())
            },
            old.spec_focus(),
            old.spec_message(),
        )
    } else {
        &&& action is LoadPanes
        &&& moved(
            old,
            new,
            if down {
                next_selection(old.spec_selected(), old.spec_sessions().len() as int)
            } else {
                previous_selection(old.spec_selected())
            },
            old.spec_selected_pane(),
            old.spec_focus(),
            old.spec_message(),
        )
    }
}

/// Starting a new shell session: under the first free name, or a message
/// when no name is free.
pub open spec fn launches(old: TuiState, new: TuiState, action: DashboardAction) -> bool {
    match new_session_name_of(old.spec_sessions()) {
        Some(name) => still(old, new) && (action matches DashboardAction::Launch(n) && n@ == name),
        None => says(old, new, "no free session name"@) && action == (DashboardAction::Stay {
            redraw: true,
        }),
    }
}

/// Attaching the selected session (`None` when there is none).
pub open spec fn attaches(old: TuiState, new: TuiState, action: DashboardAction) -> bool {
    &&& still(old, new)
    &&& match action {
        DashboardAction::Attach(Some(n)) => old.spec_selected() < old.spec_sessions().len() && n@
            == old.spec_sessions()[old.spec_selected()].name@,
        DashboardAction::Attach(None) => old.spec_sessions().len() == 0,
        _ => false,
    }
}

/// Splitting the selected pane in `direction`.
pub open spec fn splits(old: TuiState, new: TuiState, direction: SplitDirection, action: DashboardAction) -> bool {
    match selected_pane_id(old) {
        Some(id) => still(old, new) && (action matches DashboardAction::Pane(c) && c@
            == CommandView::Split(id, direction)),
        None => says(old, new, "no pane selected"@) && action == (DashboardAction::Stay {
            redraw: true,
        }),
    }
}

/// Closing the selected pane, unless it is the last one.
pub open spec fn closes(old: TuiState, new: TuiState, action: DashboardAction) -> bool {
    if old.spec_panes().len() <= 1 {
        says(old, new, "not closing the last pane"@) && action == (DashboardAction::Stay {
            redraw: true,
        })
    } else {
        match selected_pane_id(old) {
            Some(id) => still(old, new) && (action matches DashboardAction::Pane(c) && c@
                == CommandView::Kill(id)),
            None => false,
        }
    }
}

/// What pressing `button` does.
pub open spec fn presses(old: TuiState, new: TuiState, button: Button, action: DashboardAction) -> bool {
    match button {
        Button::New => launches(old, new, action),
        Button::Attach => attaches(old, new, action),
        Button::Right => splits(old, new, SplitDirection::Right, action),
        Button::Down => splits(old, new, SplitDirection::Down, action),
        Button::Close => closes(old, new, action),
        Button::Refresh => still(old, new) && action is Refresh,
    }
}

/// What a key does: `q` and Esc quit, `r` refreshes, Tab moves the focus
/// to the other list, `j`/Down and `k`/Up move in the focused list, Enter
/// attaches the selected session (or starts one when there is none), `|`
/// and `-` split the selected pane right and down, `x` closes it.
pub open spec fn key_effect(old: TuiState, new: TuiState, code: KeyCode, action: DashboardAction) -> bool {
    match code {
        KeyCode::Char(c) => if c == 'q' {
            still(old, new) && action is Quit
        } else if c == 'r' {
            still(old, new) && action is Refresh
        } else if c == 'j' {
            moves_in_focus(old, new, true, action)
        } else if c == 'k' {
            moves_in_focus(old, new, false, action)
        } else if c == '|' {
            splits(old, new, SplitDirection::Right, action)
        } else if c == '-' {
            splits(old, new, SplitDirection::Down, action)
        } else if c == 'x' {
            closes(old, new, action)
        } else {
            still(old, new) && action == (DashboardAction::Stay { redraw: false })
        },
        KeyCode::Esc => still(old, new) && action is Quit,
        KeyCode::Tab => action == (DashboardAction::Stay { redraw: true }) && moved(
            old,
            new,
            old.spec_selected(),
            old.spec_selected_pane(),
            toggled(old.spec_focus()),
            old.spec_message(),
        ),
        KeyCode::Down => moves_in_focus(old, new, true, action),
        KeyCode::Up => moves_in_focus(old, new, false, action),
        KeyCode::Enter => if old.spec_sessions().len() == 0 {
            launches(old, new, action)
        } else {
            attaches(old, new, action)
        },
        _ => still(old, new) && action == (DashboardAction::Stay { redraw: false }),
    }
}

/// What a left click at `(column, row)` does: press the button there;
/// in the session list select the session there (focusing the list) or,
/// on the `Start Session` row of an empty list, start one; in the pane
/// list select the pane there (focusing the list).
pub open spec fn click_effect(
    old: TuiState,
    new: TuiState,
    layout: DashboardLayout,
    column: int,
    row: int,
    action: DashboardAction,
) -> bool {
    let nothing = still(old, new) && action == (DashboardAction::Stay { redraw: false });
    match button_hit(layout.buttons, column, row) {
        Some(b) => presses(old, new, b, action),
        None => if rect_has(layout.sessions, column, row) {
            match list_row(layout.sessions, row) {
                Some(i) => if old.spec_sessions().len() == 0 && i == 0 {
                    launches(old, new, action)
                } else if i < old.spec_sessions().len() {
                    action is LoadPanes && moved(
                        old,
                        new,
                        i,
                        old.spec_selected_pane(),
                        Focus::Sessions,
                        old.spec_message(),
                    )
                } else {
                    nothing
                },
                None => nothing,
            }
        } else if rect_has(layout.panes, column, row) {
            match list_row(layout.panes, row) {
                Some(i) => if i < old.spec_panes().len() {
                    action == (DashboardAction::Stay { redraw: true }) && moved(
                        old,
                        new,
                        old.spec_selected(),
                        i,
                        Focus::Panes,
                        old.spec_message(),
                    )
                } else {
                    nothing
                },
                None => nothing,
            }
        } else {
            nothing
        },
    }
}

/// What the dashboard does with one input.
pub open spec fn input_effect(
    old: TuiState,
    new: TuiState,
    input: DashboardInput,
    layout: DashboardLayout,
    action: DashboardAction,
) -> bool {
    match input {
        DashboardInput::Key(code) => key_effect(old, new, code, action),
        DashboardInput::ScrollDown(column, row) => wheel_moves(
            old,
            new,
            rect_has(layout.panes, column as int, row as int),
            true,
            action,
        ),
        DashboardInput::ScrollUp(column, row) => wheel_moves(
            old,
            new,
            rect_has(layout.panes, column as int, row as int),
            false,
            action,
        ),
        DashboardInput::Click(column, row) => click_effect(old, new, layout, column as int, row as int, action),
        DashboardInput::Resize => still(old, new) && action == (DashboardAction::Stay { redraw: true }),
        DashboardInput::Other => still(old, new) && action == (DashboardAction::Stay { redraw: false }),
    }
}

impl TuiState {
    /// A dashboard that is loading its sessions, with the focus on the
    /// session list.
    pub fn new() -> (state: TuiState)
        ensures
            state.spec_sessions().len() == 0,
            state.spec_selected() == 0,
            state.spec_panes().len() == 0,
            state.spec_selected_pane() == 0,
            state.spec_focus() == Focus::Sessions,
            state.spec_message() == "loading sessions"@,
    {
        TuiState {
            sessions: Vec::new(),
            selected: 0,
            panes: Vec::new(),
            selected_pane: 0,
            focus: Focus::Sessions,
            message: "loading sessions".to_owned(),
        }
    }

    /// The listed sessions.
    pub fn sessions(&self) -> (s: &Vec<Session>)
        ensures
            s@ == self.spec_sessions(),
    {
        &self.sessions
    }

    /// The selected session's position.
    pub fn selected(&self) -> (i: usize)
        ensures
            i == self.spec_selected(),
            selection_fits(i as int, self.spec_sessions().len() as int),
    {
        proof {
            use_type_invariant(self);
        }
        self.selected
    }

    /// The panes of the selected session.
    pub fn panes(&self) -> (p: &Vec<Pane>)
        ensures
            p@ == self.spec_panes(),
    {
        &self.panes
    }

    /// The selected pane's position.
    pub fn selected_pane(&self) -> (i: usize)
        ensures
            i == self.spec_selected_pane(),
            selection_fits(i as int, self.spec_panes().len() as int),
    {
        proof {
            use_type_invariant(self);
        }
        self.selected_pane
    }

    /// The list with the keyboard focus.
    pub fn focus(&self) -> (f: Focus)
        ensures
            f == self.spec_focus(),
    {
        self.focus
    }

    /// The status message.
    pub fn message(&self) -> (m: &String)
        ensures
            m@ == self.spec_message(),
    {
        &self.message
    }

    /// Takes in a new session listing: on success the sessions, the
    /// selection capped to the list and a count; on failure no sessions, no
    /// panes and the error. The panes are left for the caller to list again.
    pub fn refresh(&mut self, listed: Result<Vec<Session>, String>)
        ensures
            final(self).spec_focus() == old(self).spec_focus(),
            match listed {
                Ok(sessions) => {
                    &&& final(self).spec_sessions() == sessions@
                    &&& final(self).spec_selected() == capped_selection(
                        old(self).spec_selected(),
                        sessions@.len() as int,
                    )
                    &&& final(self).spec_panes() == old(self).spec_panes()
                    &&& final(self).spec_selected_pane() == old(self).spec_selected_pane()
                    &&& final(self).spec_message() == decimal(sessions@.len() as nat)
                        + " local sessions"@
                },
                Err(error) => {
                    &&& final(self).spec_sessions().len() == 0
                    &&& final(self).spec_selected() == 0
                    &&& final(self).spec_panes().len() == 0
                    &&& final(self).spec_selected_pane() == 0
                    &&& final(self).spec_message() == "failed to list sessions: "@ + error@
                },
            },
    {
        proof {
            use_type_invariant(&*self);
        }
        match listed {
            Ok(sessions) => {
                let len = sessions.len();
                let last = if len == 0 {
                    0
                } else {
                    len - 1
                };
                let selected = if self.selected < last {
                    self.selected
                } else {
                    last
                };
                let mut m = String::new();
                push_decimal(&mut m, len as u64);
                push_str(&mut m, " local sessions");
                self.selected = 0;
                self.sessions = sessions;
                self.selected = selected;
                self.message = m;
            },
            Err(error) => {
                self.selected = 0;
                self.sessions = Vec::new();
                self.selected_pane = 0;
                self.panes = Vec::new();
                self.message = concat("failed to list sessions: ", error.as_str());
            },
        }
    }

    /// Takes in the panes of the selected session: on success the panes
    /// and the pane selection capped to them; on failure no panes and the
    /// error.
    pub fn set_panes(&mut self, listed: Result<Vec<Pane>, String>)
        ensures
            final(self).spec_sessions() == old(self).spec_sessions(),
            final(self).spec_selected() == old(self).spec_selected(),
            final(self).spec_focus() == old(self).spec_focus(),
            match listed {
                Ok(panes) => {
                    &&& final(self).spec_panes() == panes@
                    &&& final(self).spec_selected_pane() == capped_selection(
                        old(self).spec_selected_pane(),
                        panes@.len() as int,
                    )
                    &&& final(self).spec_message() == old(self).spec_message()
                },
                Err(error) => {
                    &&& final(self).spec_panes().len() == 0
                    &&& final(self).spec_selected_pane() == 0
                    &&& final(self).spec_message() == "failed to list panes: "@ + error@
                },
            },
    {
        proof {
            use_type_invariant(&*self);
        }
        match listed {
            Ok(panes) => {
                let len = panes.len();
                let selected_pane = if self.selected_pane < len {
                    self.selected_pane
                } else if len == 0 {
                    0
                } else {
                    len - 1
                };
                self.selected_pane = 0;
                self.panes = panes;
                self.selected_pane = selected_pane;
            },
            Err(error) => {
                self.selected_pane = 0;
                self.panes = Vec::new();
                self.message = concat("failed to list panes: ", error.as_str());
            },
        }
    }

    /// The name of the selected session.
    pub fn selected_session_name(&self) -> (name: Option<String>)
        ensures
            match name {
                Some(n) => self.spec_selected() < self.spec_sessions().len() && n@
                    == self.spec_sessions()[self.spec_selected()].name@,
                None => self.spec_sessions().len() == 0,
            },
    {
        proof {
            use_type_invariant(self);
        }
        if self.selected < self.sessions.len() {
            Some(self.sessions[self.selected].name.clone())
        } else {
            None
        }
    }

    /// Moves the selection one session down, stopping at the last.
    pub fn select_next(&mut self)
        ensures
            moved(
                *old(self),
                *final(self),
                next_selection(old(self).spec_selected(), old(self).spec_sessions().len() as int),
                old(self).spec_selected_pane(),
                old(self).spec_focus(),
                old(self).spec_message(),
            ),
    {
        proof {
            use_type_invariant(&*self);
        }
        if self.sessions.len() == 0 {
            return;
        }
        let last = self.sessions.len() - 1;
        let next = if self.selected + 1 < last {
            self.selected + 1
        } else {
            last
        };
        self.selected = next;
    }

    /// Moves the selection one session up, stopping at the first.
    pub fn select_previous(&mut self)
        ensures
            moved(
                *old(self),
                *final(self),
                previous_selection(old(self).spec_selected()),
                old(self).spec_selected_pane(),
                old(self).spec_focus(),
                old(self).spec_message(),
            ),
    {
        proof {
            use_type_invariant(&*self);
        }
        self.selected = self.selected.saturating_sub(1);
    }

    /// Selects the session at `row`, when there is one.
    pub fn select_row(&mut self, row: usize)
        ensures
            moved(
                *old(self),
                *final(self),
                if row < old(self).spec_sessions().len() {
                    row as int
                } else {
                    old(self).spec_selected()
                },
                old(self).spec_selected_pane(),
                old(self).spec_focus(),
                old(self).spec_message(),
            ),
    {
        proof {
            use_type_invariant(&*self);
        }
        if row < self.sessions.len() {
            self.selected = row;
        }
    }

    /// Reports that starting a session failed.
    pub fn note_launch_failure(&mut self, error: &str)
        ensures
            says(*old(self), *final(self), "failed to start session: "@ + error@),
    {
        proof {
            use_type_invariant(&*self);
        }
        self.message = concat("failed to start session: ", error);
    }

    /// Takes in what tmux answered to a pane command from the dashboard.
    pub fn apply_pane_outcome(&mut self, command: &PaneCommand, outcome: Result<(), String>)
        ensures
            says(
                *old(self),
                *final(self),
                match (command@, outcome) {
                    (CommandView::Select(id), Ok(())) => "selected pane "@ + id,
                    (CommandView::Select(_), Err(e)) => "select failed: "@ + e@,
                    (CommandView::Split(_, d), Ok(())) => match d {
                        SplitDirection::Right => "split pane right"@,
                        SplitDirection::Down => "split pane down"@,
                    },
                    (CommandView::Split(_, _), Err(e)) => "split failed: "@ + e@,
                    (CommandView::Kill(id), Ok(())) => "closed pane "@ + id,
                    (CommandView::Kill(_), Err(e)) => "close failed: "@ + e@,
                    (_, Ok(())) => old(self).spec_message(),
                    (_, Err(e)) => "send failed: "@ + e@,
                },
            ),
    {
        proof {
            use_type_invariant(&*self);
        }
        match command {
            PaneCommand::Select { pane_id } => match outcome {
                Ok(()) => {
                    self.message = concat("selected pane ", pane_id.as_str());
                },
                Err(e) => {
                    self.message = concat("select failed: ", e.as_str());
                },
            },
            PaneCommand::Split { pane_id: _, direction } => match outcome {
                Ok(()) => {
                    self.message = match direction {
                        SplitDirection::Right => "split pane right".to_owned(),
                        SplitDirection::Down => "split pane down".to_owned(),
                    };
                },
                Err(e) => {
                    self.message = concat("split failed: ", e.as_str());
                },
            },
            PaneCommand::Kill { pane_id } => match outcome {
                Ok(()) => {
                    self.message = concat("closed pane ", pane_id.as_str());
                },
                Err(e) => {
                    self.message = concat("close failed: ", e.as_str());
                },
            },
            PaneCommand::SendLiteral { .. } | PaneCommand::SendKey { .. } => {
                if let Err(e) = outcome {
                    self.message = concat("send failed: ", e.as_str());
                }
            },
        }
    }

    fn move_in_focus(&mut self, down: bool) -> (action: DashboardAction)
        ensures
            moves_in_focus(*old(self), *final(self), down, action),
    {
        proof {
            use_type_invariant(&*self);
        }
        match self.focus {
            Focus::Sessions => {
                if down {
                    self.select_next();
                } else {
                    self.select_previous();
                }
                DashboardAction::LoadPanes
            },
            Focus::Panes => {
                self.move_pane(down);
                DashboardAction::Stay { redraw: true }
            },
        }
    }

    fn move_pane(&mut self, down: bool)
        ensures
            moved(
                *old(self),
                *final(self),
                old(self).spec_selected(),
                if down {
                    next_selection(old(self).spec_selected_pane(), old(self).spec_panes().len() as int)
                } else {
                    previous_selection(old(self).spec_selected_pane())
                },
                old(self).spec_focus(),
                old(self).spec_message(),
            ),
    {
        proof {
            use_type_invariant(&*self);
        }
        if down {
            let len = self.panes.len();
            if len > 0 && self.selected_pane < len - 1 {
                self.selected_pane = self.selected_pane + 1;
            }
        } else if self.selected_pane > 0 {
            self.selected_pane = self.selected_pane - 1;
        }
    }

    fn wheel(&mut self, over_panes: bool, down: bool) -> (action: DashboardAction)
        ensures
            wheel_moves(*old(self), *final(self), over_panes, down, action),
    {
        if over_panes {
            self.move_pane(down);
            DashboardAction::Stay { redraw: true }
        } else {
            if down {
                self.select_next();
            } else {
                self.select_previous();
            }
            DashboardAction::LoadPanes
        }
    }

    fn launch(&mut self) -> (action: DashboardAction)
        ensures
            launches(*old(self), *final(self), action),
    {
        proof {
            use_type_invariant(&*self);
        }
        match new_session_name(self.sessions.as_slice()) {
            Some(name) => DashboardAction::Launch(name),
            None => {
                self.message = "no free session name".to_owned();
                DashboardAction::Stay { redraw: true }
            },
        }
    }

    fn attach(&self) -> (action: DashboardAction)
        ensures
            attaches(*self, *self, action),
    {
        DashboardAction::Attach(self.selected_session_name())
    }

    fn selected_pane_command_id(&self) -> (id: Option<String>)
        ensures
            match id {
                Some(s) => selected_pane_id(*self) == Some(s@),
                None => selected_pane_id(*self) is None,
            },
    {
        if self.selected_pane < self.panes.len() {
            Some(self.panes[self.selected_pane].id.clone())
        } else {
            None
        }
    }

    fn split(&mut self, direction: SplitDirection) -> (action: DashboardAction)
        ensures
            splits(*old(self), *final(self), direction, action),
    {
        proof {
            use_type_invariant(&*self);
        }
        match self.selected_pane_command_id() {
            Some(pane_id) => DashboardAction::Pane(PaneCommand::Split { pane_id, direction }),
            None => {
                self.message = "no pane selected".to_owned();
                DashboardAction::Stay { redraw: true }
            },
        }
    }

    fn close(&mut self) -> (action: DashboardAction)
        ensures
            closes(*old(self), *final(self), action),
    {
        proof {
            use_type_invariant(&*self);
        }
        if self.panes.len() <= 1 {
            self.message = "not closing the last pane".to_owned();
            return DashboardAction::Stay { redraw: true };
        }
        let pane_id = self.panes[self.selected_pane].id.clone();
        DashboardAction::Pane(PaneCommand::Kill { pane_id })
    }

    fn press(&mut self, button: Button) -> (action: DashboardAction)
        ensures
            presses(*old(self), *final(self), button, action),
    {
        match button {
            Button::New => self.launch(),
            Button::Attach => self.attach(),
            Button::Right => self.split(SplitDirection::Right),
            Button::Down => self.split(SplitDirection::Down),
            Button::Close => self.close(),
            Button::Refresh => DashboardAction::Refresh,
        }
    }

    fn key(&mut self, code: KeyCode) -> (action: DashboardAction)
        ensures
            key_effect(*old(self), *final(self), code, action),
    {
        proof {
            use_type_invariant(&*self);
        }
        match code {
            KeyCode::Char('q') | KeyCode::Esc => DashboardAction::Quit,
            KeyCode::Char('r') => DashboardAction::Refresh,
            KeyCode::Char('j') | KeyCode::Down => self.move_in_focus(true),
            KeyCode::Char('k') | KeyCode::Up => self.move_in_focus(false),
            KeyCode::Char('|') => self.split(SplitDirection::Right),
            KeyCode::Char('-') => self.split(SplitDirection::Down),
            KeyCode::Char('x') => self.close(),
            KeyCode::Tab => {
                self.focus = match self.focus {
                    Focus::Sessions => Focus::Panes,
                    Focus::Panes => Focus::Sessions,
                };
                DashboardAction::Stay { redraw: true }
            },
            KeyCode::Enter => {
                if self.sessions.len() == 0 {
                    self.launch()
                } else {
                    self.attach()
                }
            },
            _ => DashboardAction::Stay { redraw: false },
        }
    }

    fn click(&mut self, layout: DashboardLayout, column: u16, row: u16) -> (action: DashboardAction)
        ensures
            click_effect(*old(self), *final(self), layout, column as int, row as int, action),
    {
        proof {
            use_type_invariant(&*self);
        }
        if let Some(b) = button_at(layout.buttons, column, row) {
            return self.press(b);
        }
        if rect_contains(layout.sessions, column, row) {
            match session_row_from_mouse(layout.sessions, row) {
                Some(i) => {
                    if self.sessions.len() == 0 && i == 0 {
                        self.launch()
                    } else if i < self.sessions.len() {
                        self.selected = i;
                        self.focus = Focus::Sessions;
                        DashboardAction::LoadPanes
                    } else {
                        DashboardAction::Stay { redraw: false }
                    }
                },
                None => DashboardAction::Stay { redraw: false },
            }
        } else if rect_contains(layout.panes, column, row) {
            match session_row_from_mouse(layout.panes, row) {
                Some(i) => {
                    if i < self.panes.len() {
                        self.selected_pane = i;
                        self.focus = Focus::Panes;
                        DashboardAction::Stay { redraw: true }
                    } else {
                        DashboardAction::Stay { redraw: false }
                    }
                },
                None => DashboardAction::Stay { redraw: false },
            }
        } else {
            DashboardAction::Stay { redraw: false }
        }
    }

    /// Handles one terminal event, with the dashboard drawn in `layout`:
    /// `q` or Esc quits, `r` lists the sessions again, Tab moves the focus
    /// between the session and pane lists, `j`/Down and `k`/Up move in the
    /// focused list, Enter attaches the selected session or, when there is
    /// none, starts a shell session, `|`, `-` and `x` split the selected
    /// pane right, split it down and close it; the wheel moves in the list
    /// under it, a click selects a session or pane or presses a button, and
    /// a resize redraws.
    pub fn handle_input(&mut self, input: DashboardInput, layout: DashboardLayout) -> (action:
        DashboardAction)
        ensures
            input_effect(*old(self), *final(self), input, layout, action),
    {
        match input {
            DashboardInput::Key(code) => self.key(code),
            DashboardInput::ScrollDown(column, row) => {
                let over = rect_contains(layout.panes, column, row);
                self.wheel(over, true)
            },
            DashboardInput::ScrollUp(column, row) => {
                let over = rect_contains(layout.panes, column, row);
                self.wheel(over, false)
            },
            DashboardInput::Click(column, row) => self.click(layout, column, row),
            DashboardInput::Resize => DashboardAction::Stay { redraw: true },
            DashboardInput::Other => DashboardAction::Stay { redraw: false },
        }
    }
}

/// What the dashboard's keys do: `q` and Esc quit, `r` lists the
/// sessions again, Tab moves the focus to the other list, `j` and Down
/// select the next entry of the focused list and `k` and Up the previous
/// one (stopping at the ends; in the session list the panes of the newly
/// selected session are then listed), Enter attaches the selected session
/// or, when there is none, starts a session named `shell`, `|` asks to
/// split the selected pane with the new pane to the right and `-` with it
/// below, and `x` asks to close the selected pane when there are others.
pub proof fn lemma_dashboard_keys(
    old: TuiState,
    new: TuiState,
    code: KeyCode,
    layout: DashboardLayout,
    action: DashboardAction,
)
    requires
        input_effect(old, new, DashboardInput::Key(code), layout, action),
    ensures
        (code == KeyCode::Char('q') || code == KeyCode::Esc) ==> action is Quit,
        code == KeyCode::Char('r') ==> action is Refresh,
        code == KeyCode::Tab ==> new.spec_focus() != old.spec_focus() && new.spec_selected()
            == old.spec_selected() && new.spec_selected_pane() == old.spec_selected_pane(),
        (code == KeyCode::Char('j') || code == KeyCode::Down) && old.spec_focus() == Focus::Sessions
            ==> action is LoadPanes && new.spec_selected() == (if old.spec_selected() + 1
            < old.spec_sessions().len() {
            old.spec_selected() + 1
        } else {
            old.spec_selected()
        }),
        (code == KeyCode::Char('k') || code == KeyCode::Up) && old.spec_focus() == Focus::Sessions
            ==> action is LoadPanes && new.spec_selected() == (if old.spec_selected() > 0 {
            old.spec_selected() - 1
        } else {
            0
        }),
        (code == KeyCode::Char('j') || code == KeyCode::Down) && old.spec_focus() == Focus::Panes
            ==> new.spec_selected() == old.spec_selected() && new.spec_selected_pane() == (if old.spec_selected_pane()
            + 1 < old.spec_panes().len() {
            old.spec_selected_pane() + 1
        } else {
            old.spec_selected_pane()
        }),
        (code == KeyCode::Char('k') || code == KeyCode::Up) && old.spec_focus() == Focus::Panes
            ==> new.spec_selected() == old.spec_selected() && new.spec_selected_pane() == (if old.spec_selected_pane()
            > 0 {
            old.spec_selected_pane() - 1
        } else {
            0
        }),
        code == KeyCode::Enter && 0 <= old.spec_selected() < old.spec_sessions().len() ==> (action matches DashboardAction::Attach(Some(n))
            && n@ == old.spec_sessions()[old.spec_selected()].name@),
        code == KeyCode::Enter && old.spec_sessions().len() == 0 ==> (action matches DashboardAction::Launch(n)
            && n@ == "shell"@),
        code == KeyCode::Char('|') && 0 <= old.spec_selected_pane() < old.spec_panes().len() ==> (action matches DashboardAction::Pane(c)
            && c@ == CommandView::Split(
            old.spec_panes()[old.spec_selected_pane()].id@,
            SplitDirection::Right,
        )),
        code == KeyCode::Char('-') && 0 <= old.spec_selected_pane() < old.spec_panes().len() ==> (action matches DashboardAction::Pane(c)
            && c@ == CommandView::Split(
            old.spec_panes()[old.spec_selected_pane()].id@,
            SplitDirection::Down,
        )),
        code == KeyCode::Char('x') && 0 <= old.spec_selected_pane() < old.spec_panes().len()
            && old.spec_panes().len() > 1 ==> (action matches DashboardAction::Pane(c) && c@
            == CommandView::Kill(old.spec_panes()[old.spec_selected_pane()].id@)),
{
    if code == KeyCode::Enter && old.spec_sessions().len() == 0 {
        assert(!name_taken(old.spec_sessions(), session_name_candidate(0)));
        assert(new_session_name_of(old.spec_sessions()) == Some("shell"@));
    }
}

/// The list row under a mouse click at screen row `row`, for a list drawn
/// in a bordered block at `area`: the rows between the top and bottom
/// borders, counted from 0.
pub open spec fn list_row(area: Rect, row: int) -> Option<int> {
    let first = if area.y + 1 > u16::MAX {
        u16::MAX as int
    } else {
        area.y + 1
    };
    let bottom = if area.y + area.height > u16::MAX {
        u16::MAX as int
    } else {
        area.y + area.height
    };
    let last = if bottom > 0 {
        bottom - 1
    } else {
        0
    };
    if row < first || row >= last {
        None
    } else {
        Some(row - first)
    }
}

/// The session row under a mouse click at screen row `row`.
pub fn session_row_from_mouse(area: Rect, row: u16) -> (r: Option<usize>)
    ensures
        match list_row(area, row as int) {
            Some(i) => r == Some(i as usize),
            None => r is None,
        },
{
    let first_item_row = area.y.saturating_add(1);
    let last_item_row = area.y.saturating_add(area.height).saturating_sub(1);
    if row < first_item_row || row >= last_item_row {
        return None;
    }
    Some((row - first_item_row) as usize)
}

/// `n` spaces.
pub open spec fn spaces(n: nat) -> Seq<char> {
    Seq::new(n, |i: int| ' ')
}

/// `s` padded with spaces on the right to `width` characters, as
/// `format!("{:<width$}", s)` does.
pub open spec fn pad_right(s: Seq<char>, width: nat) -> Seq<char> {
    if s.len() < width {
        s + spaces((width - s.len()) as nat)
    } else {
        s
    }
}

/// `s` padded with spaces on the right to `width` characters.
pub fn pad_to_width(s: &str, width: usize) -> (r: String)
    ensures
        r@ == pad_right(s@, width as nat),
{
    let mut r = String::new();
    push_str(&mut r, s);
    let len = crate::text::chars_of(s).len();
    let mut k = len;
    while k < width
        invariant
            len == s@.len(),
            len <= k <= width || (k == len && len >= width),
            r@ == s@ + spaces((k - len) as nat),
        decreases width - k,
    {
        crate::text::push_char(&mut r, ' ');
        assert(r@ =~= s@ + spaces((k + 1 - len) as nat));
        k = k + 1;
    }
    assert(s@ + spaces(0) =~= s@);
    r
}

/// The title of the session list.
pub fn dashboard_title(session_count: usize) -> (t: String)
    ensures
        t@ == " amux local | "@ + decimal(session_count as nat) + " sessions "@,
{
    let mut t = String::new();
    push_str(&mut t, " amux local | ");
    push_decimal(&mut t, session_count as u64);
    push_str(&mut t, " sessions ");
    assert(t@ =~= " amux local | "@ + decimal(session_count as nat) + " sessions "@);
    t
}

/// The dashboard's footer: the message and the controls.
pub fn dashboard_footer(message: &str) -> (f: String)
    ensures
        f@ == " "@ + message@
            + " | q/Esc quit | r refresh | j/k select | Enter attach | mouse click/wheel "@,
{
    let mut f = String::new();
    push_str(&mut f, " ");
    push_str(&mut f, message);
    push_str(&mut f, " | q/Esc quit | r refresh | j/k select | Enter attach | mouse click/wheel ");
    assert(f@ =~= " "@ + message@
        + " | q/Esc quit | r refresh | j/k select | Enter attach | mouse click/wheel "@);
    f
}

/// A session's name as listed: padded to 20 characters.
pub fn session_name_column(session: &Session) -> (c: String)
    ensures
        c@ == pad_right(session.name@, 20),
{
    pad_to_width(session.name.as_str(), 20)
}

/// A session's window count as listed: two spaces, the count, `w`.
pub fn session_windows_column(session: &Session) -> (c: String)
    ensures
        c@ == "  "@ + decimal(session.windows as nat) + "w"@,
{
    let mut c = String::new();
    push_str(&mut c, "  ");
    push_decimal(&mut c, session.windows as u64);
    push_str(&mut c, "w");
    assert(c@ =~= "  "@ + decimal(session.windows as nat) + "w"@);
    c
}

} // verus!
