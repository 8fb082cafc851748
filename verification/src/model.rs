//! Targets, sessions and panes as the client sees them.

use vstd::prelude::*;

verus! {

/// Where sessions run.
#[derive(Debug, Clone, PartialEq, Eq)]
pub struct Target {
    pub id: String,
    pub label: String,
    pub kind: TargetKind,
}

/// The kind of a target.
#[derive(Debug, Clone, Copy, PartialEq, Eq)]
pub enum TargetKind {
    Local,
}

impl TargetKind {
    /// The name under which the kind is shown.
    pub fn as_str(&self) -> (s: &'static str)
        ensures
            s@ == "local"@,
    {
        match self {
            TargetKind::Local => "local",
        }
    }
}

impl Target {
    /// The local machine, with a stable id.
    pub fn local() -> (t: Target)
        ensures
            t.id@ == "local"@,
            t.label@ == "Local machine"@,
            t.kind == TargetKind::Local,
    {
        Target { id: "local".to_owned(), label: "Local machine".to_owned(), kind: TargetKind::Local }
    }
}

/// A persistent workspace entry (a tmux session).
#[derive(Debug, Clone, PartialEq, Eq)]
pub struct Session {
    pub id: String,
    pub name: String,
    pub windows: usize,
    pub attached: bool,
}

/// How a session's attachment is shown.
pub open spec fn status_text(attached: bool) -> Seq<char> {
    if attached {
        "attached"@
    } else {
        "detached"@
    }
}

/// A session is listed as `attached` when a client is attached to it and
/// as `detached` otherwise.
pub proof fn lemma_status_words()
    ensures
        status_text(true) == "attached"@,
        status_text(false) == "detached"@,
{
}

impl Session {
    /// `attached` when a client is attached to the session, else `detached`.
    pub fn display_status(&self) -> (s: &'static str)
        ensures
            s@ == status_text(self.attached),
    {
        if self.attached {
            "attached"
        } else {
            "detached"
        }
    }
}

/// An interactive process surface inside a session (a tmux pane), with its
/// geometry in tmux's cell coordinates.
#[derive(Debug, Clone, PartialEq, Eq)]
pub struct Pane {
    pub id: String,
    pub index: usize,
    pub active: bool,
    pub current_command: String,
    pub current_path: String,
    pub width: usize,
    pub height: usize,
    pub left: usize,
    pub top: usize,
    pub cursor_x: usize,
    pub cursor_y: usize,
    pub cursor_visible: bool,
}

/// The direction in which a pane is split.
#[derive(Debug, Clone, Copy, PartialEq, Eq, Structural)]
pub enum SplitDirection {
    Right,
    Down,
}

} // verus!
