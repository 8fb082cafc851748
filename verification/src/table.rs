//! The tab-separated tables that the command line prints.

use vstd::prelude::*;

use crate::model::{status_text, Session, Target};
use crate::text::{decimal, push_decimal, push_str};

verus! {

/// The header of the target table.
pub const TARGET_HEADER: &'static str = "ID\tKIND\tLABEL";

/// The header of the session table.
pub const SESSION_HEADER: &'static str = "ID\tNAME\tWINDOWS\tSTATUS";

/// A target's row: id, kind, label.
pub fn target_row(target: &Target) -> (row: String)
    ensures
        row@ == target.id@ + seq!['\t'] + "local"@ + seq!['\t'] + target.label@,
{
    let mut row = String::new();
    push_str(&mut row, target.id.as_str());
    push_str(&mut row, "\t");
    push_str(&mut row, target.kind.as_str());
    push_str(&mut row, "\t");
    push_str(&mut row, target.label.as_str());
    proof {
        reveal_strlit("\t");
    }
    assert(row@ =~= target.id@ + seq!['\t'] + "local"@ + seq!['\t'] + target.label@);
    row
}

/// A session's row: id, name, window count, status.
pub fn session_row(session: &Session) -> (row: String)
    ensures
        row@ == session.id@ + seq!['\t'] + session.name@ + seq!['\t'] + decimal(
            session.windows as nat,
        ) + seq!['\t'] + status_text(session.attached),
{
    let mut row = String::new();
    push_str(&mut row, session.id.as_str());
    push_str(&mut row, "\t");
    push_str(&mut row, session.name.as_str());
    push_str(&mut row, "\t");
    push_decimal(&mut row, session.windows as u64);
    push_str(&mut row, "\t");
    push_str(&mut row, session.display_status());
    proof {
        reveal_strlit("\t");
    }
    assert(row@ =~= session.id@ + seq!['\t'] + session.name@ + seq!['\t'] + decimal(
        session.windows as nat,
    ) + seq!['\t'] + status_text(session.attached));
    row
}

} // verus!
