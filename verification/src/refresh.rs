//! Refreshing the session view, one tmux round trip at a time: resize the
//! window to fit the body, list the panes, resize once more when the pane
//! layout changed the size that fits, and capture every pane.

use vstd::prelude::*;

use crate::geometry::{content_size, rect_fits, tmux_content_size_for_body, Rect};
use crate::model::Pane;
use crate::session_view::{accepted, CaptureRequest, SessionViewState};

verus! {

/// Where a refresh stands. While it waits for the second resize and the
/// second listing it keeps the first listing, which it falls back to.
pub enum RefreshStage {
    Resizing,
    Listing,
    Restabilizing(Vec<Pane>),
    Relisting(Vec<Pane>),
    Done,
}

/// What the refresh asks for next.
pub enum RefreshAction {
    /// Resize the session's window to `(width, height)` and report the
    /// outcome as `Resized`.
    Resize(u16, u16),
    /// List the session's panes and report the outcome as `Listed`.
    ListPanes,
    /// Capture each of these panes and store each capture; the refresh is
    /// over and the view goes on.
    Capture(Vec<CaptureRequest>),
    /// The session is gone: leave the view.
    End,
}

/// What tmux answered.
pub enum RefreshEvent {
    Resized(Result<(), String>),
    Listed(Result<Vec<Pane>, String>),
}

/// A refresh of the session view for the body `body`, which first asked
/// for the window size `requested`.
pub struct Refresh {
    body: Rect,
    requested: (u16, u16),
    stage: RefreshStage,
}

/// The size that fits `panes` in `body`, as tmux cells.
pub open spec fn fitting_size(body: Rect, panes: Seq<Pane>) -> (u16, u16) {
    (content_size(body, panes).0 as u16, content_size(body, panes).1 as u16)
}

/// `new` is `old` with the message `message`.
pub open spec fn only_message(old: SessionViewState, new: SessionViewState, message: Seq<char>) -> bool {
    &&& new.message@ == message
    &&& new.panes == old.panes
    &&& new.selected_pane == old.selected_pane
    &&& new.captures == old.captures
    &&& new.scroll_offsets.view_map() == old.scroll_offsets.view_map()
    &&& new.command_mode == old.command_mode
    &&& new.session == old.session
}

/// `new` is `old`.
pub open spec fn unchanged(old: SessionViewState, new: SessionViewState) -> bool {
    only_message(old, new, old.message@)
}

/// `new` is `old` without panes, captures or selection.
pub open spec fn cleared(old: SessionViewState, new: SessionViewState) -> bool {
    &&& new.panes@.len() == 0
    &&& new.captures@.len() == 0
    &&& new.selected_pane == 0
    &&& new.message == old.message
    &&& new.scroll_offsets.view_map() == old.scroll_offsets.view_map()
    &&& new.command_mode == old.command_mode
    &&& new.session == old.session
}

/// The message after a resize: unchanged, or the failure.
pub open spec fn after_resize(message: Seq<char>, outcome: Result<(), String>) -> Seq<char> {
    match outcome {
        Ok(()) => message,
        Err(e) => "resize failed: "@ + e@,
    }
}

/// The view takes in `panes` and asks for their captures.
pub open spec fn captures_listing(
    old: SessionViewState,
    message: Seq<char>,
    new: SessionViewState,
    panes: Seq<Pane>,
    body: Rect,
    action: RefreshAction,
) -> bool {
    match action {
        RefreshAction::Capture(requests) => accepted(old, message, new, panes, body, requests@),
        _ => false,
    }
}

/// One step of a refresh, from the stage `stage` and tmux's answer `event`
/// to the next stage, the view `new` and the next action.
pub open spec fn refresh_step(
    body: Rect,
    requested: (u16, u16),
    stage: RefreshStage,
    old: SessionViewState,
    event: RefreshEvent,
    next: RefreshStage,
    new: SessionViewState,
    action: RefreshAction,
) -> bool {
    match (stage, event) {
        (RefreshStage::Resizing, RefreshEvent::Resized(outcome)) => {
            &&& next is Listing
            &&& action is ListPanes
            &&& only_message(old, new, after_resize(old.message@, outcome))
        },
        (RefreshStage::Listing, RefreshEvent::Listed(Err(_))) => {
            &&& next is Done
            &&& action is End
            &&& cleared(old, new)
        },
        (RefreshStage::Listing, RefreshEvent::Listed(Ok(panes))) => if panes@.len() == 0 {
            &&& next is Done
            &&& action is End
            &&& unchanged(old, new)
        } else if fitting_size(body, panes@) != requested {
            &&& next matches RefreshStage::Restabilizing(first) && first@ == panes@
            &&& action == RefreshAction::Resize(fitting_size(body, panes@).0, fitting_size(body, panes@).1)
            &&& unchanged(old, new)
        } else {
            &&& next is Done
            &&& captures_listing(old, old.message@, new, panes@, body, action)
        },
        (RefreshStage::Restabilizing(first), RefreshEvent::Resized(Ok(()))) => {
            &&& next matches RefreshStage::Relisting(kept) && kept@ == first@
            &&& action is ListPanes
            &&& unchanged(old, new)
        },
        (RefreshStage::Restabilizing(first), RefreshEvent::Resized(Err(e))) => {
            &&& next is Done
            &&& captures_listing(old, "resize failed: "@ + e@, new, first@, body, action)
        },
        (RefreshStage::Relisting(first), RefreshEvent::Listed(listed)) => {
            let panes = match listed {
                Ok(p) => if p@.len() > 0 {
                    p@
                } else {
                    first@
                },
                Err(_) => first@,
            };
            &&& next is Done
            &&& captures_listing(old, old.message@, new, panes, body, action)
        },
        _ => {
            &&& next is Done
            &&& action is End
            &&& unchanged(old, new)
        },
    }
}

/// How far a refresh has come; every step goes further.
pub open spec fn stage_rank(stage: RefreshStage) -> int {
    match stage {
        RefreshStage::Resizing => 0,
        RefreshStage::Listing => 1,
        RefreshStage::Restabilizing(_) => 2,
        RefreshStage::Relisting(_) => 3,
        RefreshStage::Done => 4,
    }
}

impl Refresh {
    #[verifier::type_invariant]
    closed spec fn body_fits(self) -> bool {
        rect_fits(self.body)
    }

    /// The body the refresh fits the window to.
    pub closed spec fn spec_body(self) -> Rect {
        self.body
    }

    /// The window size the refresh first asked for.
    pub closed spec fn spec_requested(self) -> (u16, u16) {
        self.requested
    }

    /// Where the refresh stands.
    pub closed spec fn spec_stage(self) -> RefreshStage {
        self.stage
    }

    /// Starts a refresh of `state` for the body `body`: first resize the
    /// window to what fits the panes shown now.
    pub fn start(state: &SessionViewState, body: Rect) -> (r: (Refresh, RefreshAction))
        requires
            rect_fits(body),
        ensures
            r.0.spec_body() == body,
            r.0.spec_requested() == fitting_size(body, state.panes@),
            r.0.spec_stage() is Resizing,
            r.1 == RefreshAction::Resize(r.0.spec_requested().0, r.0.spec_requested().1),
    {
        let requested = tmux_content_size_for_body(body, state.panes.as_slice());
        let refresh = Refresh { body, requested, stage: RefreshStage::Resizing };
        (refresh, RefreshAction::Resize(requested.0, requested.1))
    }

    /// Takes in tmux's answer to the last action and returns the next one.
    pub fn step(self, state: &mut SessionViewState, event: RefreshEvent) -> (r: (Refresh, RefreshAction))
        ensures
            r.0.spec_body() == self.spec_body(),
            r.0.spec_requested() == self.spec_requested(),
            refresh_step(
                self.spec_body(),
                self.spec_requested(),
                self.spec_stage(),
                *old(state),
                event,
                r.0.spec_stage(),
                *final(state),
                r.1,
            ),
            stage_rank(r.0.spec_stage()) > stage_rank(self.spec_stage()) || r.0.spec_stage() is Done,
    {
        proof {
            use_type_invariant(&self);
        }
        let body = self.body;
        let requested = self.requested;
        let (stage, action) = match self.stage {
            RefreshStage::Resizing => match event {
                RefreshEvent::Resized(outcome) => {
                    if let Err(e) = outcome {
                        state.note_resize_failure(e.as_str());
                    }
                    (RefreshStage::Listing, RefreshAction::ListPanes)
                },
                RefreshEvent::Listed(_) => (RefreshStage::Done, RefreshAction::End),
            },
            RefreshStage::Listing => match event {
                RefreshEvent::Listed(Err(_)) => {
                    state.clear_panes();
                    (RefreshStage::Done, RefreshAction::End)
                },
                RefreshEvent::Listed(Ok(panes)) => {
                    if panes.len() == 0 {
                        (RefreshStage::Done, RefreshAction::End)
                    } else {
                        let stable = tmux_content_size_for_body(body, panes.as_slice());
                        if stable.0 != requested.0 || stable.1 != requested.1 {
                            (RefreshStage::Restabilizing(panes), RefreshAction::Resize(stable.0, stable.1))
                        } else {
                            let requests = state.accept_panes(panes, body);
                            (RefreshStage::Done, RefreshAction::Capture(requests))
                        }
                    }
                },
                RefreshEvent::Resized(_) => (RefreshStage::Done, RefreshAction::End),
            },
            RefreshStage::Restabilizing(first) => match event {
                RefreshEvent::Resized(Ok(())) => (RefreshStage::Relisting(first), RefreshAction::ListPanes),
                RefreshEvent::Resized(Err(e)) => {
                    state.note_resize_failure(e.as_str());
                    let requests = state.accept_panes(first, body);
                    (RefreshStage::Done, RefreshAction::Capture(requests))
                },
                RefreshEvent::Listed(_) => (RefreshStage::Done, RefreshAction::End),
            },
            RefreshStage::Relisting(first) => match event {
                RefreshEvent::Listed(listed) => {
                    let panes = match listed {
                        Ok(p) => if p.len() > 0 {
                            p
                        } else {
                            first
                        },
                        Err(_) => first,
                    };
                    let requests = state.accept_panes(panes, body);
                    (RefreshStage::Done, RefreshAction::Capture(requests))
                },
                RefreshEvent::Resized(_) => (RefreshStage::Done, RefreshAction::End),
            },
            RefreshStage::Done => (RefreshStage::Done, RefreshAction::End),
        };
        (Refresh { body, requested, stage }, action)
    }
}

} // verus!
