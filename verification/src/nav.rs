//! The navigation state machine of the interactive session.
//!
//! The session is either browsing a directory, with a stack of the
//! directories it descended from, or it has exited.  A user choice drives
//! one transition: `-1` ascends (a silent no-op at the root of the
//! session), `0` exits, an index into the listing descends into a
//! directory entry (and does nothing on a file entry), and anything else
//! is an invalid choice that leaves the state unchanged.

use vstd::prelude::*;
use crate::entry::{Entry, EntryKind};

verus! {

/// The state of the interactive session.
pub enum NavState {
    /// Browsing `current`, with the directories ascents would return to.
    Browsing { current: String, history: Vec<String> },
    /// The session is over; no transition leaves this state.
    Exited,
}

/// The mathematical shadow of `NavState`: the history as a sequence.
pub enum NavModel {
    Browsing { current: String, history: Seq<String> },
    Exited,
}

impl View for NavState {
    type V = NavModel;

    open spec fn view(&self) -> NavModel {
        match self {
            NavState::Browsing { current, history } => NavModel::Browsing {
                current: *current,
                history: history@,
            },
            NavState::Exited => NavModel::Exited,
        }
    }
}

/// One transition of the state machine: the state after the choice, and
/// whether the choice was invalid (out of range) and should be reported.
pub open spec fn nav_step_spec(s: NavModel, choice: int, listing: Seq<Entry>) -> (NavModel, bool) {
    match s {
        NavModel::Exited => (s, false),
        NavModel::Browsing { current, history } => {
            if choice == -1 {
                if history.len() > 0 {
                    (
                        NavModel::Browsing {
                            current: history.last(),
                            history: history.drop_last(),
                        },
                        false,
                    )
                } else {
                    (s, false)
                }
            } else if choice == 0 {
                (NavModel::Exited, false)
            } else if 1 <= choice && choice <= listing.len() {
                if listing[choice - 1].kind is Directory {
                    (
                        NavModel::Browsing {
                            current: listing[choice - 1].path,
                            history: history.push(current),
                        },
                        false,
                    )
                } else {
                    (s, false)
                }
            } else {
                (s, true)
            }
        },
    }
}

/// Performs one transition on the owned state: consumes it and returns the
/// next state together with the invalid-choice flag, exactly as
/// `nav_step_spec` describes.
pub fn nav_step(state: NavState, choice: isize, listing: &Vec<Entry>) -> (r: (NavState, bool))
    ensures
        (r.0@, r.1) == nav_step_spec(state@, choice as int, listing@),
{
    match state {
        NavState::Exited => (NavState::Exited, false),
        NavState::Browsing { current, mut history } => {
            if choice == -1 {
                match history.pop() {
                    Some(prev) => (NavState::Browsing { current: prev, history }, false),
                    None => (NavState::Browsing { current, history }, false),
                }
            } else if choice == 0 {
                (NavState::Exited, false)
            } else if 1 <= choice && (choice as usize) <= listing.len() {
                let idx: usize = (choice as usize) - 1;
                let chosen = &listing[idx];
                match chosen.kind {
                    EntryKind::Directory => {
                        let path = chosen.path.clone();
                        history.push(current);
                        (NavState::Browsing { current: path, history }, false)
                    },
                    EntryKind::File => (NavState::Browsing { current, history }, false),
                }
            } else {
                (NavState::Browsing { current, history }, true)
            }
        },
    }
}

/// The transition on a listing or aggregation failure: it is fatal, so
/// whatever state the session was in, it ends.
pub open spec fn nav_fail_spec(s: NavModel) -> NavModel {
    NavModel::Exited
}

/// Ends the session on a listing or aggregation failure, exactly as
/// `nav_fail_spec` describes.
pub fn nav_fail(state: NavState) -> (r: NavState)
    ensures
        r@ == nav_fail_spec(state@),
{
    match state {
        NavState::Browsing { .. } => NavState::Exited,
        NavState::Exited => NavState::Exited,
    }
}

/// Ascending at the root of the session: with the starting directory as
/// the only history element, one ascent stays in the same directory with
/// the history emptied, and a further ascent changes nothing.
pub proof fn lemma_ascend_at_root(d: String, listing: Seq<Entry>)
    ensures
        ({
            let s0 = NavModel::Browsing { current: d, history: seq![d] };
            let (s1, invalid1) = nav_step_spec(s0, -1, listing);
            let (s2, invalid2) = nav_step_spec(s1, -1, listing);
            s1 == NavModel::Browsing { current: d, history: Seq::<String>::empty() }
                && !invalid1 && s2 == s1 && !invalid2
        }),
{
    assert(seq![d].drop_last() =~= Seq::<String>::empty());
}

} // verus!
