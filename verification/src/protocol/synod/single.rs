//! Single-decree Flexible Paxos: one instance agrees on one value. The
//! acceptor and the proposer of a process live in one object. Recovery
//! (phase 1 at the proposer) is not part of it.

use crate::id::ProcessId;
use crate::protocol::synod::multi::Accepted;
use crate::protocol::synod::multi::Ballot;
use crate::std_ext::clone_process_set;
use std::collections::HashSet;
use vstd::prelude::*;

verus! {

broadcast use vstd::std_specs::hash::group_hash_axioms;

/// Messages of the single-decree synod.
#[derive(Debug, PartialEq, Eq)]
pub enum SynodMessage<V> {
    /// The value was chosen; handled by the user of the synod.
    MChosen(V),
    /// Phase-1 request, for the acceptor.
    MPrepare(Ballot),
    /// Phase-2 request, for the acceptor.
    MAccept(Ballot, V),
    /// Phase-1 reply, for the proposer.
    MPromise(Ballot, Accepted<V>),
    /// Phase-2 reply, for the proposer.
    MAccepted(Ballot),
}

impl<V: Clone> Clone for SynodMessage<V> {
    fn clone(&self) -> (copy: Self) {
        match self {
            SynodMessage::MChosen(value) => SynodMessage::MChosen(value.clone()),
            SynodMessage::MPrepare(b) => SynodMessage::MPrepare(*b),
            SynodMessage::MAccept(b, value) => SynodMessage::MAccept(*b, value.clone()),
            SynodMessage::MPromise(b, previous) => SynodMessage::MPromise(
                *b,
                (previous.0, previous.1.clone()),
            ),
            SynodMessage::MAccepted(b) => SynodMessage::MAccepted(*b),
        }
    }
}

/// Mathematical model of a `Synod`.
pub struct SynodView<V> {
    pub process_id: ProcessId,
    /// Number of processes.
    pub n: usize,
    /// Number of tolerated failures; `f + 1` accepts choose the value.
    pub f: usize,
    /// Ballot the acceptor has joined; 0 until it accepts or promises.
    pub ballot: Ballot,
    /// The value of the acceptor and the ballot it was accepted in.
    pub accepted: Accepted<V>,
    /// Ballot of the proposer; 0 until it proposes.
    pub proposer_ballot: Ballot,
    /// The processes whose accepts the proposer has recorded.
    pub accepts: Set<ProcessId>,
    /// Whether the value is known to be chosen.
    pub chosen: bool,
}

impl<V> SynodView<V> {
    /// The state of an instance that was just created.
    pub open spec fn initial(process_id: ProcessId, n: usize, f: usize, value: V) -> SynodView<V> {
        SynodView {
            process_id,
            n,
            f,
            ballot: 0,
            accepted: (0, value),
            proposer_ballot: 0,
            accepts: Set::empty(),
            chosen: false,
        }
    }

    /// The invariant of the model.
    pub open spec fn wf(self) -> bool {
        self.f < usize::MAX && self.accepts.finite()
    }

    /// Whether an accept from `from` for ballot `b` completes the quorum of
    /// the proposer.
    pub open spec fn completes(self, from: ProcessId, b: Ballot) -> bool {
        self.proposer_ballot == b && self.accepts.insert(from).len() == self.f + 1
    }
}

/// The transition relation of `Synod::handle`: an instance in state `pre`
/// handles `msg` sent by `from`, moves to `post` and replies `out`.
///
/// The only freedom is in the copies of the acceptor's value that go into
/// promises and into chosen messages: they are clones of it.
pub open spec fn synod_handled<V: Clone>(
    pre: SynodView<V>,
    from: ProcessId,
    msg: SynodMessage<V>,
    post: SynodView<V>,
    out: Option<SynodMessage<V>>,
) -> bool {
    match msg {
        SynodMessage::MChosen(value) => {
            &&& post == SynodView { chosen: true, accepted: (pre.accepted.0, value), ..pre }
            &&& out.is_none()
        },
        SynodMessage::MPrepare(b) => {
            if b > pre.ballot {
                &&& post == SynodView { ballot: b, ..pre }
                &&& out matches Some(SynodMessage::MPromise(promised, previous))
                &&& promised == b
                &&& previous.0 == pre.accepted.0
                &&& cloned(pre.accepted.1, previous.1)
            } else {
                post == pre && out.is_none()
            }
        },
        SynodMessage::MAccept(b, value) => {
            if pre.chosen {
                &&& post == pre
                &&& out matches Some(SynodMessage::MChosen(chosen))
                &&& cloned(pre.accepted.1, chosen)
            } else if b >= pre.ballot {
                &&& post == SynodView { ballot: b, accepted: (b, value), ..pre }
                &&& out == Some(SynodMessage::<V>::MAccepted(b))
            } else {
                post == pre && out.is_none()
            }
        },
        SynodMessage::MAccepted(b) => {
            if pre.proposer_ballot == b {
                &&& post == SynodView { accepts: pre.accepts.insert(from), ..pre }
                &&& if pre.completes(from, b) {
                    &&& out matches Some(SynodMessage::MChosen(chosen))
                    &&& cloned(pre.accepted.1, chosen)
                } else {
                    out.is_none()
                }
            } else {
                post == pre && out.is_none()
            }
        },
        SynodMessage::MPromise(_, _) => false,
    }
}

/// One instance of single-decree Flexible Paxos.
pub struct Synod<V> {
    process_id: ProcessId,
    n: usize,
    f: usize,
    // acceptor: the ballot joined and the value accepted
    ballot: Ballot,
    accepted: Accepted<V>,
    // proposer: its ballot and the accepts it has recorded
    proposer_ballot: Ballot,
    accepts: HashSet<ProcessId>,
    // whether the value is known to be chosen
    chosen: bool,
}

impl<V> View for Synod<V> {
    type V = SynodView<V>;

    closed spec fn view(&self) -> SynodView<V> {
        SynodView {
            process_id: self.process_id,
            n: self.n,
            f: self.f,
            ballot: self.ballot,
            accepted: self.accepted,
            proposer_ballot: self.proposer_ballot,
            accepts: self.accepts@,
            chosen: self.chosen,
        }
    }
}

impl<V: Clone> Clone for Synod<V> {
    fn clone(&self) -> (copy: Self)
        ensures
            copy@.accepted.0 == self@.accepted.0,
            cloned(self@.accepted.1, copy@.accepted.1),
            copy@ == (SynodView { accepted: copy@.accepted, ..self@ }),
    {
        Synod {
            process_id: self.process_id,
            n: self.n,
            f: self.f,
            ballot: self.ballot,
            accepted: (self.accepted.0, self.accepted.1.clone()),
            proposer_ballot: self.proposer_ballot,
            accepts: clone_process_set(&self.accepts),
            chosen: self.chosen,
        }
    }
}

impl<V: Clone> Synod<V> {
    /// Creates the instance of process `process_id`, with `initial_value` as
    /// the value of its acceptor.
    pub fn new(process_id: ProcessId, n: usize, f: usize, initial_value: V) -> (synod: Self)
        requires
            f < usize::MAX,
        ensures
            synod@ == SynodView::initial(process_id, n, f, initial_value),
            synod@.wf(),
    {
        Synod {
            process_id,
            n,
            f,
            ballot: 0,
            accepted: (0, initial_value),
            proposer_ballot: 0,
            accepts: HashSet::new(),
            chosen: false,
        }
    }

    /// Sets the consensus value to what `value_gen` makes, if the acceptor
    /// has not joined any ballot yet; `value_gen` is called only then. Says
    /// whether the value was set.
    pub fn maybe_set_value<F: FnOnce() -> V>(&mut self, value_gen: F) -> (set: bool)
        requires
            old(self)@.ballot == 0 ==> call_requires(value_gen, ()),
        ensures
            set == (old(self)@.ballot == 0),
            set ==> call_ensures(value_gen, (), final(self)@.accepted.1),
            final(self)@ == if set {
                SynodView { accepted: (0, final(self)@.accepted.1), ..old(self)@ }
            } else {
                old(self)@
            },
    {
        if self.ballot == 0 {
            self.accepted = (0, value_gen());
            true
        } else {
            false
        }
    }

    /// Returns the current consensus value (not necessarily accepted).
    pub fn value(&self) -> (value: &V)
        ensures
            *value == self@.accepted.1,
    {
        &self.accepted.1
    }

    /// The ballot the acceptor has joined.
    pub fn ballot(&self) -> (ballot: Ballot)
        ensures
            ballot == self@.ballot,
    {
        self.ballot
    }

    /// Whether the value is known to be chosen.
    pub fn is_chosen(&self) -> (chosen: bool)
        ensures
            chosen == self@.chosen,
    {
        self.chosen
    }

    /// Skips phase 1: the proposer takes the first ballot of this process,
    /// its identifier, which every acceptor lets through as long as it has
    /// joined no higher ballot.
    pub fn skip_prepare(&mut self) -> (ballot: Ballot)
        ensures
            ballot == old(self)@.process_id,
            final(self)@ == (SynodView { proposer_ballot: ballot, ..old(self)@ }),
    {
        self.proposer_ballot = self.process_id;
        self.proposer_ballot
    }

    /// Handles a message of the synod. Promises are not handled.
    pub fn handle(&mut self, from: ProcessId, msg: SynodMessage<V>) -> (out: Option<
        SynodMessage<V>,
    >)
        requires
            old(self)@.wf(),
            !(msg is MPromise),
        ensures
            final(self)@.wf(),
            synod_handled(old(self)@, from, msg, final(self)@, out),
    {
        match msg {
            // the value was chosen
            SynodMessage::MChosen(value) => {
                self.chosen = true;
                self.accepted = (self.accepted.0, value);
                None
            },
            // messages to the acceptor
            SynodMessage::MPrepare(b) => {
                if b > self.ballot {
                    self.ballot = b;
                    Some(SynodMessage::MPromise(b, (self.accepted.0, self.accepted.1.clone())))
                } else {
                    None
                }
            },
            SynodMessage::MAccept(b, value) => {
                if self.chosen {
                    // the value has already been chosen
                    Some(SynodMessage::MChosen(self.accepted.1.clone()))
                } else if b >= self.ballot {
                    self.ballot = b;
                    self.accepted = (b, value);
                    Some(SynodMessage::MAccepted(b))
                } else {
                    // ballot too low to be accepted
                    None
                }
            },
            // messages to the proposer
            SynodMessage::MAccepted(b) => {
                if self.proposer_ballot == b {
                    self.accepts.insert(from);
                    if self.accepts.len() == self.f + 1 {
                        Some(SynodMessage::MChosen(self.accepted.1.clone()))
                    } else {
                        None
                    }
                } else {
                    None
                }
            },
            SynodMessage::MPromise(_, _) => None,
        }
    }
}

/// Once the value is known to be chosen, no accept changes it: the instance
/// answers every accept with the chosen value and stays as it is.
pub proof fn law_chosen_value_is_final<V: Clone>(
    pre: SynodView<V>,
    from: ProcessId,
    b: Ballot,
    value: V,
    post: SynodView<V>,
    out: Option<SynodMessage<V>>,
)
    requires
        pre.chosen,
        synod_handled(pre, from, SynodMessage::MAccept(b, value), post, out),
    ensures
        post == pre,
        out matches Some(SynodMessage::MChosen(chosen)) && cloned(pre.accepted.1, chosen),
{
}

/// The acceptor never goes back: whatever is handled, its ballot does not
/// decrease, and a value once known to be chosen stays known to be.
pub proof fn law_synod_progress<V: Clone>(
    pre: SynodView<V>,
    from: ProcessId,
    msg: SynodMessage<V>,
    post: SynodView<V>,
    out: Option<SynodMessage<V>>,
)
    requires
        synod_handled(pre, from, msg, post, out),
    ensures
        pre.ballot <= post.ballot,
        pre.chosen ==> post.chosen,
        pre.accepts.subset_of(post.accepts),
{
}

/// A value is reported chosen by the proposer only on the accept that brings
/// the number of distinct accepting processes to `f + 1`.
pub proof fn law_chosen_needs_quorum<V: Clone>(
    pre: SynodView<V>,
    from: ProcessId,
    b: Ballot,
    post: SynodView<V>,
    out: Option<SynodMessage<V>>,
)
    requires
        pre.wf(),
        synod_handled(pre, from, SynodMessage::MAccepted(b), post, out),
        out.is_some(),
    ensures
        post.accepts.len() == pre.f + 1,
        post.accepts.contains(from),
        pre.proposer_ballot == b,
{
}

} // verus!
