//! Multi-decree Flexible Paxos. One object plays three roles: the leader,
//! which hands out slots; the acceptor, which promises and accepts; and one
//! commander per slot being coordinated, which counts the accepts.

use crate::id::ProcessId;
use crate::seq_lemmas::lemma_full_prefix;
use crate::seq_lemmas::lemma_prefix_to_set_step;
use crate::std_ext::clone_process_set;
use std::collections::HashMap;
use std::collections::HashSet;
use vstd::prelude::*;

verus! {

broadcast use vstd::std_specs::hash::group_hash_axioms;

/// Priority of a proposal.
pub type Ballot = u64;

/// Index into the replicated log.
pub type Slot = u64;

/// The ballot in which a value was accepted, and the value.
pub type Accepted<V> = (Ballot, V);

/// What an acceptor has accepted, per slot.
pub type AcceptedSlots<V> = HashMap<Slot, Accepted<V>>;

/// Messages of the multi-decree synod.
#[derive(Debug, Clone, PartialEq, Eq)]
pub enum MultiSynodMessage<V> {
    /// A value was chosen at a slot; handled by the user of the synod.
    MChosen(Slot, V),
    /// A submission made at a non-leader; to be sent to the leader by the
    /// user of the synod.
    MForwardSubmit(V),
    /// Request to start coordinating a slot; handled locally.
    MSpawnCommander(Ballot, Slot, V),
    /// Phase-1 request, for the acceptor.
    MPrepare(Ballot),
    /// Phase-2 request, for the acceptor.
    MAccept(Ballot, Slot, V),
    /// Phase-1 reply, for the leader.
    MPromise(Ballot, AcceptedSlots<V>),
    /// Phase-2 reply, for the commander of the slot.
    MAccepted(Ballot, Slot),
}

/// Mathematical model of a message: an accepted-slots table is a map.
pub enum MultiSynodMessageView<V> {
    MChosen(Slot, V),
    MForwardSubmit(V),
    MSpawnCommander(Ballot, Slot, V),
    MPrepare(Ballot),
    MAccept(Ballot, Slot, V),
    MPromise(Ballot, Map<Slot, Accepted<V>>),
    MAccepted(Ballot, Slot),
}

impl<V> View for MultiSynodMessage<V> {
    type V = MultiSynodMessageView<V>;

    open spec fn view(&self) -> MultiSynodMessageView<V> {
        match *self {
            MultiSynodMessage::MChosen(slot, value) => MultiSynodMessageView::MChosen(slot, value),
            MultiSynodMessage::MForwardSubmit(value) => MultiSynodMessageView::MForwardSubmit(
                value,
            ),
            MultiSynodMessage::MSpawnCommander(b, slot, value) => {
                MultiSynodMessageView::MSpawnCommander(b, slot, value)
            },
            MultiSynodMessage::MPrepare(b) => MultiSynodMessageView::MPrepare(b),
            MultiSynodMessage::MAccept(b, slot, value) => MultiSynodMessageView::MAccept(
                b,
                slot,
                value,
            ),
            MultiSynodMessage::MPromise(b, accepted) => MultiSynodMessageView::MPromise(
                b,
                accepted@,
            ),
            MultiSynodMessage::MAccepted(b, slot) => MultiSynodMessageView::MAccepted(b, slot),
        }
    }
}

/// Mathematical model of a commander: the ballot and value it watches and
/// the processes whose accepts it has recorded.
pub struct CommanderView<V> {
    pub ballot: Ballot,
    pub value: V,
    pub accepts: Set<ProcessId>,
}

/// Mathematical model of a `MultiSynod`.
pub struct MultiSynodView<V> {
    /// Number of processes.
    pub n: usize,
    /// Number of tolerated failures; `f + 1` accepts choose a value.
    pub f: usize,
    /// Whether this process believes itself to be the leader.
    pub is_leader: bool,
    /// Ballot the leader puts in its accepts.
    pub leader_ballot: Ballot,
    /// Last slot the leader handed out.
    pub last_slot: Slot,
    /// Ballot the acceptor has joined.
    pub ballot: Ballot,
    /// What the acceptor has accepted.
    pub accepted: Map<Slot, Accepted<V>>,
    /// The commanders alive, by slot.
    pub commanders: Map<Slot, CommanderView<V>>,
}

impl<V> MultiSynodView<V> {
    /// The state of a process that was just created.
    pub open spec fn initial(
        process_id: ProcessId,
        initial_leader: ProcessId,
        n: usize,
        f: usize,
    ) -> MultiSynodView<V> {
        MultiSynodView {
            n,
            f,
            is_leader: process_id == initial_leader,
            leader_ballot: if process_id == initial_leader {
                process_id
            } else {
                0
            },
            last_slot: 0,
            ballot: initial_leader,
            accepted: Map::empty(),
            commanders: Map::empty(),
        }
    }

    /// Every commander alive still misses an accept: one that has `f + 1`
    /// is destroyed at once.
    pub open spec fn wf(self) -> bool {
        &&& self.f < usize::MAX
        &&& forall|slot: Slot| #[trigger]
            self.commanders.contains_key(slot) ==> {
                &&& self.commanders[slot].accepts.finite()
                &&& self.commanders[slot].accepts.len() <= self.f
            }
    }

    /// The state after the acceptor handled a prepare for ballot `b`.
    pub open spec fn prepared(self, b: Ballot) -> MultiSynodView<V> {
        if b > self.ballot {
            MultiSynodView { ballot: b, ..self }
        } else {
            self
        }
    }

    /// The state after the acceptor handled an accept of `value` at `slot`
    /// in ballot `b`.
    pub open spec fn accepted_at(self, b: Ballot, slot: Slot, value: V) -> MultiSynodView<V> {
        if b >= self.ballot {
            MultiSynodView { ballot: b, accepted: self.accepted.insert(slot, (b, value)), ..self }
        } else {
            self
        }
    }

    /// Whether the commander of `slot` exists and watches ballot `b`.
    pub open spec fn watches(self, b: Ballot, slot: Slot) -> bool {
        self.commanders.contains_key(slot) && self.commanders[slot].ballot == b
    }

    /// Whether an accept from `from` for ballot `b` completes the quorum of
    /// the commander of `slot`.
    pub open spec fn completes(self, from: ProcessId, b: Ballot, slot: Slot) -> bool {
        self.watches(b, slot) && self.commanders[slot].accepts.insert(from).len() == self.f + 1
    }

    /// The state after the commander of `slot` handled an accept from `from`
    /// for ballot `b`.
    pub open spec fn accept_counted(self, from: ProcessId, b: Ballot, slot: Slot) -> MultiSynodView<
        V,
    > {
        if self.completes(from, b, slot) {
            MultiSynodView { commanders: self.commanders.remove(slot), ..self }
        } else if self.watches(b, slot) {
            MultiSynodView {
                commanders: self.commanders.insert(
                    slot,
                    CommanderView {
                        accepts: self.commanders[slot].accepts.insert(from),
                        ..self.commanders[slot]
                    },
                ),
                ..self
            }
        } else {
            self
        }
    }

    /// What a submission of `value` leads to: at the leader, the next slot
    /// is taken and a commander is to be spawned for it; elsewhere the
    /// value is to be forwarded to the leader.
    pub open spec fn submitted(self, value: V) -> (Self, MultiSynodMessageView<V>) {
        if self.is_leader {
            let slot = (self.last_slot + 1) as u64;
            (
                MultiSynodView { last_slot: slot, ..self },
                MultiSynodMessageView::MSpawnCommander(self.leader_ballot, slot, value),
            )
        } else {
            (self, MultiSynodMessageView::MForwardSubmit(value))
        }
    }

    /// Whether `handle` accepts `msg` in this state. Promises, and the two
    /// messages meant for the user of the synod, are not handled; a commander
    /// is spawned only for a slot that has none.
    pub open spec fn handles(self, msg: MultiSynodMessageView<V>) -> bool {
        match msg {
            MultiSynodMessageView::MSpawnCommander(_, slot, _) => !self.commanders.contains_key(
                slot,
            ),
            MultiSynodMessageView::MPrepare(_) => true,
            MultiSynodMessageView::MAccept(_, _, _) => true,
            MultiSynodMessageView::MAccepted(_, _) => true,
            MultiSynodMessageView::MPromise(_, _) => false,
            MultiSynodMessageView::MChosen(_, _) => false,
            MultiSynodMessageView::MForwardSubmit(_) => false,
        }
    }
}

/// The transition relation of `MultiSynod::handle`: process in state `pre`
/// handles `msg` sent by `from`, moves to `post` and replies `out`.
///
/// The only freedom is in spawning a commander, which keeps a clone of the
/// value it is given.
pub open spec fn handled<V: Clone>(
    pre: MultiSynodView<V>,
    from: ProcessId,
    msg: MultiSynodMessageView<V>,
    post: MultiSynodView<V>,
    out: Option<MultiSynodMessageView<V>>,
) -> bool {
    match msg {
        MultiSynodMessageView::MSpawnCommander(b, slot, value) => {
            &&& out == Some(MultiSynodMessageView::MAccept(b, slot, value))
            &&& post.commanders.dom() == pre.commanders.dom().insert(slot)
            &&& post.commanders[slot].ballot == b
            &&& cloned(value, post.commanders[slot].value)
            &&& post.commanders[slot].accepts == Set::<ProcessId>::empty()
            &&& post == MultiSynodView {
                commanders: pre.commanders.insert(slot, post.commanders[slot]),
                ..pre
            }
        },
        MultiSynodMessageView::MPrepare(b) => {
            &&& post == pre.prepared(b)
            &&& out == if b > pre.ballot {
                Some(MultiSynodMessageView::MPromise(b, pre.accepted))
            } else {
                None
            }
        },
        MultiSynodMessageView::MAccept(b, slot, value) => {
            &&& post == pre.accepted_at(b, slot, value)
            &&& out == if b >= pre.ballot {
                Some(MultiSynodMessageView::<V>::MAccepted(b, slot))
            } else {
                None
            }
        },
        MultiSynodMessageView::MAccepted(b, slot) => {
            &&& post == pre.accept_counted(from, b, slot)
            &&& out == if pre.completes(from, b, slot) {
                Some(MultiSynodMessageView::MChosen(slot, pre.commanders[slot].value))
            } else {
                None
            }
        },
        _ => false,
    }
}

/// A value is chosen only by the accept that completes the quorum of the
/// slot's commander, and it is the value that commander watches. Choosing
/// destroys the commander: after it, every further accept for the slot,
/// from any process and for any ballot, is dropped and changes nothing.
pub proof fn law_chosen_destroys_commander<V: Clone>(
    pre: MultiSynodView<V>,
    from: ProcessId,
    b: Ballot,
    slot: Slot,
    post: MultiSynodView<V>,
    out: Option<MultiSynodMessageView<V>>,
)
    requires
        pre.wf(),
        handled(pre, from, MultiSynodMessageView::MAccepted(b, slot), post, out),
        out.is_some(),
    ensures
        pre.completes(from, b, slot),
        out == Some(MultiSynodMessageView::MChosen(slot, pre.commanders[slot].value)),
        !post.commanders.contains_key(slot),
        forall|from2: ProcessId, b2: Ballot, post2: MultiSynodView<V>, out2: Option<MultiSynodMessageView<V>>|
            #[trigger] handled(post, from2, MultiSynodMessageView::MAccepted(b2, slot), post2, out2)
                ==> out2.is_none() && post2 == post,
{
}

/// While a commander is alive, the ballot and the value it watches never
/// change: whatever is handled, a commander that is there before and after
/// still watches what it did. So all that can ever be chosen at a slot,
/// until a new commander is spawned for it, is the one value its commander
/// was spawned with.
pub proof fn law_commander_watches_one_value<V: Clone>(
    pre: MultiSynodView<V>,
    from: ProcessId,
    msg: MultiSynodMessageView<V>,
    post: MultiSynodView<V>,
    out: Option<MultiSynodMessageView<V>>,
    slot: Slot,
)
    requires
        pre.wf(),
        pre.handles(msg),
        handled(pre, from, msg, post, out),
        pre.commanders.contains_key(slot),
        post.commanders.contains_key(slot),
    ensures
        post.commanders[slot].value == pre.commanders[slot].value,
        post.commanders[slot].ballot == pre.commanders[slot].ballot,
        pre.commanders[slot].accepts.subset_of(post.commanders[slot].accepts),
{
}

/// Handling a message keeps the model well formed.
pub proof fn law_handled_preserves_wf<V: Clone>(
    pre: MultiSynodView<V>,
    from: ProcessId,
    msg: MultiSynodMessageView<V>,
    post: MultiSynodView<V>,
    out: Option<MultiSynodMessageView<V>>,
)
    requires
        pre.wf(),
        pre.handles(msg),
        handled(pre, from, msg, post, out),
    ensures
        post.wf(),
{
    match msg {
        MultiSynodMessageView::MAccepted(b, slot) => {
            if pre.watches(b, slot) && !pre.completes(from, b, slot) {
                let before = pre.commanders[slot].accepts;
                assert(before.insert(from).len() <= before.len() + 1);
            }
        },
        _ => {},
    }
}

/// The leader hands out each slot once: a submission takes the slot after
/// the last one handed out, and nothing that is handled moves that mark. So
/// no two submissions get the same slot, and no slot gets a second
/// commander from the leader's own submissions.
pub proof fn law_slots_are_handed_out_once<V: Clone>(
    pre: MultiSynodView<V>,
    from: ProcessId,
    msg: MultiSynodMessageView<V>,
    post: MultiSynodView<V>,
    out: Option<MultiSynodMessageView<V>>,
    value: V,
)
    requires
        handled(pre, from, msg, post, out),
    ensures
        post.last_slot == pre.last_slot,
        post.is_leader == pre.is_leader,
        post.leader_ballot == pre.leader_ballot,
        pre.is_leader && pre.last_slot < u64::MAX ==> pre.submitted(value).0.last_slot
            == pre.last_slot + 1 && pre.submitted(value).1 == MultiSynodMessageView::MSpawnCommander(
            pre.leader_ballot,
            (pre.last_slot + 1) as u64,
            value,
        ),
        !pre.is_leader ==> pre.submitted(value) == (
            pre,
            MultiSynodMessageView::MForwardSubmit(value),
        ),
{
}

/// The acceptor never goes back: its ballot only grows, whatever it handles.
pub proof fn law_ballot_never_decreases<V: Clone>(
    pre: MultiSynodView<V>,
    from: ProcessId,
    msg: MultiSynodMessageView<V>,
    post: MultiSynodView<V>,
    out: Option<MultiSynodMessageView<V>>,
)
    requires
        handled(pre, from, msg, post, out),
    ensures
        pre.ballot <= post.ballot,
{
}

/// Implementation of Flexible multi-decree Paxos in which phase 1 waits for
/// `n - f` promises and phase 2 waits for `f + 1` accepts.
#[derive(Clone)]
pub struct MultiSynod<V> {
    // number of processes
    n: usize,
    // maximum number of allowed failures
    f: usize,
    // paxos agents
    leader: Leader,
    acceptor: Acceptor<V>,
    commanders: HashMap<Slot, Commander<V>>,
}

impl<V> View for MultiSynod<V> {
    type V = MultiSynodView<V>;

    closed spec fn view(&self) -> MultiSynodView<V> {
        MultiSynodView {
            n: self.n,
            f: self.f,
            is_leader: self.leader.is_leader,
            leader_ballot: self.leader.ballot,
            last_slot: self.leader.last_slot,
            ballot: self.acceptor.ballot,
            accepted: self.acceptor.accepted@,
            commanders: Map::new(
                |slot: Slot| self.commanders@.contains_key(slot),
                |slot: Slot| self.commanders@[slot]@,
            ),
        }
    }
}

impl<V: Clone> MultiSynod<V> {
    /// The invariant of the synod: its model is well formed and every
    /// commander counts towards the same `f`.
    pub closed spec fn wf(&self) -> bool {
        &&& self@.wf()
        &&& forall|slot: Slot| #[trigger]
            self.commanders@.contains_key(slot) ==> self.commanders@[slot].f == self.f
    }

    /// Creates a new `MultiSynod` instance.
    pub fn new(process_id: ProcessId, initial_leader: ProcessId, n: usize, f: usize) -> (synod:
        Self)
        requires
            f < usize::MAX,
        ensures
            synod.wf(),
            synod@ == MultiSynodView::<V>::initial(process_id, initial_leader, n, f),
    {
        let synod = Self {
            n,
            f,
            leader: Leader::new(process_id, initial_leader),
            acceptor: Acceptor::new(initial_leader),
            commanders: HashMap::new(),
        };
        assert(synod@.commanders =~= Map::empty());
        synod
    }

    /// Submits a value. At the leader this takes a fresh slot and asks for a
    /// commander to be spawned for it; the request is to be handled locally,
    /// possibly by another local instance. Elsewhere the value is to be
    /// forwarded to the leader.
    pub fn submit(&mut self, value: V) -> (msg: MultiSynodMessage<V>)
        requires
            old(self).wf(),
            old(self)@.is_leader ==> old(self)@.last_slot < u64::MAX,
        ensures
            final(self).wf(),
            (final(self)@, msg@) == old(self)@.submitted(value),
    {
        if let Some((ballot, slot)) = self.leader.try_submit() {
            // if we're the leader, create a spawn commander message:
            // - this message is to be handled locally, but it can be handled in
            //   a different local multi-synod process for parallelism
            MultiSynodMessage::MSpawnCommander(ballot, slot, value)
        } else {
            // if we're not the leader, then create an `MForwardSubmit` to be
            // sent to the leader
            MultiSynodMessage::MForwardSubmit(value)
        }
    }

    /// Whether the synod handles `msg` in its state: see
    /// `MultiSynodView::handles`.
    pub fn handles(&self, msg: &MultiSynodMessage<V>) -> (ok: bool)
        ensures
            ok == self@.handles(msg@),
    {
        match msg {
            MultiSynodMessage::MSpawnCommander(_, slot, _) => !self.commanders.contains_key(slot),
            MultiSynodMessage::MPrepare(_) => true,
            MultiSynodMessage::MAccept(_, _, _) => true,
            MultiSynodMessage::MAccepted(_, _) => true,
            _ => false,
        }
    }

    /// Handles the messages generated by this module by forwarding them to
    /// the proper agent.
    pub fn handle(&mut self, from: ProcessId, msg: MultiSynodMessage<V>) -> (out: Option<
        MultiSynodMessage<V>,
    >)
        requires
            old(self).wf(),
            old(self)@.handles(msg@),
        ensures
            final(self).wf(),
            handled(
                old(self)@,
                from,
                msg@,
                final(self)@,
                match out {
                    Some(m) => Some(m@),
                    None => None,
                },
            ),
    {
        match msg {
            // handle spawn commander
            MultiSynodMessage::MSpawnCommander(b, slot, value) => {
                let maccept = self.handle_spawn_commander(b, slot, value);
                Some(maccept)
            },
            // handle messages to acceptor
            MultiSynodMessage::MPrepare(b) => {
                let out = self.acceptor.handle_prepare(b);
                assert(final(self)@.commanders =~= old(self)@.commanders);
                out
            },
            MultiSynodMessage::MAccept(b, slot, value) => {
                let out = self.acceptor.handle_accept(b, slot, value);
                assert(final(self)@.commanders =~= old(self)@.commanders);
                out
            },
            // handle messages to commanders
            MultiSynodMessage::MAccepted(b, slot) => self.handle_maccepted(from, b, slot),
            _ => {
                proof {
                    assert(false);
                }
                None
            },
        }
    }

    /// Performs garbage collection of stable slots: what the acceptor has
    /// accepted at them is forgotten.
    pub fn gc(&mut self, stable: Vec<u64>)
        requires
            old(self).wf(),
        ensures
            final(self).wf(),
            final(self)@ == (MultiSynodView {
                accepted: old(self)@.accepted.remove_keys(stable@.to_set()),
                ..old(self)@
            }),
    {
        self.acceptor.gc(stable);
        assert(final(self)@.commanders =~= old(self)@.commanders);
    }

    fn handle_spawn_commander(&mut self, ballot: Ballot, slot: Slot, value: V) -> (out:
        MultiSynodMessage<V>)
        requires
            old(self).wf(),
            !old(self)@.commanders.contains_key(slot),
        ensures
            final(self).wf(),
            handled(
                old(self)@,
                0,
                MultiSynodMessageView::MSpawnCommander(ballot, slot, value),
                final(self)@,
                Some(out@),
            ),
    {
        // create a new commander
        let commander = Commander::spawn(self.f, ballot, value.clone());
        let ghost spawned = commander@;
        // update list of commander
        let res = self.commanders.insert(slot, commander);
        assert(final(self)@.commanders =~= old(self)@.commanders.insert(slot, spawned));
        assert(final(self)@.commanders.dom() =~= old(self)@.commanders.dom().insert(slot));
        // create the accept message
        MultiSynodMessage::MAccept(ballot, slot, value)
    }

    fn handle_maccepted(&mut self, from: ProcessId, ballot: Ballot, slot: Slot) -> (out: Option<
        MultiSynodMessage<V>,
    >)
        requires
            old(self).wf(),
        ensures
            final(self).wf(),
            handled(
                old(self)@,
                from,
                MultiSynodMessageView::MAccepted(ballot, slot),
                final(self)@,
                match out {
                    Some(m) => Some(m@),
                    None => None,
                },
            ),
    {
        // get the commander of this slot:
        match self.commanders.remove(&slot) {
            Some(commander) => {
                let mut commander = commander;
                assert(old(self)@.commanders.contains_key(slot));
                assert(commander@ == old(self)@.commanders[slot]);
                let chosen = commander.handle_accepted(from, ballot);
                // if the commander has gathered enough accepts, then
                // the value for this slot is chosen
                if chosen {
                    // destroy commander and get the value that was
                    // being watched
                    let value = commander.destroy();
                    assert(final(self)@.commanders =~= old(self)@.commanders.remove(slot));
                    // create chosen message
                    Some(MultiSynodMessage::MChosen(slot, value))
                } else {
                    let ghost counted = commander@;
                    self.commanders.insert(slot, commander);
                    proof {
                        if ballot == counted.ballot {
                            assert(final(self)@.commanders =~= old(self)@.commanders.insert(
                                slot,
                                counted,
                            ));
                        } else {
                            assert(final(self)@.commanders =~= old(self)@.commanders);
                        }
                    }
                    None
                }
            },
            None => {
                // ignore message if commander does not exist
                assert(final(self)@.commanders =~= old(self)@.commanders);
                None
            },
        }
    }
}

#[derive(Clone)]
struct Leader {
    // process identifier
    process_id: ProcessId,
    // flag indicating whether we're the leader
    is_leader: bool,
    // ballot to be used in accept messages
    ballot: Ballot,
    // last slot used in accept messages
    last_slot: Slot,
}

impl Leader {
    /// Creates a new leader.
    fn new(process_id: ProcessId, initial_leader: ProcessId) -> (leader: Self)
        ensures
            leader.process_id == process_id,
            leader.is_leader == (process_id == initial_leader),
            leader.ballot == if process_id == initial_leader {
                process_id
            } else {
                0
            },
            leader.last_slot == 0,
    {
        // we're leader if the identifier of the initial leader is us
        let is_leader = process_id == initial_leader;
        // if we're the leader, then use as initial ballot our id, which will
        // automatically be joined by all acceptors on bootstrap
        let ballot = if is_leader {
            process_id
        } else {
            0
        };
        // last slot is 0
        let last_slot: Slot = 0;
        Self { process_id, is_leader, ballot, last_slot }
    }

    /// Tries to submit a command. If we're the leader, then the leader ballot
    /// and a new slot will be returned.
    fn try_submit(&mut self) -> (res: Option<(Ballot, Slot)>)
        requires
            old(self).is_leader ==> old(self).last_slot < u64::MAX,
        ensures
            old(self).is_leader ==> {
                &&& res == Some((old(self).ballot, (old(self).last_slot + 1) as u64))
                &&& *final(self) == (Leader {
                    last_slot: (old(self).last_slot + 1) as u64,
                    ..*old(self)
                })
            },
            !old(self).is_leader ==> res.is_none() && *final(self) == *old(self),
    {
        if self.is_leader {
            // increase slot
            self.last_slot = self.last_slot + 1;
            // return ballot and slot
            Some((self.ballot, self.last_slot))
        } else {
            None
        }
    }
}

struct Commander<V> {
    // maximum number of allowed failures
    f: usize,
    // ballot prepared by the leader
    ballot: Ballot,
    // value sent in the accept
    value: V,
    // set of processes that have accepted the accept
    accepts: HashSet<ProcessId>,
}

impl<V> View for Commander<V> {
    type V = CommanderView<V>;

    closed spec fn view(&self) -> CommanderView<V> {
        CommanderView { ballot: self.ballot, value: self.value, accepts: self.accepts@ }
    }
}

impl<V: Clone> Clone for Commander<V> {
    fn clone(&self) -> (copy: Self)
        ensures
            copy.tolerated() == self.tolerated(),
            copy@.ballot == self@.ballot,
            copy@.accepts == self@.accepts,
            cloned(self@.value, copy@.value),
    {
        Self {
            f: self.f,
            ballot: self.ballot,
            value: self.value.clone(),
            accepts: clone_process_set(&self.accepts),
        }
    }
}

impl<V> Commander<V> {
    /// The number of failures that the commander tolerates.
    pub closed spec fn tolerated(&self) -> usize {
        self.f
    }
}

impl<V: Clone> Commander<V> {
    // Spawns a new commander to watch accepts on some slot.
    fn spawn(f: usize, ballot: Ballot, value: V) -> (commander: Self)
        ensures
            commander.f == f,
            commander@ == (CommanderView { ballot, value, accepts: Set::<ProcessId>::empty() }),
    {
        Self { f, ballot, value, accepts: HashSet::new() }
    }

    // Processes an accepted message, returning a bool indicating whether we
    // have enough accepts.
    fn handle_accepted(&mut self, from: ProcessId, b: Ballot) -> (chosen: bool)
        requires
            old(self).f < usize::MAX,
            old(self)@.accepts.finite(),
        ensures
            final(self).f == old(self).f,
            old(self)@.ballot == b ==> {
                &&& final(self)@ == (CommanderView {
                    accepts: old(self)@.accepts.insert(from),
                    ..old(self)@
                })
                &&& chosen == (old(self)@.accepts.insert(from).len() == old(self).f + 1)
            },
            old(self)@.ballot != b ==> !chosen && final(self)@ == old(self)@,
    {
        // check if it's an accept about the current ballot (so that we only
        // process accepts about the current ballot)
        if self.ballot == b {
            // if yes, update set of accepts
            self.accepts.insert(from);

            // check if we have enough (i.e. f + 1) accepts
            self.accepts.len() == self.f + 1
        } else {
            false
        }
    }

    // Destroys the commander, returning the value being watched. This is to
    // be called once `handle_accepted` returns true.
    fn destroy(self) -> (value: V)
        requires
            self@.accepts.len() == self.f + 1,
        ensures
            value == self@.value,
    {
        self.value
    }
}

#[derive(Clone)]
struct Acceptor<Value> {
    ballot: Ballot,
    accepted: HashMap<Slot, Accepted<Value>>,
}

impl<V: Clone> Acceptor<V> {
    // Creates a new acceptor given the initial leader.
    // The acceptor immediately joins the first ballot of this leader, i.e. its
    // identifer.
    fn new(initial_leader: ProcessId) -> (acceptor: Self)
        ensures
            acceptor.ballot == initial_leader,
            acceptor.accepted@ == Map::<Slot, Accepted<V>>::empty(),
    {
        Self { ballot: initial_leader, accepted: HashMap::new() }
    }

    // The reply to this prepare request contains:
    // - a promise to never accept a proposal numbered less than `b`
    // - the non-GCed proposals accepted at ballots less than `b`, if any
    fn handle_prepare(&mut self, b: Ballot) -> (out: Option<MultiSynodMessage<V>>)
        ensures
            final(self).accepted@ == old(self).accepted@,
            b > old(self).ballot ==> {
                &&& final(self).ballot == b
                &&& out matches Some(m)
                &&& m@ == MultiSynodMessageView::MPromise(b, old(self).accepted@)
            },
            b <= old(self).ballot ==> final(self).ballot == old(self).ballot && out.is_none(),
    {
        // since we need to promise that we won't accept any proposal numbered
        // less then `b`, there's no point in letting such proposal be
        // prepared, and so, we ignore such prepares
        if b > self.ballot {
            // update current ballot
            self.ballot = b;
            // create promise message
            let promise = MultiSynodMessage::MPromise(b, self.accepted.clone());
            Some(promise)
        } else {
            None
        }
    }

    fn handle_accept(&mut self, b: Ballot, slot: Slot, value: V) -> (out: Option<
        MultiSynodMessage<V>,
    >)
        ensures
            b >= old(self).ballot ==> {
                &&& final(self).ballot == b
                &&& final(self).accepted@ == old(self).accepted@.insert(slot, (b, value))
                &&& out matches Some(m)
                &&& m@ == MultiSynodMessageView::<V>::MAccepted(b, slot)
            },
            b < old(self).ballot ==> {
                &&& final(self).ballot == old(self).ballot
                &&& final(self).accepted@ == old(self).accepted@
                &&& out.is_none()
            },
    {
        if b >= self.ballot {
            // update current ballot
            self.ballot = b;
            // update the accepted value for `slot`
            self.accepted.insert(slot, (b, value));
            // create accepted message
            let accepted = MultiSynodMessage::MAccepted(b, slot);
            Some(accepted)
        } else {
            None
        }
    }

    /// Performs garbage collection of stable slots.
    fn gc(&mut self, stable: Vec<u64>)
        ensures
            final(self).ballot == old(self).ballot,
            final(self).accepted@ == old(self).accepted@.remove_keys(stable@.to_set()),
    {
        let mut i: usize = 0;
        while i < stable.len()
            invariant
                i <= stable.len(),
                self.ballot == old(self).ballot,
                self.accepted@ == old(self).accepted@.remove_keys(
                    stable@.subrange(0, i as int).to_set(),
                ),
            decreases stable.len() - i,
        {
            let slot = stable[i];
            self.accepted.remove(&slot);
            proof {
                lemma_prefix_to_set_step(stable@, i as int);
            }
            assert(self.accepted@ =~= old(self).accepted@.remove_keys(
                stable@.subrange(0, i + 1).to_set(),
            ));
            i = i + 1;
        }
        proof {
            lemma_full_prefix(stable@);
        }
    }
}

} // verus!
