//! Vector clocks and above-exception clocks over process identifiers.
//!
//! The clocks themselves are those of the `threshold` crate. This module
//! declares them and states, function by function, what the crate's code
//! does to what they hold. Of the functions marked `external_body` nothing
//! is proved: the contract of each says what the crate's function does,
//! and the rest of the module, and of the library, is proved against these
//! contracts.

use crate::id::is_process;
use crate::id::lemma_process_ids_to_set;
use crate::id::process_ids;
use crate::id::ProcessId;
use crate::seq_lemmas::lemma_full_prefix;
use vstd::prelude::*;

verus! {

/// A vector clock over process identifiers: `threshold::VClock`.
#[verifier::external_body]
#[derive(Debug, PartialEq, Eq)]
pub struct VClock {
    inner: threshold::VClock<ProcessId>,
}

/// An above-exception clock over process identifiers: `threshold::AEClock`.
/// For each actor it keeps the events seen, as the highest event below which
/// none is missing and the set of events seen above it.
#[verifier::external_body]
#[derive(Debug, PartialEq, Eq)]
pub struct AEClock {
    inner: threshold::AEClock<ProcessId>,
}

/// What a vector clock holds: for each actor it has an entry for, the
/// highest event of that actor (the field `max` of its `MaxSet`).
pub uninterp spec fn frontiers(clock: VClock) -> Map<ProcessId, u64>;

/// What an above-exception clock holds: for each actor it has an entry for,
/// the events `e` of that actor, those for which `AboveExSet::is_event(e)`
/// holds. Event 0 is always among them.
pub uninterp spec fn events(clock: AEClock) -> Map<ProcessId, Set<u64>>;

/// The field `max` of each entry of an above-exception clock: what
/// `AboveExSet::frontier` returns for it.
pub uninterp spec fn contiguous(clock: AEClock) -> Map<ProcessId, u64>;

/// The entry of `actor` in a vector clock, an actor without entry counting as
/// one that has no event.
pub open spec fn frontier_of(clock: Map<ProcessId, u64>, actor: ProcessId) -> u64 {
    if clock.contains_key(actor) {
        clock[actor]
    } else {
        0
    }
}

/// The pointwise maximum of two vector clocks.
pub open spec fn joined(a: Map<ProcessId, u64>, b: Map<ProcessId, u64>) -> Map<ProcessId, u64> {
    Map::new(
        |actor: ProcessId| a.contains_key(actor) || b.contains_key(actor),
        |actor: ProcessId|
            if frontier_of(a, actor) >= frontier_of(b, actor) {
                frontier_of(a, actor)
            } else {
                frontier_of(b, actor)
            },
    )
}

/// A vector clock with event `seq` of `actor` added.
pub open spec fn with_event(clock: Map<ProcessId, u64>, actor: ProcessId, seq: u64) -> Map<
    ProcessId,
    u64,
> {
    clock.insert(
        actor,
        if frontier_of(clock, actor) >= seq {
            frontier_of(clock, actor)
        } else {
            seq
        },
    )
}

/// The clock that has an entry without events for each of `actors`.
pub open spec fn bottom(actors: Set<ProcessId>) -> Map<ProcessId, u64> {
    Map::new(|actor: ProcessId| actors.contains(actor), |actor: ProcessId| 0u64)
}

/// `Clock::with` on a list of actors, for a vector clock: one entry for each
/// actor of the list, none with an event.
#[verifier::external_body]
pub(crate) fn vclock_with(actors: &Vec<ProcessId>) -> (clock: VClock)
    ensures
        frontiers(clock) == bottom(actors@.to_set()),
{
    VClock { inner: threshold::VClock::with(actors.iter().cloned()) }
}

impl Clone for VClock {
    /// `Clone::clone` of the vector clock: the copy holds the same entries.
    #[verifier::external_body]
    fn clone(&self) -> (copy: Self)
        ensures
            frontiers(copy) == frontiers(*self),
    {
        VClock { inner: self.inner.clone() }
    }
}

/// `PartialEq::eq` of two vector clocks, which is the equality of their hash
/// maps: same actors, same maximum for each.
#[verifier::external_body]
pub(crate) fn vclock_eq(a: &VClock, b: &VClock) -> (equal: bool)
    ensures
        equal == (frontiers(*a) == frontiers(*b)),
{
    a == b
}

/// `Clock::join` of two vector clocks: afterwards `clock` has an entry for
/// each actor that either had one for, with the higher of the two maxima.
#[verifier::external_body]
pub(crate) fn vclock_join(clock: &mut VClock, other: &VClock)
    ensures
        frontiers(*final(clock)) == joined(frontiers(*old(clock)), frontiers(*other)),
{
    clock.inner.join(&other.inner)
}

/// `Clock::add` on a vector clock: the entry of `actor` becomes `seq` if
/// that is higher than what it was (or if there was none); the result says
/// whether the event was new.
#[verifier::external_body]
pub(crate) fn vclock_add(clock: &mut VClock, actor: ProcessId, seq: u64) -> (added: bool)
    ensures
        frontiers(*final(clock)) == with_event(frontiers(*old(clock)), actor, seq),
        added == (!frontiers(*old(clock)).contains_key(actor) || seq > frontiers(
            *old(clock),
        )[actor]),
{
    clock.inner.add(&actor, seq)
}

/// `Clock::get` on a vector clock, followed by `MaxSet::frontier` on the
/// entry found: the maximum of `actor`, if the clock has an entry for it.
#[verifier::external_body]
pub(crate) fn vclock_get(clock: &VClock, actor: ProcessId) -> (frontier: Option<u64>)
    ensures
        frontier == if frontiers(*clock).contains_key(actor) {
            Some(frontiers(*clock)[actor])
        } else {
            None
        },
{
    clock.inner.get(&actor).map(|entry| threshold::EventSet::frontier(entry))
}

/// `Clock::iter` on a vector clock, of which the actors are kept: each
/// actor that the clock has an entry for, once. The crate walks a hash map,
/// so nothing is said of the order.
#[verifier::external_body]
pub(crate) fn vclock_actors(clock: &VClock) -> (actors: Vec<ProcessId>)
    ensures
        actors@.no_duplicates(),
        actors@.to_set() == frontiers(*clock).dom(),
{
    clock.inner.iter().map(|(actor, _)| *actor).collect()
}

/// The events of `actor` in an above-exception clock, an actor without
/// entry counting as one that has no event but 0.
pub open spec fn events_of(clock: Map<ProcessId, Set<u64>>, actor: ProcessId) -> Set<u64> {
    if clock.contains_key(actor) {
        clock[actor]
    } else {
        set![0u64]
    }
}

/// `Clock::with` on a list of actors, for an above-exception clock: one
/// entry for each actor of the list, none with an event but 0.
#[verifier::external_body]
pub(crate) fn aeclock_with(actors: &Vec<ProcessId>) -> (clock: AEClock)
    ensures
        events(clock) == Map::new(
            |actor: ProcessId| actors@.to_set().contains(actor),
            |actor: ProcessId| set![0u64],
        ),
        contiguous(clock) == bottom(actors@.to_set()),
{
    AEClock { inner: threshold::AEClock::with(actors.iter().cloned()) }
}

impl Clone for AEClock {
    /// `Clone::clone` of the above-exception clock: the copy holds the same
    /// entries.
    #[verifier::external_body]
    fn clone(&self) -> (copy: Self)
        ensures
            events(copy) == events(*self),
            contiguous(copy) == contiguous(*self),
    {
        AEClock { inner: self.inner.clone() }
    }
}

/// `Clock::add` on an above-exception clock. The event joins those of
/// `actor`, whose entry is created if there was none; the result says
/// whether the entry or the event was new. The entry's `max` moves only when the event is the
/// one right above it: it then climbs over the events that follow without
/// a gap. The crate computes `max + 1`, so the last event of `u64` is left
/// out.
#[verifier::external_body]
pub(crate) fn aeclock_add(clock: &mut AEClock, actor: ProcessId, seq: u64) -> (added: bool)
    requires
        seq < u64::MAX,
        frontier_of(contiguous(*old(clock)), actor) < u64::MAX,
        !events_of(events(*old(clock)), actor).contains(u64::MAX),
    ensures
        added == (!events(*old(clock)).contains_key(actor) || !events(*old(clock))[actor].contains(
            seq,
        )),
        events(*final(clock)) == events(*old(clock)).insert(
            actor,
            events_of(events(*old(clock)), actor).insert(seq),
        ),
        contiguous(*final(clock)).contains_key(actor),
        contiguous(*final(clock)) == contiguous(*old(clock)).insert(
            actor,
            contiguous(*final(clock))[actor],
        ),
        seq != frontier_of(contiguous(*old(clock)), actor) + 1 ==> contiguous(
            *final(clock),
        )[actor] == frontier_of(contiguous(*old(clock)), actor),
        seq == frontier_of(contiguous(*old(clock)), actor) + 1 ==> {
            &&& contiguous(*final(clock))[actor] >= seq
            &&& forall|k: u64|
                seq <= k <= contiguous(*final(clock))[actor] ==> #[trigger] events(
                    *final(clock),
                )[actor].contains(k)
            &&& !events(*final(clock))[actor].contains(
                (contiguous(*final(clock))[actor] + 1) as u64,
            )
        },
{
    clock.inner.add(&actor, seq)
}

/// `Clock::frontier` of an above-exception clock: the vector clock that
/// holds, for each actor, the `max` of its entry.
#[verifier::external_body]
pub(crate) fn aeclock_frontier(clock: &AEClock) -> (frontier: VClock)
    ensures
        frontiers(frontier) == contiguous(*clock),
{
    VClock { inner: clock.inner.frontier() }
}

/// The actors whose entry in `frontier` is at least `v`.
pub open spec fn at_least(frontier: Map<ProcessId, u64>, v: u64) -> Set<ProcessId> {
    frontier.dom().filter(|actor: ProcessId| frontier[actor] >= v)
}

/// The actors whose entry in `frontier` is above `v`.
pub open spec fn above(frontier: Map<ProcessId, u64>, v: u64) -> Set<ProcessId> {
    frontier.dom().filter(|actor: ProcessId| frontier[actor] > v)
}

/// Whether `v` is the entry that stands at place `threshold` when the
/// entries of `frontier` are put in decreasing order: at least `threshold`
/// actors have reached `v`, and fewer than `threshold` are beyond it.
pub open spec fn threshold_frontier(frontier: Map<ProcessId, u64>, threshold: usize, v: u64)
    -> bool {
    &&& frontier.dom().finite()
    &&& threshold <= frontier.dom().len()
    &&& at_least(frontier, v).len() >= threshold
    &&& above(frontier, v).len() < threshold
}

/// `Clock::frontier_threshold` on an above-exception clock. The crate sorts
/// the `max` of the entries and takes the one at place `threshold` from
/// the highest; there is none when the clock has fewer entries than that.
/// In a debug build the crate panics on a threshold of 0.
#[verifier::external_body]
pub(crate) fn aeclock_frontier_threshold(clock: &AEClock, threshold: usize) -> (res: Option<u64>)
    requires
        threshold > 0,
    ensures
        match res {
            Some(v) => threshold_frontier(contiguous(*clock), threshold, v),
            None => contiguous(*clock).dom().finite() && threshold > contiguous(
                *clock,
            ).dom().len(),
        },
{
    clock.inner.frontier_threshold(threshold)
}

/// Whether `frontier` is, for each actor of `events`, the event up to which
/// none is missing: all events up to it are among those of the actor, the
/// one after it is not. The last event of `u64` is never among them.
pub open spec fn gapless(events: Map<ProcessId, Set<u64>>, frontier: Map<ProcessId, u64>) -> bool {
    &&& events.dom() == frontier.dom()
    &&& forall|actor: ProcessId| #[trigger]
        events.contains_key(actor) ==> {
            &&& !events[actor].contains(u64::MAX)
            &&& forall|seq: u64|
                seq <= frontier[actor] ==> #[trigger] events[actor].contains(seq)
            &&& !events[actor].contains((frontier[actor] + 1) as u64)
        }
}

/// The event that at least `threshold` actors have reached without a gap
/// and fewer than `threshold` are beyond; none if the clock has fewer
/// actors than that.
pub open spec fn stable_event(frontier: Map<ProcessId, u64>, threshold: usize) -> Option<u64> {
    if threshold <= frontier.dom().len() {
        Some(choose|v: u64| threshold_frontier(frontier, threshold, v))
    } else {
        None
    }
}

/// There is one entry at most at place `threshold`.
pub proof fn lemma_threshold_frontier_unique(
    frontier: Map<ProcessId, u64>,
    threshold: usize,
    a: u64,
    b: u64,
)
    requires
        threshold_frontier(frontier, threshold, a),
        threshold_frontier(frontier, threshold, b),
    ensures
        a == b,
{
    let dom = frontier.dom();
    if a < b {
        dom.lemma_len_filter(|actor: ProcessId| frontier[actor] > a);
        assert(at_least(frontier, b).subset_of(above(frontier, a)));
        vstd::set_lib::lemma_len_subset(at_least(frontier, b), above(frontier, a));
    } else if b < a {
        dom.lemma_len_filter(|actor: ProcessId| frontier[actor] > b);
        assert(at_least(frontier, a).subset_of(above(frontier, b)));
        vstd::set_lib::lemma_len_subset(at_least(frontier, a), above(frontier, b));
    }
}

impl AEClock {
    /// The invariant of the clock: the frontier of each actor is the event
    /// up to which none is missing.
    pub open spec fn wf(&self) -> bool {
        gapless(events(*self), contiguous(*self))
    }

    /// The clock that has an entry, without events but 0, for each of
    /// `actors`.
    pub fn with_actors(actors: &Vec<ProcessId>) -> (clock: AEClock)
        ensures
            clock.wf(),
            events(clock) == Map::new(
                |actor: ProcessId| actors@.to_set().contains(actor),
                |actor: ProcessId| set![0u64],
            ),
            contiguous(clock) == bottom(actors@.to_set()),
    {
        let clock = aeclock_with(actors);
        assert(events(clock).dom() =~= contiguous(clock).dom());
        clock
    }

    /// Adds event `seq` of `actor` to the clock, and says whether the
    /// event, or the entry of the actor, was new. The frontier of the actor
    /// moves only when the event fills the place right above it.
    pub fn add(&mut self, actor: ProcessId, seq: u64) -> (added: bool)
        requires
            old(self).wf(),
            seq < u64::MAX,
        ensures
            final(self).wf(),
            added == (!events(*old(self)).contains_key(actor) || !events(
                *old(self),
            )[actor].contains(seq)),
            events(*final(self)) == events(*old(self)).insert(
                actor,
                events_of(events(*old(self)), actor).insert(seq),
            ),
            contiguous(*final(self)).contains_key(actor),
            contiguous(*final(self)) == contiguous(*old(self)).insert(
                actor,
                contiguous(*final(self))[actor],
            ),
            frontier_of(contiguous(*old(self)), actor) <= contiguous(*final(self))[actor],
    {
        let ghost before_events = events(*self);
        let ghost before = contiguous(*self);
        proof {
            if before_events.contains_key(actor) {
                assert(before.contains_key(actor));
                assert(before_events[actor].contains(before[actor]));
            } else {
                assert(!before.dom().contains(actor));
            }
        }
        let added = aeclock_add(self, actor, seq);
        proof {
            let after_events = events(*self);
            let after = contiguous(*self);
            assert(after_events.dom() =~= after.dom());
            assert forall|other: ProcessId| #[trigger] after_events.contains_key(other) implies {
                &&& !after_events[other].contains(u64::MAX)
                &&& forall|k: u64| k <= after[other] ==> #[trigger] after_events[other].contains(k)
                &&& !after_events[other].contains((after[other] + 1) as u64)
            } by {
                if other == actor {
                    let old_frontier = frontier_of(before, actor);
                    assert forall|k: u64| k <= after[actor] implies #[trigger]
                        after_events[actor].contains(k) by {
                        if k <= old_frontier {
                            if before_events.contains_key(actor) {
                                assert(before_events[actor].contains(k));
                            }
                        }
                    }
                    if seq != old_frontier + 1 {
                        if before_events.contains_key(actor) {
                            assert(!before_events[actor].contains((old_frontier + 1) as u64));
                        }
                    }
                } else {
                    assert(before_events.contains_key(other));
                    assert(after[other] == before[other]);
                }
            }
        }
        added
    }

    /// The vector clock that holds the frontier of each actor.
    pub fn frontier(&self) -> (frontier: VClock)
        ensures
            frontier@ == contiguous(*self),
    {
        aeclock_frontier(self)
    }

    /// The event that at least `threshold` actors have reached without a
    /// gap, and fewer than `threshold` are beyond; none if the clock has
    /// fewer actors than that.
    pub fn frontier_threshold(&self, threshold: usize) -> (res: Option<u64>)
        requires
            threshold > 0,
        ensures
            contiguous(*self).dom().finite(),
            res == stable_event(contiguous(*self), threshold),
            res matches Some(v) ==> threshold_frontier(contiguous(*self), threshold, v),
    {
        let res = aeclock_frontier_threshold(self, threshold);
        proof {
            if let Some(v) = res {
                let chosen = choose|v: u64| threshold_frontier(contiguous(*self), threshold, v);
                lemma_threshold_frontier_unique(contiguous(*self), threshold, v, chosen);
            }
        }
        res
    }
}

impl View for VClock {
    type V = Map<ProcessId, u64>;

    open spec fn view(&self) -> Map<ProcessId, u64> {
        frontiers(*self)
    }
}

/// The clock built by adding the events of `entries`, one after the other,
/// to a clock without entries.
pub open spec fn from_entries(entries: Seq<(ProcessId, u64)>) -> Map<ProcessId, u64>
    decreases entries.len(),
{
    if entries.len() == 0 {
        Map::empty()
    } else {
        with_event(from_entries(entries.drop_last()), entries.last().0, entries.last().1)
    }
}

/// Whether `entries` lists `clock`: each actor of the clock once, with its
/// highest event, and nothing else.
pub open spec fn listed(entries: Seq<(ProcessId, u64)>, clock: Map<ProcessId, u64>) -> bool {
    &&& forall|i: int, j: int|
        0 <= i < j < entries.len() ==> (#[trigger] entries[i]).0 != (#[trigger] entries[j]).0
    &&& forall|i: int|
        0 <= i < entries.len() ==> clock.contains_key((#[trigger] entries[i]).0) && clock[entries[i].0]
            == entries[i].1
    &&& forall|actor: ProcessId|
        clock.contains_key(actor) ==> exists|i: int|
            0 <= i < entries.len() && (#[trigger] entries[i]).0 == actor
}

/// A clock is the clock built from a list of its entries.
pub proof fn lemma_listed_entries(entries: Seq<(ProcessId, u64)>, clock: Map<ProcessId, u64>)
    requires
        listed(entries, clock),
    ensures
        from_entries(entries) == clock,
    decreases entries.len(),
{
    if entries.len() == 0 {
        assert(clock =~= Map::empty());
    } else {
        let shorter = entries.drop_last();
        let last = entries.last();
        let rest = clock.remove(last.0);
        assert forall|actor: ProcessId| rest.contains_key(actor) implies exists|i: int|
            0 <= i < shorter.len() && (#[trigger] shorter[i]).0 == actor by {
            let i = choose|i: int| 0 <= i < entries.len() && (#[trigger] entries[i]).0 == actor;
            assert(shorter[i] == entries[i]);
        }
        assert forall|i: int| 0 <= i < shorter.len() implies rest.contains_key(
            (#[trigger] shorter[i]).0,
        ) && rest[shorter[i].0] == shorter[i].1 by {
            assert(shorter[i] == entries[i]);
            assert(entries[i].0 != entries[entries.len() - 1].0);
        }
        assert forall|i: int, j: int| 0 <= i < j < shorter.len() implies (#[trigger] shorter[i]).0
            != (#[trigger] shorter[j]).0 by {
            assert(shorter[i] == entries[i]);
            assert(shorter[j] == entries[j]);
        }
        lemma_listed_entries(shorter, rest);
        assert(clock.contains_key(entries[entries.len() - 1].0));
        assert(with_event(rest, last.0, last.1) =~= clock);
    }
}

impl VClock {
    /// The clock of a system of `n` processes in which no process has an
    /// event yet.
    pub fn bottom(n: usize) -> (clock: VClock)
        ensures
            clock@ == bottom(Set::new(|id: ProcessId| is_process(n, id))),
    {
        let ids = process_ids(n);
        proof {
            lemma_process_ids_to_set(n);
            assert(ids@.to_set() =~= Set::new(|id: ProcessId| is_process(n, id)));
        }
        vclock_with(&ids)
    }

    /// The clock that holds, for each actor named in `entries`, the highest
    /// event listed for it.
    pub fn from_frontiers(entries: &Vec<(ProcessId, u64)>) -> (clock: VClock)
        ensures
            clock@ == from_entries(entries@),
    {
        let none: Vec<ProcessId> = Vec::new();
        let mut clock = vclock_with(&none);
        assert(clock@ =~= Map::empty());
        let mut i: usize = 0;
        while i < entries.len()
            invariant
                i <= entries.len(),
                clock@ == from_entries(entries@.subrange(0, i as int)),
            decreases entries.len() - i,
        {
            let (actor, seq) = entries[i];
            vclock_add(&mut clock, actor, seq);
            proof {
                let longer = entries@.subrange(0, i + 1);
                assert(longer.drop_last() =~= entries@.subrange(0, i as int));
                assert(longer.last() == entries@[i as int]);
            }
            i = i + 1;
        }
        proof {
            lemma_full_prefix(entries@);
        }
        clock
    }

    /// The entries of the clock: each actor it has an entry for, once,
    /// with its highest event. The order is not fixed.
    pub fn entries(&self) -> (entries: Vec<(ProcessId, u64)>)
        ensures
            listed(entries@, self@),
            from_entries(entries@) == self@,
    {
        let actors = vclock_actors(self);
        let mut entries: Vec<(ProcessId, u64)> = Vec::new();
        let mut i: usize = 0;
        while i < actors.len()
            invariant
                i <= actors.len(),
                actors@.no_duplicates(),
                actors@.to_set() == self@.dom(),
                entries@.len() == i,
                forall|k: int|
                    0 <= k < i ==> (#[trigger] entries@[k]).0 == actors@[k] && entries@[k].1
                        == self@[actors@[k]],
            decreases actors.len() - i,
        {
            let actor = actors[i];
            assert(actors@.to_set().contains(actor));
            entries.push((actor, self.frontier(actor)));
            i = i + 1;
        }
        proof {
            assert forall|actor: ProcessId| self@.contains_key(actor) implies exists|k: int|
                0 <= k < entries@.len() && (#[trigger] entries@[k]).0 == actor by {
                assert(actors@.to_set().contains(actor));
                let k = choose|k: int| 0 <= k < actors@.len() && actors@[k] == actor;
                assert(entries@[k].0 == actor);
            }
            assert forall|k: int| 0 <= k < entries@.len() implies self@.contains_key(
                (#[trigger] entries@[k]).0,
            ) by {
                assert(actors@.to_set().contains(actors@[k]));
            }
            lemma_listed_entries(entries@, self@);
        }
        entries
    }

    /// The highest event of `actor` in the clock; 0 if it has none.
    pub fn frontier(&self, actor: ProcessId) -> (frontier: u64)
        ensures
            frontier == frontier_of(self@, actor),
    {
        match vclock_get(self, actor) {
            Some(frontier) => frontier,
            None => 0,
        }
    }

    /// Whether event `seq` of `actor` is in the clock: the clock holds all
    /// events up to the actor's highest.
    pub fn contains(&self, actor: ProcessId, seq: u64) -> (found: bool)
        ensures
            found == (self@.contains_key(actor) && seq <= self@[actor]),
    {
        match vclock_get(self, actor) {
            Some(frontier) => seq <= frontier,
            None => false,
        }
    }

    /// Whether the two clocks hold the same entries.
    pub fn same(&self, other: &VClock) -> (equal: bool)
        ensures
            equal == (self@ == other@),
    {
        vclock_eq(self, other)
    }

    /// Merges `other` into the clock: afterwards it holds every event of
    /// either.
    pub fn join(&mut self, other: &VClock)
        ensures
            final(self)@ == joined(old(self)@, other@),
    {
        vclock_join(self, other)
    }

    /// Adds event `seq` of `actor` (and so all events of the actor up to it)
    /// to the clock.
    pub fn add(&mut self, actor: ProcessId, seq: u64) -> (added: bool)
        ensures
            final(self)@ == with_event(old(self)@, actor, seq),
            added == (!old(self)@.contains_key(actor) || seq > old(self)@[actor]),
    {
        vclock_add(self, actor, seq)
    }
}

/// Joining is idempotent, commutative and associative, and a clock joined
/// with another dominates both.
pub proof fn law_join_is_a_semilattice(
    a: Map<ProcessId, u64>,
    b: Map<ProcessId, u64>,
    c: Map<ProcessId, u64>,
)
    ensures
        joined(a, a) == a,
        joined(a, b) == joined(b, a),
        joined(joined(a, b), c) == joined(a, joined(b, c)),
        forall|actor: ProcessId| #[trigger]
            frontier_of(joined(a, b), actor) >= frontier_of(a, actor) && frontier_of(
                joined(a, b),
                actor,
            ) >= frontier_of(b, actor),
{
    assert(joined(a, a) =~= a);
    assert(joined(a, b) =~= joined(b, a));
    assert(joined(joined(a, b), c) =~= joined(a, joined(b, c)));
}

} // verus!
