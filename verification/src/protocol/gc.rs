//! Tracking of what is committed where, so that what is committed
//! everywhere can be forgotten.

use crate::clock::contiguous;
use crate::clock::events;
use crate::clock::events_of;
use crate::clock::frontier_of;
use crate::clock::gapless;
use crate::clock::with_event;
use crate::clock::AEClock;
use crate::clock::VClock;
use crate::id::is_process;
use crate::id::lemma_process_ids_to_set;
use crate::id::process_ids;
use crate::id::Dot;
use crate::id::ProcessId;
use std::collections::HashMap;
use vstd::prelude::*;

verus! {

broadcast use vstd::std_specs::hash::group_hash_axioms;

/// Mathematical model of a `GCTrack`.
pub struct GCTrackView {
    pub process_id: ProcessId,
    /// Number of processes.
    pub n: usize,
    /// The dots known to be committed here: for each source, their sequence
    /// numbers (and 0).
    pub committed: Map<ProcessId, Set<u64>>,
    /// For each source, the sequence number up to which all its dots are
    /// known to be committed here.
    pub frontier: Map<ProcessId, u64>,
    /// What each other process last reported as committed there.
    pub reports: Map<ProcessId, Map<ProcessId, u64>>,
    /// For each source, the sequence number up to which its dots were
    /// already declared stable.
    pub previous_stable: Map<ProcessId, u64>,
}

/// The lower of two sequence numbers.
pub open spec fn lower(a: u64, b: u64) -> u64 {
    if a <= b {
        a
    } else {
        b
    }
}

/// What `process` last reported as committed there for `source`; nothing,
/// if it has not reported.
pub open spec fn reported(
    reports: Map<ProcessId, Map<ProcessId, u64>>,
    process: ProcessId,
    source: ProcessId,
) -> u64 {
    if reports.contains_key(process) {
        frontier_of(reports[process], source)
    } else {
        0
    }
}

/// The sequence number up to which the dots of `source` are known to be
/// committed at process `me`, whose frontier is `frontier`, and at each of
/// the first `count` processes.
pub open spec fn stable_among(
    frontier: Map<ProcessId, u64>,
    reports: Map<ProcessId, Map<ProcessId, u64>>,
    me: ProcessId,
    source: ProcessId,
    count: int,
) -> u64
    decreases count,
{
    if count <= 0 {
        frontier_of(frontier, source)
    } else if count == me {
        stable_among(frontier, reports, me, source, count - 1)
    } else {
        lower(
            stable_among(frontier, reports, me, source, count - 1),
            reported(reports, count as ProcessId, source),
        )
    }
}

impl GCTrackView {
    /// The sequence number up to which the dots of `source` are known to be
    /// committed at every process.
    pub open spec fn stable_frontier(self, source: ProcessId) -> u64 {
        stable_among(self.frontier, self.reports, self.process_id, source, self.n as int)
    }

    /// The ranges of dots, of the first `count` sources, that are known to
    /// be committed at every process and were not declared stable before.
    pub open spec fn new_stable_among(self, count: int) -> Seq<(ProcessId, u64, u64)>
        decreases count,
    {
        if count <= 0 {
            Seq::empty()
        } else {
            let before = self.new_stable_among(count - 1);
            let source = count as ProcessId;
            let start = frontier_of(self.previous_stable, source) + 1;
            let end = self.stable_frontier(source);
            if start <= end {
                before.push((source, start as u64, end))
            } else {
                before
            }
        }
    }

    /// The ranges of dots that are known to be committed at every process
    /// and were not declared stable before, by increasing source.
    pub open spec fn new_stable(self) -> Seq<(ProcessId, u64, u64)> {
        self.new_stable_among(self.n as int)
    }

    /// What was declared stable once the new ranges of the first `count`
    /// sources are declared too.
    pub open spec fn declared_among(self, count: int) -> Map<ProcessId, u64>
        decreases count,
    {
        if count <= 0 {
            self.previous_stable
        } else {
            let before = self.declared_among(count - 1);
            let source = count as ProcessId;
            let end = self.stable_frontier(source);
            if frontier_of(self.previous_stable, source) + 1 <= end {
                before.insert(source, end)
            } else {
                before
            }
        }
    }

    /// Whether the dot is known to be committed here.
    pub open spec fn is_committed(self, dot: Dot) -> bool {
        events_of(self.committed, dot.source).contains(dot.sequence)
    }

    /// The invariant of the model. The frontier of a source is the sequence
    /// number up to which none of its dots is missing; the last sequence
    /// number of `u64` is never committed; and nothing was declared stable
    /// beyond the frontier.
    pub open spec fn wf(self) -> bool {
        &&& gapless(self.committed, self.frontier)
        &&& forall|source: ProcessId| #[trigger]
            frontier_of(self.previous_stable, source) < u64::MAX
    }
}

/// A dot that is stable is committed here, and every other process has
/// reported it committed there.
pub proof fn lemma_stable_is_committed_everywhere(
    track: GCTrackView,
    source: ProcessId,
    seq: u64,
    process: ProcessId,
)
    requires
        track.wf(),
        1 <= seq <= track.stable_frontier(source),
        is_process(track.n, process),
    ensures
        track.is_committed(Dot { source, sequence: seq }),
        process != track.process_id ==> track.reports.contains_key(process) && frontier_of(
            track.reports[process],
            source,
        ) >= seq,
        track.stable_frontier(source) <= frontier_of(track.frontier, source),
{
    lemma_stable_among(
        track.frontier,
        track.reports,
        track.process_id,
        source,
        track.n as int,
        process,
    );
    assert(track.committed.contains_key(source));
}

/// What is stable among the first `count` processes is within the frontier
/// here and within what each of them has reported.
proof fn lemma_stable_among(
    frontier: Map<ProcessId, u64>,
    reports: Map<ProcessId, Map<ProcessId, u64>>,
    me: ProcessId,
    source: ProcessId,
    count: int,
    process: ProcessId,
)
    requires
        0 <= count,
    ensures
        stable_among(frontier, reports, me, source, count) <= frontier_of(frontier, source),
        1 <= process <= count && process != me ==> stable_among(
            frontier,
            reports,
            me,
            source,
            count,
        ) <= reported(reports, process, source),
    decreases count,
{
    if count > 0 {
        lemma_stable_among(frontier, reports, me, source, count - 1, process);
    }
}

/// Tracks the dots committed here, what the other processes report as
/// committed there, and what was already declared stable.
pub struct GCTrack {
    process_id: ProcessId,
    n: usize,
    // the dots committed here
    committed: AEClock,
    // the committed clock last reported by each other process
    all_but_me: HashMap<ProcessId, VClock>,
    // what was declared stable so far
    previous_stable: VClock,
}

impl View for GCTrack {
    type V = GCTrackView;

    closed spec fn view(&self) -> GCTrackView {
        GCTrackView {
            process_id: self.process_id,
            n: self.n,
            committed: events(self.committed),
            frontier: contiguous(self.committed),
            reports: Map::new(
                |process: ProcessId| self.all_but_me@.contains_key(process),
                |process: ProcessId| self.all_but_me@[process]@,
            ),
            previous_stable: self.previous_stable@,
        }
    }
}

impl GCTrack {
    /// The invariant of the tracker: that of its model.
    pub open spec fn wf(&self) -> bool {
        self@.wf()
    }

    /// Creates the tracker of process `process_id` in a system of `n`
    /// processes: nothing is committed, reported or stable.
    pub fn new(process_id: ProcessId, n: usize) -> (track: Self)
        ensures
            track.wf(),
            track@.process_id == process_id,
            track@.n == n,
            track@.reports == Map::<ProcessId, Map<ProcessId, u64>>::empty(),
            forall|dot: Dot| dot.sequence >= 1 ==> !#[trigger] track@.is_committed(dot),
            forall|source: ProcessId| #[trigger] frontier_of(track@.previous_stable, source) == 0,
            forall|source: ProcessId| #[trigger] frontier_of(track@.frontier, source) == 0,
    {
        let ids = process_ids(n);
        let track = GCTrack {
            process_id,
            n,
            committed: AEClock::with_actors(&ids),
            all_but_me: HashMap::new(),
            previous_stable: VClock::bottom(n),
        };
        assert(track@.reports =~= Map::empty());
        assert(track@.committed.dom() =~= track@.frontier.dom());
        track
    }

    /// Records that `dot` is committed here.
    pub fn commit(&mut self, dot: Dot)
        requires
            old(self).wf(),
            dot.sequence < u64::MAX,
        ensures
            final(self).wf(),
            final(self)@.committed == old(self)@.committed.insert(
                dot.source,
                events_of(old(self)@.committed, dot.source).insert(dot.sequence),
            ),
            final(self)@ == (GCTrackView {
                committed: final(self)@.committed,
                frontier: final(self)@.frontier,
                ..old(self)@
            }),
            forall|source: ProcessId|
                frontier_of(old(self)@.frontier, source) <= #[trigger] frontier_of(
                    final(self)@.frontier,
                    source,
                ),
    {
        self.committed.add(dot.source, dot.sequence);
    }

    /// The clock of what is committed here: for each source, the sequence
    /// number up to which all its dots are.
    pub fn committed(&self) -> (clock: VClock)
        ensures
            clock@ == self@.frontier,
    {
        self.committed.frontier()
    }

    /// Records the clock of what `from` reports as committed there. A later
    /// report of a process replaces its earlier one.
    pub fn committed_by(&mut self, from: ProcessId, committed: VClock)
        requires
            old(self).wf(),
        ensures
            final(self).wf(),
            final(self)@ == (GCTrackView {
                reports: old(self)@.reports.insert(from, committed@),
                ..old(self)@
            }),
    {
        self.all_but_me.insert(from, committed);
        assert(final(self)@.reports =~= old(self)@.reports.insert(from, committed@));
    }

    /// What `process` last reported as committed there for `source`.
    fn reported(&self, process: ProcessId, source: ProcessId) -> (frontier: u64)
        ensures
            frontier == reported(self@.reports, process, source),
    {
        match self.all_but_me.get(&process) {
            Some(clock) => clock.frontier(source),
            None => 0,
        }
    }

    /// The sequence number up to which the dots of `source` are known to be
    /// committed at every process.
    fn stable_frontier(&self, local: &VClock, source: ProcessId) -> (frontier: u64)
        requires
            local@ == self@.frontier,
        ensures
            frontier == self@.stable_frontier(source),
    {
        let mut frontier = local.frontier(source);
        let mut process: usize = 0;
        while process < self.n
            invariant
                process <= self.n,
                frontier == stable_among(
                    self@.frontier,
                    self@.reports,
                    self@.process_id,
                    source,
                    process as int,
                ),
            decreases self.n - process,
        {
            process = process + 1;
            if process as u64 != self.process_id {
                let reported = self.reported(process as u64, source);
                if reported < frontier {
                    frontier = reported;
                }
            }
        }
        frontier
    }

    /// Returns the ranges of dots `(source, from, to)` that are now known to
    /// be committed at every process and that no earlier call returned, by
    /// increasing source.
    pub fn stable(&mut self) -> (stable: Vec<(ProcessId, u64, u64)>)
        requires
            old(self).wf(),
        ensures
            final(self).wf(),
            stable@ == old(self)@.new_stable(),
            final(self)@ == (GCTrackView {
                previous_stable: final(self)@.previous_stable,
                ..old(self)@
            }),
            forall|source: ProcessId|
                frontier_of(final(self)@.previous_stable, source) == #[trigger] frontier_of(
                    old(self)@.declared_among(old(self)@.n as int),
                    source,
                ),
    {
        let local = self.committed();
        let mut stable: Vec<(ProcessId, u64, u64)> = Vec::new();
        let ghost before = self@;
        let mut count: usize = 0;
        while count < self.n
            invariant
                count <= self.n,
                before == old(self)@,
                before.wf(),
                local@ == before.frontier,
                self@ == (GCTrackView { previous_stable: self@.previous_stable, ..before }),
                stable@ == before.new_stable_among(count as int),
                forall|source: ProcessId|
                    frontier_of(self@.previous_stable, source) == #[trigger] frontier_of(
                        before.declared_among(count as int),
                        source,
                    ),
                forall|source: ProcessId|
                    source > count ==> #[trigger] frontier_of(self@.previous_stable, source)
                        == frontier_of(before.previous_stable, source),
                forall|source: ProcessId| #[trigger]
                    frontier_of(self@.previous_stable, source) < u64::MAX,
            decreases self.n - count,
        {
            count = count + 1;
            let source = count as u64;
            let previous = self.previous_stable.frontier(source);
            let end = self.stable_frontier(&local, source);
            proof {
                lemma_stable_among(
                    before.frontier,
                    before.reports,
                    before.process_id,
                    source,
                    before.n as int,
                    0,
                );
                assert(frontier_of(before.frontier, source) < u64::MAX) by {
                    if before.frontier.contains_key(source) {
                        assert(before.committed.contains_key(source));
                        assert(before.committed[source].contains(before.frontier[source]));
                    }
                }
            }
            if previous + 1 <= end {
                stable.push((source, previous + 1, end));
                let ghost declared = self@.previous_stable;
                self.previous_stable.add(source, end);
                proof {
                    let now = self@.previous_stable;
                    assert(now == with_event(declared, source, end));
                    assert forall|other: ProcessId|
                        frontier_of(now, other) == #[trigger] frontier_of(
                            before.declared_among(count as int),
                            other,
                        ) by {
                        assert(frontier_of(declared, other) == frontier_of(
                            before.declared_among(count - 1),
                            other,
                        ));
                    }
                    assert forall|other: ProcessId| #[trigger]
                        frontier_of(now, other) < u64::MAX by {
                        assert(frontier_of(declared, other) < u64::MAX);
                    }
                    assert forall|other: ProcessId| other > count implies #[trigger] frontier_of(
                        now,
                        other,
                    ) == frontier_of(before.previous_stable, other) by {
                        assert(frontier_of(declared, other) == frontier_of(
                            before.previous_stable,
                            other,
                        ));
                    }
                }
            } else {
                proof {
                    assert(frontier_of(before.previous_stable, source) == previous);
                    assert(before.declared_among(count as int) == before.declared_among(
                        count - 1,
                    ));
                }
            }
        }
        stable
    }
}

impl Clone for GCTrack {
    fn clone(&self) -> (copy: Self)
        ensures
            copy@ == self@,
    {
        let copy = GCTrack {
            process_id: self.process_id,
            n: self.n,
            committed: self.committed.clone(),
            all_but_me: self.all_but_me.clone(),
            previous_stable: self.previous_stable.clone(),
        };
        assert(copy@.reports =~= self@.reports);
        copy
    }
}

} // verus!
