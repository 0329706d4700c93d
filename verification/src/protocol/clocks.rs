//! The clocks of the leaderless protocol: the clocks that a coordinator
//! gathers from its fast quorum, and the oracle that turns the keys of a
//! command into the clock of what it depends on.

use crate::clock::bottom;
use crate::clock::joined;
use crate::clock::with_event;
use crate::clock::VClock;
use crate::command::ClientCommand;
use crate::command::ClientCommandView;
use crate::command::Command;
use crate::command::Key;
use crate::id::is_process;
use crate::id::Dot;
use crate::id::ProcessId;
use crate::std_ext::clone_process_set;
use std::collections::HashSet;
use vstd::prelude::*;

verus! {

broadcast use vstd::std_specs::hash::group_hash_axioms;

/// `start` joined with each of `clocks`.
pub open spec fn joined_all(start: Map<ProcessId, u64>, clocks: Seq<Map<ProcessId, u64>>) -> Map<
    ProcessId,
    u64,
>
    decreases clocks.len(),
{
    if clocks.len() == 0 {
        start
    } else {
        joined(joined_all(start, clocks.drop_last()), clocks.last())
    }
}

/// Whether all of `clocks` are the same clock.
pub open spec fn all_equal(clocks: Seq<Map<ProcessId, u64>>) -> bool {
    forall|i: int, j: int| 0 <= i < clocks.len() && 0 <= j < clocks.len() ==> clocks[i] == clocks[j]
}

/// The join of clocks that are all the same clock is that clock.
pub proof fn lemma_join_of_equal_clocks(clocks: Seq<Map<ProcessId, u64>>)
    requires
        clocks.len() > 0,
        all_equal(clocks),
    ensures
        joined_all(Map::empty(), clocks) == clocks[0],
    decreases clocks.len(),
{
    let none = Map::<ProcessId, u64>::empty();
    if clocks.len() == 1 {
        assert(clocks.drop_last().len() == 0);
        assert(joined_all(none, clocks.drop_last()) == none);
        assert(clocks.last() == clocks[0]);
        assert(joined(none, clocks[0]) =~= clocks[0]);
    } else {
        let shorter = clocks.drop_last();
        assert forall|i: int, j: int|
            0 <= i < shorter.len() && 0 <= j < shorter.len() implies shorter[i] == shorter[j] by {
            assert(shorter[i] == clocks[i]);
            assert(shorter[j] == clocks[j]);
        }
        lemma_join_of_equal_clocks(shorter);
        assert(shorter[0] == clocks[0]);
        assert(clocks.last() == clocks[0]);
        assert(joined(clocks[0], clocks[0]) =~= clocks[0]);
    }
}

/// Mathematical model of a `QuorumClocks`.
pub struct QuorumClocksView {
    /// Number of reports waited for.
    pub size: usize,
    /// The processes that have reported.
    pub participants: Set<ProcessId>,
    /// The clocks reported, in the order of their arrival.
    pub clocks: Seq<Map<ProcessId, u64>>,
}

impl QuorumClocksView {
    /// Whether a report of `process_id` counts: the process has not
    /// reported yet, and reports are still waited for.
    pub open spec fn counts(self, process_id: ProcessId) -> bool {
        !self.participants.contains(process_id) && self.participants.len() < self.size
    }

    /// The state after `process_id` reported `clock`.
    pub open spec fn reported(self, process_id: ProcessId, clock: Map<ProcessId, u64>) -> Self {
        if self.counts(process_id) {
            QuorumClocksView {
                participants: self.participants.insert(process_id),
                clocks: self.clocks.push(clock),
                ..self
            }
        } else {
            self
        }
    }

    /// Whether all reports waited for are in.
    pub open spec fn all(self) -> bool {
        self.participants.len() == self.size
    }
}

/// The clocks reported to a coordinator by the members of its fast quorum.
pub struct QuorumClocks {
    // number of reports waited for
    size: usize,
    // set of processes that have reported
    participants: HashSet<ProcessId>,
    // the clocks reported
    clocks: Vec<VClock>,
}

impl View for QuorumClocks {
    type V = QuorumClocksView;

    closed spec fn view(&self) -> QuorumClocksView {
        QuorumClocksView {
            size: self.size,
            participants: self.participants@,
            clocks: self.clocks@.map_values(|clock: VClock| clock@),
        }
    }
}

/// A copy of a list of clocks.
fn clone_clocks(clocks: &Vec<VClock>) -> (copy: Vec<VClock>)
    ensures
        copy@.map_values(|clock: VClock| clock@) == clocks@.map_values(|clock: VClock| clock@),
{
    let mut copy: Vec<VClock> = Vec::new();
    let mut i: usize = 0;
    while i < clocks.len()
        invariant
            i <= clocks.len(),
            copy@.len() == i,
            forall|k: int| 0 <= k < i ==> (#[trigger] copy@[k])@ == clocks@[k]@,
        decreases clocks.len() - i,
    {
        copy.push(clocks[i].clone());
        i = i + 1;
    }
    assert(copy@.map_values(|clock: VClock| clock@) =~= clocks@.map_values(
        |clock: VClock| clock@,
    ));
    copy
}

impl Clone for QuorumClocks {
    fn clone(&self) -> (copy: Self)
        ensures
            copy@ == self@,
    {
        QuorumClocks {
            size: self.size,
            participants: clone_process_set(&self.participants),
            clocks: clone_clocks(&self.clocks),
        }
    }
}

impl QuorumClocks {
    /// The invariant of the aggregator: one clock per participant, and
    /// never more participants than waited for.
    pub open spec fn wf(&self) -> bool {
        &&& self@.participants.finite()
        &&& self@.participants.len() == self@.clocks.len()
        &&& self@.participants.len() <= self@.size
    }

    /// Creates an aggregator that waits for `size` reports.
    pub fn new(size: usize) -> (quorum_clocks: Self)
        ensures
            quorum_clocks.wf(),
            quorum_clocks@ == (QuorumClocksView {
                size,
                participants: Set::empty(),
                clocks: Seq::empty(),
            }),
    {
        let quorum_clocks = QuorumClocks {
            size,
            participants: HashSet::new(),
            clocks: Vec::new(),
        };
        assert(quorum_clocks@.clocks =~= Seq::empty());
        quorum_clocks
    }

    /// Records the clock reported by `process_id`. A second report of a
    /// process, and a report beyond those waited for, is not counted. Says
    /// whether the report was counted.
    pub fn add(&mut self, process_id: ProcessId, clock: VClock) -> (counted: bool)
        requires
            old(self).wf(),
        ensures
            final(self).wf(),
            counted == old(self)@.counts(process_id),
            final(self)@ == old(self)@.reported(process_id, clock@),
    {
        if self.participants.len() < self.size && !self.participants.contains(&process_id) {
            self.participants.insert(process_id);
            self.clocks.push(clock);
            assert(final(self)@.clocks =~= old(self)@.clocks.push(clock@));
            true
        } else {
            false
        }
    }

    /// Checks whether all reports waited for are in.
    pub fn all(&self) -> (all: bool)
        requires
            self.wf(),
        ensures
            all == self@.all(),
    {
        self.participants.len() == self.size
    }

    /// The number of reports counted.
    pub fn len(&self) -> (len: usize)
        requires
            self.wf(),
        ensures
            len == self@.participants.len(),
    {
        self.participants.len()
    }

    /// Computes the join of the clocks reported and whether they are all
    /// the same clock.
    pub fn union(&self) -> (res: (VClock, bool))
        requires
            self.wf(),
        ensures
            res.0@ == joined_all(Map::empty(), self@.clocks),
            res.1 == all_equal(self@.clocks),
    {
        let none: Vec<ProcessId> = Vec::new();
        let mut union = crate::clock::vclock_with(&none);
        assert(union@ =~= Map::empty());
        let mut equal = true;
        let ghost clocks = self@.clocks;
        let mut i: usize = 0;
        while i < self.clocks.len()
            invariant
                i <= self.clocks.len(),
                clocks == self@.clocks,
                clocks.len() == self.clocks.len(),
                union@ == joined_all(Map::empty(), clocks.subrange(0, i as int)),
                equal == (forall|k: int| 0 <= k < i ==> #[trigger] clocks[k] == clocks[0]),
            decreases self.clocks.len() - i,
        {
            assert(clocks[i as int] == self.clocks@[i as int]@);
            if !self.clocks[i].same(&self.clocks[0]) {
                equal = false;
            }
            union.join(&self.clocks[i]);
            proof {
                let longer = clocks.subrange(0, i + 1);
                assert(longer.drop_last() =~= clocks.subrange(0, i as int));
                assert(longer.last() == clocks[i as int]);
            }
            i = i + 1;
        }
        proof {
            assert(clocks.subrange(0, clocks.len() as int) =~= clocks);
            if equal {
                assert forall|a: int, b: int|
                    0 <= a < clocks.len() && 0 <= b < clocks.len() implies clocks[a]
                    == clocks[b] by {
                    assert(clocks[a] == clocks[0]);
                    assert(clocks[b] == clocks[0]);
                }
            }
        }
        (union, equal)
    }
}

/// The oracle of the leaderless protocol. It is told each command with its
/// dot and answers with a clock that covers the commands told before that
/// touch one of the command's keys.
pub trait KeyClocks: Sized {
    /// The invariant of the oracle. An oracle that states none has none.
    open spec fn wf(&self) -> bool {
        true
    }

    /// Whether the oracle, in state `pre` and told `cmd` with `dot` and
    /// `past`, may move to `post` and answer `clock`. An oracle that
    /// states nothing may answer anything.
    open spec fn answers(
        pre: &Self,
        dot: Dot,
        cmd: Option<ClientCommandView>,
        past: Option<Map<ProcessId, u64>>,
        post: &Self,
        clock: Map<ProcessId, u64>,
    ) -> bool {
        true
    }

    /// Creates the oracle of a system of `n` processes.
    fn new(n: usize) -> (oracle: Self)
        ensures
            oracle.wf(),
    ;

    /// Registers `cmd` under `dot` and returns the clock of what it depends
    /// on: `past`, if given, joined with the clocks of the commands that
    /// were registered before on a key of `cmd`. The command's own dot is
    /// not added to the clock returned.
    fn add(&mut self, dot: Dot, cmd: &Option<ClientCommand>, past: Option<VClock>) -> (clock:
        VClock)
        requires
            old(self).wf(),
            cmd matches Some(c) ==> c.wf(),
        ensures
            final(self).wf(),
            Self::answers(
                old(self),
                dot,
                match *cmd {
                    Some(c) => Some(c@),
                    None => None,
                },
                match past {
                    Some(p) => Some(p@),
                    None => None,
                },
                final(self),
                clock@,
            ),
    ;

    /// Whether the oracle can be shared by workers that run in parallel.
    fn parallel() -> bool;
}

/// The clock recorded for `key` in `clocks`, if any.
pub open spec fn clock_at(clocks: Seq<(Key, Map<ProcessId, u64>)>, key: Key) -> Option<
    Map<ProcessId, u64>,
> {
    if exists|i: int| 0 <= i < clocks.len() && (#[trigger] clocks[i]).0@ == key@ {
        let i = choose|i: int| 0 <= i < clocks.len() && (#[trigger] clocks[i]).0@ == key@;
        Some(clocks[i].1)
    } else {
        None
    }
}

/// What `key` contributes to the clock of a command that touches it: the
/// clock recorded for it, or nothing.
pub open spec fn contribution(clocks: Seq<(Key, Map<ProcessId, u64>)>, key: Key) -> Map<
    ProcessId,
    u64,
> {
    match clock_at(clocks, key) {
        Some(clock) => clock,
        None => Map::empty(),
    }
}

/// `clocks` with `dot` added to the clock of `key`, which starts from the
/// bottom clock of `n` processes if the key had none.
pub open spec fn touched(
    clocks: Seq<(Key, Map<ProcessId, u64>)>,
    n: usize,
    key: Key,
    dot: Dot,
) -> Seq<(Key, Map<ProcessId, u64>)> {
    if exists|i: int| 0 <= i < clocks.len() && (#[trigger] clocks[i]).0@ == key@ {
        let i = choose|i: int| 0 <= i < clocks.len() && (#[trigger] clocks[i]).0@ == key@;
        clocks.update(i, (clocks[i].0, with_event(clocks[i].1, dot.source, dot.sequence)))
    } else {
        clocks.push(
            (
                key,
                with_event(
                    bottom(Set::new(|id: ProcessId| is_process(n, id))),
                    dot.source,
                    dot.sequence,
                ),
            ),
        )
    }
}

/// `clocks` with `dot` added to the clock of each of the first `count` keys
/// of `commands`.
pub open spec fn touched_all(
    clocks: Seq<(Key, Map<ProcessId, u64>)>,
    n: usize,
    commands: Seq<(Key, Command)>,
    count: int,
    dot: Dot,
) -> Seq<(Key, Map<ProcessId, u64>)>
    decreases count,
{
    if count <= 0 {
        clocks
    } else {
        touched(touched_all(clocks, n, commands, count - 1, dot), n, commands[count - 1].0, dot)
    }
}

/// `start` joined with the contributions of the first `count` keys of
/// `commands`.
pub open spec fn dependencies(
    clocks: Seq<(Key, Map<ProcessId, u64>)>,
    commands: Seq<(Key, Command)>,
    count: int,
    start: Map<ProcessId, u64>,
) -> Map<ProcessId, u64>
    decreases count,
{
    if count <= 0 {
        start
    } else {
        joined(
            dependencies(clocks, commands, count - 1, start),
            contribution(clocks, commands[count - 1].0),
        )
    }
}

/// Whether no two entries of `clocks` are for the same key.
pub open spec fn one_clock_per_key(clocks: Seq<(Key, Map<ProcessId, u64>)>) -> bool {
    forall|i: int, j: int|
        0 <= i < j < clocks.len() ==> (#[trigger] clocks[i]).0@ != (#[trigger] clocks[j]).0@
}

/// Touching a key keeps one clock per key.
pub proof fn lemma_touched_one_clock_per_key(
    clocks: Seq<(Key, Map<ProcessId, u64>)>,
    n: usize,
    key: Key,
    dot: Dot,
)
    requires
        one_clock_per_key(clocks),
    ensures
        one_clock_per_key(touched(clocks, n, key, dot)),
{
    let after = touched(clocks, n, key, dot);
    if exists|i: int| 0 <= i < clocks.len() && (#[trigger] clocks[i]).0@ == key@ {
        assert forall|i: int, j: int| 0 <= i < j < after.len() implies (#[trigger] after[i]).0@
            != (#[trigger] after[j]).0@ by {
            assert(after[i].0@ == clocks[i].0@);
            assert(after[j].0@ == clocks[j].0@);
        }
    } else {
        assert forall|i: int, j: int| 0 <= i < j < after.len() implies (#[trigger] after[i]).0@
            != (#[trigger] after[j]).0@ by {
            assert(after[i] == clocks[i]);
            if j < clocks.len() {
                assert(after[j] == clocks[j]);
            }
        }
    }
}

/// The oracle of a process whose workers do not share it: a clock per key.
pub struct SequentialKeyClocks {
    n: usize,
    clocks: Vec<(Key, VClock)>,
}

/// Mathematical model of a `SequentialKeyClocks`.
pub struct SequentialKeyClocksView {
    /// Number of processes.
    pub n: usize,
    /// The clock of each key that a command has touched.
    pub clocks: Seq<(Key, Map<ProcessId, u64>)>,
}

impl SequentialKeyClocksView {
    /// The clock answered for `cmd` when `past` is given: `past`, or the
    /// bottom clock if there is none, joined with what each key of the
    /// command contributes. A no-op touches no key.
    pub open spec fn clock_for(
        self,
        cmd: Option<ClientCommandView>,
        past: Option<Map<ProcessId, u64>>,
    ) -> Map<ProcessId, u64> {
        let start = match past {
            Some(past) => past,
            None => bottom(Set::new(|id: ProcessId| is_process(self.n, id))),
        };
        match cmd {
            Some(cmd) => dependencies(
                self.clocks,
                cmd.commands,
                cmd.commands.len() as int,
                start,
            ),
            None => start,
        }
    }

    /// The state after `cmd` was registered under `dot`.
    pub open spec fn registered(self, dot: Dot, cmd: Option<ClientCommandView>) -> Self {
        match cmd {
            Some(cmd) => SequentialKeyClocksView {
                clocks: touched_all(
                    self.clocks,
                    self.n,
                    cmd.commands,
                    cmd.commands.len() as int,
                    dot,
                ),
                ..self
            },
            None => self,
        }
    }
}

impl View for SequentialKeyClocks {
    type V = SequentialKeyClocksView;

    closed spec fn view(&self) -> SequentialKeyClocksView {
        SequentialKeyClocksView {
            n: self.n,
            clocks: self.clocks@.map_values(|entry: (Key, VClock)| (entry.0, entry.1@)),
        }
    }
}

impl Clone for SequentialKeyClocks {
    fn clone(&self) -> (copy: Self)
        ensures
            copy@ == self@,
    {
        let mut clocks: Vec<(Key, VClock)> = Vec::new();
        let mut i: usize = 0;
        while i < self.clocks.len()
            invariant
                i <= self.clocks.len(),
                clocks@.len() == i,
                forall|k: int|
                    0 <= k < i ==> (#[trigger] clocks@[k]).0 == self.clocks@[k].0 && clocks@[k].1@
                        == self.clocks@[k].1@,
            decreases self.clocks.len() - i,
        {
            clocks.push((self.clocks[i].0.clone(), self.clocks[i].1.clone()));
            i = i + 1;
        }
        let copy = SequentialKeyClocks { n: self.n, clocks };
        assert(copy@.clocks =~= self@.clocks);
        copy
    }
}

impl SequentialKeyClocks {
    /// Where `key` stands among the clocks, if it does.
    fn find(&self, key: &Key) -> (found: Option<usize>)
        ensures
            match found {
                Some(i) => i < self@.clocks.len() && self@.clocks[i as int].0@ == key@,
                None => forall|i: int|
                    0 <= i < self@.clocks.len() ==> (#[trigger] self@.clocks[i]).0@ != key@,
            },
    {
        let mut i: usize = 0;
        while i < self.clocks.len()
            invariant
                i <= self.clocks.len(),
                forall|k: int| 0 <= k < i ==> (#[trigger] self@.clocks[k]).0@ != key@,
            decreases self.clocks.len() - i,
        {
            if self.clocks[i].0 == *key {
                assert(self@.clocks[i as int].0 == self.clocks@[i as int].0);
                return Some(i);
            }
            assert(self@.clocks[i as int].0 == self.clocks@[i as int].0);
            i = i + 1;
        }
        None
    }

    /// Adds `dot` to the clock of `key`.
    fn touch(&mut self, key: &Key, dot: Dot)
        requires
            one_clock_per_key(old(self)@.clocks),
        ensures
            one_clock_per_key(final(self)@.clocks),
            final(self)@ == (SequentialKeyClocksView {
                clocks: touched(old(self)@.clocks, old(self)@.n, *key, dot),
                ..old(self)@
            }),
    {
        proof {
            lemma_touched_one_clock_per_key(self@.clocks, self@.n, *key, dot);
        }
        match self.find(key) {
            Some(i) => {
                proof {
                    let p = choose|p: int|
                        0 <= p < self@.clocks.len() && (#[trigger] self@.clocks[p]).0@ == key@;
                    if p < i {
                        assert(self@.clocks[p].0@ != self@.clocks[i as int].0@);
                    } else if i < p {
                        assert(self@.clocks[i as int].0@ != self@.clocks[p].0@);
                    }
                }
                let (kept, clock) = self.clocks.remove(i);
                let mut clock = clock;
                clock.add(dot.source, dot.sequence);
                self.clocks.insert(i, (kept, clock));
                assert(final(self)@.clocks =~= touched(old(self)@.clocks, old(self)@.n, *key, dot));
            },
            None => {
                let mut clock = VClock::bottom(self.n);
                clock.add(dot.source, dot.sequence);
                self.clocks.push((key.clone(), clock));
                assert(final(self)@.clocks =~= touched(old(self)@.clocks, old(self)@.n, *key, dot));
            },
        }
    }
}

impl KeyClocks for SequentialKeyClocks {
    open spec fn wf(&self) -> bool {
        one_clock_per_key(self@.clocks)
    }

    open spec fn answers(
        pre: &Self,
        dot: Dot,
        cmd: Option<ClientCommandView>,
        past: Option<Map<ProcessId, u64>>,
        post: &Self,
        clock: Map<ProcessId, u64>,
    ) -> bool {
        &&& clock == pre@.clock_for(cmd, past)
        &&& post@ == pre@.registered(dot, cmd)
    }

    fn new(n: usize) -> (oracle: Self)
        ensures
            oracle@ == (SequentialKeyClocksView { n, clocks: Seq::empty() }),
    {
        let oracle = SequentialKeyClocks { n, clocks: Vec::new() };
        assert(oracle@.clocks =~= Seq::empty());
        oracle
    }

    fn add(&mut self, dot: Dot, cmd: &Option<ClientCommand>, past: Option<VClock>) -> (clock:
        VClock) {
        // we start with past in case there's one, or bottom otherwise
        let mut clock = match past {
            Some(past) => past,
            None => VClock::bottom(self.n),
        };
        match cmd {
            Some(cmd) => {
                let ghost start = clock@;
                let ghost commands = cmd@.commands;
                let count = cmd.key_count();
                // first the clock that covers the commands registered before
                let mut i: usize = 0;
                while i < count
                    invariant
                        i <= count == commands.len(),
                        commands == cmd@.commands,
                        one_clock_per_key(self@.clocks),
                        clock@ == dependencies(self@.clocks, commands, i as int, start),
                    decreases count - i,
                {
                    match self.find(cmd.key(i)) {
                        Some(at) => {
                            assert(self@.clocks[at as int].1 == self.clocks@[at as int].1@);
                            proof {
                                let key = commands[i as int].0;
                                let p = choose|p: int|
                                    0 <= p < self@.clocks.len() && (#[trigger] self@.clocks[p]).0@
                                        == key@;
                                if p < at {
                                    assert(self@.clocks[p].0@ != self@.clocks[at as int].0@);
                                } else if at < p {
                                    assert(self@.clocks[at as int].0@ != self@.clocks[p].0@);
                                }
                            }
                            clock.join(&self.clocks[at].1);
                        },
                        None => {
                            assert(joined(clock@, Map::empty()) =~= clock@);
                        },
                    }
                    i = i + 1;
                }
                // then the command itself
                let mut i: usize = 0;
                while i < count
                    invariant
                        i <= count == commands.len(),
                        commands == cmd@.commands,
                        self@.n == old(self)@.n,
                        one_clock_per_key(self@.clocks),
                        self@.clocks == touched_all(
                            old(self)@.clocks,
                            old(self)@.n,
                            commands,
                            i as int,
                            dot,
                        ),
                    decreases count - i,
                {
                    self.touch(cmd.key(i), dot);
                    i = i + 1;
                }
                clock
            },
            None => clock,
        }
    }

    fn parallel() -> (parallel: bool)
        ensures
            !parallel,
    {
        false
    }
}

} // verus!
