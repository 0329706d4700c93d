//! The votes table: per key, the commands on the key ordered by the clock
//! they were committed with, and the votes that say up to which clock the
//! order is final.

use crate::clock::contiguous;
use crate::clock::events;
use crate::clock::events_of;
use crate::clock::gapless;
use crate::clock::stable_event;
use crate::clock::AEClock;
use crate::command::ClientCommand;
use crate::command::Command;
use crate::command::Key;
use crate::command::MultiCommand;
use crate::id::Dot;
use crate::id::ProcessId;
use crate::protocol::votes::ProcessVotes;
use crate::protocol::votes::VoteRange;
use crate::protocol::votes::Votes;
use vstd::prelude::*;

verus! {

/// What commands on a key are ordered by: the clock of the command, then
/// the process that coordinated it.
pub type SortId = (u64, ProcessId);

/// Whether `a` comes before `b`.
pub open spec fn before(a: SortId, b: SortId) -> bool {
    a.0 < b.0 || (a.0 == b.0 && a.1 < b.1)
}

/// Whether `a` comes before `b`.
fn comes_before(a: SortId, b: SortId) -> (res: bool)
    ensures
        res == before(a, b),
{
    a.0 < b.0 || (a.0 == b.0 && a.1 < b.1)
}

/// Whether the commands are in order.
pub open spec fn in_order(cmds: Seq<(SortId, Command)>) -> bool {
    forall|i: int, j: int|
        0 <= i < j < cmds.len() ==> before((#[trigger] cmds[i]).0, (#[trigger] cmds[j]).0)
}

/// `cmds` with the command `cmd` put at the place of `id`.
pub open spec fn placed(cmds: Seq<(SortId, Command)>, id: SortId, cmd: Command) -> Seq<
    (SortId, Command),
>
    decreases cmds.len(),
{
    if cmds.len() == 0 {
        seq![(id, cmd)]
    } else if before(cmds.last().0, id) {
        cmds.push((id, cmd))
    } else {
        placed(cmds.drop_last(), id, cmd).push(cmds.last())
    }
}

/// Whether `at` is the place of `id` among `cmds`: what stands before it
/// comes before `id`, what stands from it on does not.
pub open spec fn is_place(cmds: Seq<(SortId, Command)>, id: SortId, at: int) -> bool {
    &&& 0 <= at <= cmds.len()
    &&& forall|i: int| 0 <= i < at ==> before((#[trigger] cmds[i]).0, id)
    &&& forall|i: int| at <= i < cmds.len() ==> !before((#[trigger] cmds[i]).0, id)
}

/// Putting a command at its place is inserting it there.
pub proof fn lemma_placed(cmds: Seq<(SortId, Command)>, id: SortId, cmd: Command, at: int)
    requires
        is_place(cmds, id, at),
    ensures
        placed(cmds, id, cmd) == cmds.insert(at, (id, cmd)),
    decreases cmds.len(),
{
    if cmds.len() == 0 {
        assert(cmds.insert(at, (id, cmd)) =~= seq![(id, cmd)]);
    } else if before(cmds.last().0, id) {
        assert(at == cmds.len()) by {
            if at < cmds.len() {
                assert(!before(cmds[cmds.len() - 1].0, id));
            }
        }
        assert(cmds.insert(at, (id, cmd)) =~= cmds.push((id, cmd)));
    } else {
        assert(at < cmds.len()) by {
            if at == cmds.len() {
                assert(before(cmds[cmds.len() - 1].0, id));
            }
        }
        let shorter = cmds.drop_last();
        assert forall|i: int| 0 <= i < at implies before((#[trigger] shorter[i]).0, id) by {
            assert(shorter[i] == cmds[i]);
        }
        assert forall|i: int| at <= i < shorter.len() implies !before(
            (#[trigger] shorter[i]).0,
            id,
        ) by {
            assert(shorter[i] == cmds[i]);
        }
        lemma_placed(shorter, id, cmd, at);
        assert(shorter.insert(at, (id, cmd)).push(cmds.last()) =~= cmds.insert(at, (id, cmd)));
    }
}

/// Putting a command whose place is free at its place keeps the order.
pub proof fn lemma_placed_in_order(cmds: Seq<(SortId, Command)>, id: SortId, cmd: Command, at: int)
    requires
        in_order(cmds),
        is_place(cmds, id, at),
        forall|i: int| 0 <= i < cmds.len() ==> (#[trigger] cmds[i]).0 != id,
    ensures
        in_order(cmds.insert(at, (id, cmd))),
{
    let after = cmds.insert(at, (id, cmd));
    assert forall|i: int, j: int| 0 <= i < j < after.len() implies before(
        (#[trigger] after[i]).0,
        (#[trigger] after[j]).0,
    ) by {
        if j < at {
            assert(after[i] == cmds[i]);
            assert(after[j] == cmds[j]);
        } else if j == at {
            assert(after[i] == cmds[i]);
        } else if i < at {
            assert(after[i] == cmds[i]);
            assert(after[j] == cmds[j - 1]);
            if i == j - 1 {
            }
        } else if i == at {
            assert(after[j] == cmds[j - 1]);
            assert(!before(cmds[j - 1].0, id));
            assert(cmds[j - 1].0 != id);
        } else {
            assert(after[i] == cmds[i - 1]);
            assert(after[j] == cmds[j - 1]);
        }
    }
}

/// Whether a command with clock `clock` can be executed once `limit` is
/// the highest stable clock: its clock is stable.
pub open spec fn executable(clock: u64, limit: Option<u64>) -> bool {
    match limit {
        Some(stable) => clock <= stable,
        None => false,
    }
}

/// Whether a command with clock `clock` can be executed once `limit` is
/// the highest stable clock.
fn is_executable(clock: u64, limit: Option<u64>) -> (ok: bool)
    ensures
        ok == executable(clock, limit),
{
    match limit {
        Some(stable) => clock <= stable,
        None => false,
    }
}

/// The number of commands, from the first on, that can be executed.
pub open spec fn executable_count(cmds: Seq<(SortId, Command)>, limit: Option<u64>) -> int
    decreases cmds.len(),
{
    if cmds.len() == 0 {
        0
    } else if executable(cmds.last().0.0, limit) {
        cmds.len() as int
    } else {
        executable_count(cmds.drop_last(), limit)
    }
}

/// The commands of a list of ordered commands.
pub open spec fn operations(cmds: Seq<(SortId, Command)>) -> Seq<Command> {
    cmds.map_values(|entry: (SortId, Command)| entry.1)
}

/// Where the commands that can be executed end is how many there are.
pub proof fn lemma_executable_count(cmds: Seq<(SortId, Command)>, limit: Option<u64>, split: int)
    requires
        0 <= split <= cmds.len(),
        forall|i: int| 0 <= i < split ==> executable((#[trigger] cmds[i]).0.0, limit),
        forall|i: int| split <= i < cmds.len() ==> !executable((#[trigger] cmds[i]).0.0, limit),
    ensures
        executable_count(cmds, limit) == split,
    decreases cmds.len(),
{
    if cmds.len() > 0 {
        if executable(cmds.last().0.0, limit) {
            if split < cmds.len() {
                assert(!executable(cmds[cmds.len() - 1].0.0, limit));
            }
        } else {
            if split == cmds.len() {
                assert(executable(cmds[cmds.len() - 1].0.0, limit));
            }
            let shorter = cmds.drop_last();
            assert forall|i: int| 0 <= i < split implies executable(
                (#[trigger] shorter[i]).0.0,
                limit,
            ) by {
                assert(shorter[i] == cmds[i]);
            }
            assert forall|i: int| split <= i < shorter.len() implies !executable(
                (#[trigger] shorter[i]).0.0,
                limit,
            ) by {
                assert(shorter[i] == cmds[i]);
            }
            lemma_executable_count(shorter, limit, split);
        }
    }
}

/// `votes` with the votes of `range` added.
pub open spec fn with_range(votes: Map<ProcessId, Set<u64>>, range: VoteRange) -> Map<
    ProcessId,
    Set<u64>,
> {
    votes.insert(range.by, events_of(votes, range.by).union(range.values()))
}

/// `votes` with the votes of each of `ranges` added.
pub open spec fn with_ranges(votes: Map<ProcessId, Set<u64>>, ranges: Seq<VoteRange>) -> Map<
    ProcessId,
    Set<u64>,
>
    decreases ranges.len(),
{
    if ranges.len() == 0 {
        votes
    } else {
        with_range(with_ranges(votes, ranges.drop_last()), ranges.last())
    }
}

/// The clock value up to which each voter of `votes` has voted without a
/// gap.
pub open spec fn frontier_for(votes: Map<ProcessId, Set<u64>>) -> Map<ProcessId, u64> {
    choose|frontier: Map<ProcessId, u64>| gapless(votes, frontier)
}

/// Votes have one frontier.
pub proof fn lemma_frontier_for(votes: Map<ProcessId, Set<u64>>, frontier: Map<ProcessId, u64>)
    requires
        gapless(votes, frontier),
    ensures
        frontier_for(votes) == frontier,
{
    let other = frontier_for(votes);
    assert forall|voter: ProcessId| frontier.contains_key(voter) implies other[voter]
        == frontier[voter] by {
        assert(votes.contains_key(voter));
        if other[voter] < frontier[voter] {
            assert(votes[voter].contains((other[voter] + 1) as u64));
        } else if frontier[voter] < other[voter] {
            assert(votes[voter].contains((frontier[voter] + 1) as u64));
        }
    }
    assert(other =~= frontier);
}

/// Mathematical model of a `VotesTable`.
pub struct VotesTableView {
    /// The number of voters that make a clock value stable.
    pub stability_threshold: usize,
    /// The clock values that each voter has voted for (and 0).
    pub votes: Map<ProcessId, Set<u64>>,
    /// The commands that wait, in their order.
    pub cmds: Seq<(SortId, Command)>,
}

impl VotesTableView {
    /// The table without votes or commands.
    pub open spec fn empty(stability_threshold: usize) -> Self {
        VotesTableView { stability_threshold, votes: Map::empty(), cmds: Seq::empty() }
    }

    /// Whether a command waits under `id`.
    pub open spec fn holds(self, id: SortId) -> bool {
        exists|i: int| 0 <= i < self.cmds.len() && (#[trigger] self.cmds[i]).0 == id
    }

    /// The table after the command `cmd` was added under `id` with the
    /// votes `ranges`.
    pub open spec fn with(self, id: SortId, cmd: Command, ranges: Seq<VoteRange>) -> Self {
        VotesTableView {
            votes: with_ranges(self.votes, ranges),
            cmds: placed(self.cmds, id, cmd),
            ..self
        }
    }

    /// The highest clock value that is stable: the value that
    /// `stability_threshold` voters have reached without a gap. There is
    /// none while fewer voters than that have voted.
    pub open spec fn stable_clock(self) -> Option<u64> {
        stable_event(frontier_for(self.votes), self.stability_threshold)
    }

    /// The commands that can be executed, in their order.
    pub open spec fn stable_commands(self) -> Seq<Command> {
        operations(self.cmds.subrange(0, executable_count(self.cmds, self.stable_clock())))
    }

    /// The table after the commands that can be executed have left it.
    pub open spec fn without_stable(self) -> Self {
        VotesTableView {
            cmds: self.cmds.subrange(
                executable_count(self.cmds, self.stable_clock()),
                self.cmds.len() as int,
            ),
            ..self
        }
    }
}

/// The commands on one key and the votes on it.
pub struct VotesTable {
    stability_threshold: usize,
    // the votes on the key
    votes: AEClock,
    // the commands on the key, ordered by their sort identifier
    cmds: Vec<(SortId, Command)>,
}

impl View for VotesTable {
    type V = VotesTableView;

    closed spec fn view(&self) -> VotesTableView {
        VotesTableView {
            stability_threshold: self.stability_threshold,
            votes: events(self.votes),
            cmds: self.cmds@,
        }
    }
}

impl VotesTable {
    /// The invariant of the table: its commands are in order and its votes
    /// are well formed.
    pub closed spec fn wf(&self) -> bool {
        &&& self.stability_threshold > 0
        &&& self.votes.wf()
        &&& in_order(self.cmds@)
    }

    /// Creates the table of a key, without votes or commands.
    pub fn new(stability_threshold: usize) -> (table: Self)
        requires
            stability_threshold > 0,
        ensures
            table.wf(),
            table@ == VotesTableView::empty(stability_threshold),
    {
        let none: Vec<ProcessId> = Vec::new();
        let table = VotesTable {
            stability_threshold,
            votes: AEClock::with_actors(&none),
            cmds: Vec::new(),
        };
        assert(table@.votes =~= Map::empty());
        table
    }

    /// Whether a command waits under `id`.
    pub fn holds(&self, id: SortId) -> (found: bool)
        ensures
            found == self@.holds(id),
    {
        let mut i: usize = 0;
        while i < self.cmds.len()
            invariant
                i <= self.cmds.len(),
                forall|k: int| 0 <= k < i ==> (#[trigger] self.cmds@[k]).0 != id,
            decreases self.cmds.len() - i,
        {
            if self.cmds[i].0.0 == id.0 && self.cmds[i].0.1 == id.1 {
                assert(self@.cmds[i as int].0 == id);
                assert(self@.holds(id));
                return true;
            }
            i = i + 1;
        }
        false
    }

    /// Adds the votes of `range`.
    fn vote(&mut self, range: &VoteRange)
        requires
            old(self).wf(),
            range.wf(),
        ensures
            final(self).wf(),
            final(self)@ == (VotesTableView {
                votes: with_range(old(self)@.votes, *range),
                ..old(self)@
            }),
    {
        let ghost before = events(self.votes);
        let mut vote: u64 = range.start;
        while vote <= range.end
            invariant
                range.wf(),
                range.start <= vote <= range.end + 1,
                self.votes.wf(),
                self.cmds == old(self).cmds,
                self.stability_threshold == old(self).stability_threshold,
                before == events(old(self).votes),
                vote == range.start ==> events(self.votes) == before,
                vote > range.start ==> events(self.votes) == before.insert(
                    range.by,
                    events_of(before, range.by).union(
                        Set::new(|value: u64| range.start <= value < vote),
                    ),
                ),
            decreases range.end + 1 - vote,
        {
            let ghost now = events(self.votes);
            self.votes.add(range.by, vote);
            proof {
                let next = (vote + 1) as u64;
                let so_far = Set::new(|value: u64| range.start <= value < vote);
                let longer = Set::new(|value: u64| range.start <= value < next);
                if vote == range.start {
                    assert(events_of(before, range.by).insert(vote) =~= events_of(
                        before,
                        range.by,
                    ).union(longer));
                } else {
                    assert(events_of(now, range.by) == events_of(before, range.by).union(so_far));
                    assert(events_of(before, range.by).union(so_far).insert(vote) =~= events_of(
                        before,
                        range.by,
                    ).union(longer));
                    assert(now.insert(range.by, events_of(now, range.by).insert(vote))
                        =~= before.insert(range.by, events_of(before, range.by).union(longer)));
                }
            }
            vote = vote + 1;
        }
        proof {
            assert(Set::new(|value: u64| range.start <= value < vote) =~= range.values());
        }
    }

    /// Adds the command `cmd` under `id`, and the votes cast on it. No
    /// command may wait under `id` yet.
    pub fn add(&mut self, id: SortId, cmd: Command, ranges: &Vec<VoteRange>)
        requires
            old(self).wf(),
            !old(self)@.holds(id),
            forall|i: int| 0 <= i < ranges@.len() ==> (#[trigger] ranges@[i]).wf(),
        ensures
            final(self).wf(),
            final(self)@ == old(self)@.with(id, cmd, ranges@),
    {
        // add command to the sorted list of commands to be executed
        let mut at: usize = 0;
        while at < self.cmds.len() && comes_before(self.cmds[at].0, id)
            invariant
                at <= self.cmds.len(),
                self.cmds == old(self).cmds,
                in_order(self.cmds@),
                forall|i: int| 0 <= i < at ==> before((#[trigger] self.cmds@[i]).0, id),
            decreases self.cmds.len() - at,
        {
            at = at + 1;
        }
        proof {
            let cmds = self.cmds@;
            assert forall|i: int| at <= i < cmds.len() implies !before(
                (#[trigger] cmds[i]).0,
                id,
            ) by {
                if at < i {
                    assert(before(cmds[at as int].0, cmds[i].0));
                }
            }
            assert forall|i: int| 0 <= i < cmds.len() implies (#[trigger] cmds[i]).0 != id by {
                if cmds[i].0 == id {
                    assert(old(self)@.cmds[i].0 == id);
                    assert(old(self)@.holds(id));
                }
            }
            lemma_placed(cmds, id, cmd, at as int);
            lemma_placed_in_order(cmds, id, cmd, at as int);
        }
        self.cmds.insert(at, (id, cmd));

        // update votes with the votes used on this command
        let mut i: usize = 0;
        while i < ranges.len()
            invariant
                i <= ranges.len(),
                self.wf(),
                forall|k: int| 0 <= k < ranges@.len() ==> (#[trigger] ranges@[k]).wf(),
                self@ == (VotesTableView {
                    votes: with_ranges(old(self)@.votes, ranges@.subrange(0, i as int)),
                    cmds: placed(old(self)@.cmds, id, cmd),
                    ..old(self)@
                }),
            decreases ranges.len() - i,
        {
            self.vote(&ranges[i]);
            proof {
                let longer = ranges@.subrange(0, i + 1);
                assert(longer.drop_last() =~= ranges@.subrange(0, i as int));
                assert(longer.last() == ranges@[i as int]);
            }
            i = i + 1;
        }
        proof {
            crate::seq_lemmas::lemma_full_prefix(ranges@);
        }
    }

    /// Takes out the commands that can be executed now, in their order:
    /// those whose clock is stable.
    pub fn stable_commands(&mut self) -> (stable: Vec<Command>)
        requires
            old(self).wf(),
        ensures
            final(self).wf(),
            stable@ == old(self)@.stable_commands(),
            final(self)@ == old(self)@.without_stable(),
    {
        // compute the (potentially) new stable clock for this key
        let limit = self.votes.frontier_threshold(self.stability_threshold);
        proof {
            lemma_frontier_for(events(self.votes), contiguous(self.votes));
        }

        // find where the commands whose clock is stable end
        let mut split: usize = 0;
        let mut stable: Vec<Command> = Vec::new();
        while split < self.cmds.len() && is_executable(self.cmds[split].0.0, limit)
            invariant
                split <= self.cmds.len(),
                self.cmds == old(self).cmds,
                in_order(self.cmds@),
                stable@ == operations(self.cmds@.subrange(0, split as int)),
                forall|i: int|
                    0 <= i < split ==> executable((#[trigger] self.cmds@[i]).0.0, limit),
            decreases self.cmds.len() - split,
        {
            stable.push(self.cmds[split].1.clone());
            assert(stable@ =~= operations(self.cmds@.subrange(0, split + 1)));
            split = split + 1;
        }
        proof {
            let cmds = self.cmds@;
            assert forall|i: int| split <= i < cmds.len() implies !executable(
                (#[trigger] cmds[i]).0.0,
                limit,
            ) by {
                if split < i {
                    assert(before(cmds[split as int].0, cmds[i].0));
                }
            }
            lemma_executable_count(cmds, limit, split as int);
        }

        // keep the others
        let mut rest = self.cmds.split_off(split);
        std::mem::swap(&mut rest, &mut self.cmds);
        proof {
            let cmds = self.cmds@;
            let all = old(self).cmds@;
            assert forall|i: int, j: int| 0 <= i < j < cmds.len() implies before(
                (#[trigger] cmds[i]).0,
                (#[trigger] cmds[j]).0,
            ) by {
                assert(cmds[i] == all[split + i]);
                assert(cmds[j] == all[split + j]);
            }
        }
        stable
    }
}

/// Mathematical model of a `MultiVotesTable`.
pub struct MultiVotesTableView {
    /// The number of voters that make a clock value stable.
    pub stability_threshold: usize,
    /// The table of each key that a command was added on.
    pub tables: Map<Seq<char>, VotesTableView>,
}

impl MultiVotesTableView {
    /// The table of `key`; the empty table, if no command was added on the
    /// key yet.
    pub open spec fn table_of(self, key: Seq<char>) -> VotesTableView {
        if self.tables.contains_key(key) {
            self.tables[key]
        } else {
            VotesTableView::empty(self.stability_threshold)
        }
    }

    /// What adding the operation `cmd` on `key` under `id`, with the votes
    /// `ranges`, leads to: the tables afterwards, and the operations on
    /// the key that can be executed, in their order.
    pub open spec fn added(self, id: SortId, key: Seq<char>, cmd: Command, ranges: Seq<VoteRange>)
        -> (Self, Seq<Command>) {
        let table = self.table_of(key).with(id, cmd, ranges);
        (
            MultiVotesTableView { tables: self.tables.insert(key, table.without_stable()), ..self },
            table.stable_commands(),
        )
    }

    /// What adding the first `count` operations of `ops` under `id`, each
    /// with the votes on its key, leads to: the tables afterwards, and the
    /// operations that can be executed, key after key.
    pub open spec fn added_all(
        self,
        id: SortId,
        ops: Seq<(Key, Command)>,
        votes: Seq<(Key, Vec<VoteRange>)>,
        count: int,
    ) -> (Self, Seq<Command>)
        decreases count,
    {
        if count <= 0 {
            (self, Seq::empty())
        } else {
            let (mid, done) = self.added_all(id, ops, votes, count - 1);
            let (post, stable) = mid.added(
                id,
                ops[count - 1].0@,
                ops[count - 1].1,
                votes[count - 1].1@,
            );
            (post, done + stable)
        }
    }
}

/// The model of a list of tables, one per key.
pub open spec fn tables_view(tables: Seq<(Key, VotesTable)>) -> Map<Seq<char>, VotesTableView> {
    Map::new(
        |key: Seq<char>| exists|i: int| 0 <= i < tables.len() && (#[trigger] tables[i]).0@ == key,
        |key: Seq<char>|
            tables[choose|i: int| 0 <= i < tables.len() && (#[trigger] tables[i]).0@ == key].1@,
    )
}

/// Whether no two tables are for the same key.
pub open spec fn one_table_per_key(tables: Seq<(Key, VotesTable)>) -> bool {
    forall|i: int, j: int|
        0 <= i < j < tables.len() ==> (#[trigger] tables[i]).0@ != (#[trigger] tables[j]).0@
}

/// With one table per key, the table of a key is the one listed for it.
pub proof fn lemma_table_listed(tables: Seq<(Key, VotesTable)>, at: int)
    requires
        one_table_per_key(tables),
        0 <= at < tables.len(),
    ensures
        tables_view(tables).contains_key(tables[at].0@),
        tables_view(tables)[tables[at].0@] == tables[at].1@,
{
    let key = tables[at].0@;
    let found = choose|i: int| 0 <= i < tables.len() && (#[trigger] tables[i]).0@ == key;
    if found < at {
        assert(tables[found].0@ != tables[at].0@);
    } else if at < found {
        assert(tables[at].0@ != tables[found].0@);
    }
}

/// The votes tables of all keys.
pub struct MultiVotesTable {
    stability_threshold: usize,
    tables: Vec<(Key, VotesTable)>,
}

impl View for MultiVotesTable {
    type V = MultiVotesTableView;

    closed spec fn view(&self) -> MultiVotesTableView {
        MultiVotesTableView {
            stability_threshold: self.stability_threshold,
            tables: tables_view(self.tables@),
        }
    }
}

impl MultiVotesTable {
    /// The invariant: one table per key, each well formed and with the
    /// stability threshold of the whole.
    pub closed spec fn wf(&self) -> bool {
        &&& self.stability_threshold > 0
        &&& one_table_per_key(self.tables@)
        &&& forall|i: int|
            0 <= i < self.tables@.len() ==> (#[trigger] self.tables@[i]).1.wf()
                && self.tables@[i].1@.stability_threshold == self.stability_threshold
    }

    /// Create a new `MultiVotesTable` instance given the stability
    /// threshold.
    pub fn new(stability_threshold: usize) -> (table: Self)
        requires
            stability_threshold > 0,
        ensures
            table.wf(),
            table@ == (MultiVotesTableView { stability_threshold, tables: Map::empty() }),
    {
        let table = MultiVotesTable { stability_threshold, tables: Vec::new() };
        assert(table@.tables =~= Map::empty());
        table
    }

    /// Where the table of `key` stands, if there is one.
    fn find(&self, key: &Key) -> (found: Option<usize>)
        ensures
            match found {
                Some(i) => i < self.tables@.len() && self.tables@[i as int].0@ == key@,
                None => forall|i: int|
                    0 <= i < self.tables@.len() ==> (#[trigger] self.tables@[i]).0@ != key@,
            },
    {
        let mut i: usize = 0;
        while i < self.tables.len()
            invariant
                i <= self.tables.len(),
                forall|k: int| 0 <= k < i ==> (#[trigger] self.tables@[k]).0@ != key@,
            decreases self.tables.len() - i,
        {
            if self.tables[i].0 == *key {
                return Some(i);
            }
            i = i + 1;
        }
        None
    }

    /// Whether a command waits under `id` in the table of `key`.
    pub fn holds(&self, key: &Key, id: SortId) -> (found: bool)
        requires
            self.wf(),
        ensures
            found == self@.table_of(key@).holds(id),
    {
        match self.find(key) {
            Some(at) => {
                proof {
                    lemma_table_listed(self.tables@, at as int);
                }
                self.tables[at].1.holds(id)
            },
            None => false,
        }
    }

    /// Adds the operation `cmd` on `key` under `id`, with the votes
    /// `ranges`, and returns the operations on the key that can be
    /// executed now.
    fn add_on_key(&mut self, key: &Key, id: SortId, cmd: Command, ranges: &Vec<VoteRange>) -> (stable:
        Vec<Command>)
        requires
            old(self).wf(),
            !old(self)@.table_of(key@).holds(id),
            forall|i: int| 0 <= i < ranges@.len() ==> (#[trigger] ranges@[i]).wf(),
        ensures
            final(self).wf(),
            (final(self)@, stable@) == old(self)@.added(id, key@, cmd, ranges@),
    {
        let ghost before = self.tables@;
        let found = self.find(key);
        // get this key's table
        let (at, kept, mut table) = match found {
            Some(at) => {
                proof {
                    lemma_table_listed(before, at as int);
                }
                let (kept, table) = self.tables.remove(at);
                (at, kept, table)
            },
            None => {
                let at = self.tables.len();
                (at, key.clone(), VotesTable::new(self.stability_threshold))
            },
        };
        assert(table@ == old(self)@.table_of(key@));

        // add command and votes to the table
        table.add(id, cmd, ranges);

        // get new commands to be executed
        let stable = table.stable_commands();
        let ghost left = table@;
        self.tables.insert(at, (kept, table));
        proof {
            let after = self.tables@;
            assert(kept@ == key@);
            assert forall|i: int, j: int| 0 <= i < j < after.len() implies (#[trigger] after[i]).0@
                != (#[trigger] after[j]).0@ by {
                if found.is_some() {
                    assert(after[i].0@ == before[i].0@);
                    assert(after[j].0@ == before[j].0@);
                } else {
                    if j < before.len() {
                        assert(after[i] == before[i]);
                        assert(after[j] == before[j]);
                    } else {
                        assert(after[i] == before[i]);
                    }
                }
            }
            assert forall|i: int| 0 <= i < after.len() implies (#[trigger] after[i]).1.wf()
                && after[i].1@.stability_threshold == self.stability_threshold by {
                if i != at {
                    assert(after[i] == before[i]);
                }
            }
            lemma_table_listed(after, at as int);
            assert forall|other: Seq<char>|
                tables_view(after).contains_key(other) == tables_view(before).insert(
                    key@,
                    left,
                ).contains_key(other) by {
                if tables_view(after).contains_key(other) {
                    let i = choose|i: int|
                        0 <= i < after.len() && (#[trigger] after[i]).0@ == other;
                    if i != at {
                        assert(before[i].0@ == other);
                    }
                }
                if other != key@ && tables_view(before).contains_key(other) {
                    let i = choose|i: int|
                        0 <= i < before.len() && (#[trigger] before[i]).0@ == other;
                    assert(after[i].0@ == other);
                }
            }
            assert forall|other: Seq<char>| tables_view(after).contains_key(other) implies tables_view(
                after,
            )[other] == tables_view(before).insert(key@, left)[other] by {
                if other != key@ {
                    let i = choose|i: int|
                        0 <= i < after.len() && (#[trigger] after[i]).0@ == other;
                    assert(after[i] == before[i]);
                    lemma_table_listed(after, i);
                    lemma_table_listed(before, i);
                }
            }
            assert(tables_view(after) =~= tables_view(before).insert(key@, left));
        }
        stable
    }

    /// Add a new command, its clock and votes to the votes table, and
    /// return the operations that can be executed now: key after key, in
    /// the order of the command, and for each key in the order of the
    /// table. A no-op adds nothing.
    ///
    /// The votes are listed key by key in the order of the command, and no
    /// command of `proc_id` with this clock may wait on one of the keys.
    pub fn add(&mut self, proc_id: ProcessId, cmd: Option<MultiCommand>, clock: u64, votes: Votes)
        -> (to_execute: Vec<Command>)
        requires
            old(self).wf(),
            cmd matches Some(c) ==> {
                &&& votes@.len() == c@.len()
                &&& forall|i: int| 0 <= i < c@.len() ==> (#[trigger] votes@[i]).0@ == c@[i].0@
                &&& forall|i: int, k: int|
                    0 <= i < votes@.len() && 0 <= k < votes@[i].1@.len() ==> (
                    #[trigger] votes@[i].1@[k]).wf()
                &&& forall|i: int|
                    0 <= i < c@.len() ==> !old(self)@.table_of((#[trigger] c@[i]).0@).holds(
                        (clock, proc_id),
                    )
            },
        ensures
            final(self).wf(),
            (final(self)@, to_execute@) == match cmd {
                Some(c) => old(self)@.added_all((clock, proc_id), c@, votes@, c@.len() as int),
                None => (old(self)@, Seq::<Command>::empty()),
            },
    {
        let mut to_execute: Vec<Command> = Vec::new();
        // do nothing if noOp
        let cmd = match cmd {
            Some(cmd) => cmd,
            None => {
                return to_execute;
            },
        };
        cmd.well_formed();
        let ghost ops = cmd@;
        let entries = cmd.into_entries();

        // create sort identifier:
        // - if two commands got assigned the same clock, they will be ordered
        //   by the process id
        let sort_id: SortId = (clock, proc_id);

        // add commands and votes to the votes tables, and at the same time
        // compute which commands are safe to be executed
        let mut i: usize = 0;
        while i < entries.len()
            invariant
                i <= entries.len(),
                entries@ == ops,
                votes@.len() == ops.len(),
                crate::command::distinct_keys(ops),
                self.wf(),
                forall|k: int| 0 <= k < ops.len() ==> (#[trigger] votes@[k]).0@ == ops[k].0@,
                forall|k: int, l: int|
                    0 <= k < votes@.len() && 0 <= l < votes@[k].1@.len() ==> (
                    #[trigger] votes@[k].1@[l]).wf(),
                forall|k: int|
                    i <= k < ops.len() ==> !self@.table_of((#[trigger] ops[k]).0@).holds(sort_id),
                (self@, to_execute@) == old(self)@.added_all(sort_id, ops, votes@, i as int),
            decreases entries.len() - i,
        {
            let ghost mid = self@;
            let ghost done = to_execute@;
            let ranges = &votes[i].1;
            assert forall|l: int| 0 <= l < ranges@.len() implies (#[trigger] ranges@[l]).wf() by {
                assert(votes@[i as int].1@[l].wf());
            }
            let mut stable = self.add_on_key(&entries[i].0, sort_id, entries[i].1.clone(), ranges);
            to_execute.append(&mut stable);
            proof {
                assert forall|k: int| i < k < ops.len() implies !self@.table_of(
                    (#[trigger] ops[k]).0@,
                ).holds(sort_id) by {
                    assert(ops[i as int].0@ != ops[k].0@);
                    assert(self@.table_of(ops[k].0@) == mid.table_of(ops[k].0@));
                }
            }
            i = i + 1;
        }
        to_execute
    }
}

/// What the executor of votes tables is told.
#[derive(Debug, PartialEq, Eq)]
pub enum TableExecutionInfo {
    /// A command is committed with a clock, and these are the votes on it.
    Votes { dot: Dot, cmd: ClientCommand, clock: u64, votes: Votes },
    /// Votes of a process that belong to no command.
    PhantomVotes { process_votes: ProcessVotes },
}

impl TableExecutionInfo {
    /// What is told about the command `cmd` committed under `dot` with
    /// clock `clock` and the votes `votes`.
    pub fn votes(dot: Dot, cmd: ClientCommand, clock: u64, votes: Votes) -> (info: Self)
        ensures
            info == (TableExecutionInfo::Votes { dot, cmd, clock, votes }),
    {
        TableExecutionInfo::Votes { dot, cmd, clock, votes }
    }

    /// What is told about votes that belong to no command.
    pub fn phantom_votes(process_votes: ProcessVotes) -> (info: Self)
        ensures
            info == (TableExecutionInfo::PhantomVotes { process_votes }),
    {
        TableExecutionInfo::PhantomVotes { process_votes }
    }
}

} // verus!
