//! Commands on a key-value store: single-key operations, multi-key commands,
//! and the commands that clients submit for replication.

use crate::id::Rifl;
use vstd::prelude::*;

verus! {

/// A key of the store.
pub type Key = String;

/// A value of the store.
pub type Value = String;

/// An operation on one key.
#[derive(Debug, PartialEq, Eq)]
pub enum Command {
    Get,
    Put(Value),
}

impl Clone for Command {
    fn clone(&self) -> (copy: Self)
        ensures
            copy == *self,
    {
        match self {
            Command::Get => Command::Get,
            Command::Put(value) => Command::Put(value.clone()),
        }
    }
}

/// Whether `a` comes before `b` in the order of strings: at the first place
/// where they differ `a` has the lower character, or `a` ends there.
pub open spec fn key_before(a: Seq<char>, b: Seq<char>) -> bool
    decreases a.len(),
{
    if b.len() == 0 {
        false
    } else if a.len() == 0 {
        true
    } else if a[0] != b[0] {
        (a[0] as u32) < (b[0] as u32)
    } else {
        key_before(a.drop_first(), b.drop_first())
    }
}

/// `<String as PartialOrd>::lt`, the comparison of two strings by `<`:
/// strings are ordered lexicographically, by the code points of their
/// characters.
#[verifier::external_body]
fn comes_before(a: &Key, b: &Key) -> (res: bool)
    ensures
        res == key_before(a@, b@),
{
    a < b
}

/// Of two strings, one comes before the other or they are the same string;
/// and no string comes before itself.
pub proof fn lemma_key_order(a: Seq<char>, b: Seq<char>)
    ensures
        key_before(a, b) || a == b || key_before(b, a),
        key_before(a, b) ==> a != b,
    decreases a.len(),
{
    if a.len() == 0 || b.len() == 0 {
        if a.len() == 0 && b.len() == 0 {
            assert(a =~= b);
        }
    } else if a[0] == b[0] {
        lemma_key_order(a.drop_first(), b.drop_first());
        if a.drop_first() == b.drop_first() {
            assert(a =~= seq![a[0]] + a.drop_first());
            assert(b =~= seq![b[0]] + b.drop_first());
        }
        if a == b {
            assert(a.drop_first() == b.drop_first());
        }
    } else {
        vstd::utf8::char_u32_cast(a[0], a[0] as u32);
        vstd::utf8::char_u32_cast(b[0], b[0] as u32);
    }
}

/// Whether the entries are in the order of their keys, no key twice.
pub open spec fn ordered_keys(entries: Seq<(Key, Command)>) -> bool {
    forall|i: int, j: int|
        0 <= i < j < entries.len() ==> key_before(
            (#[trigger] entries[i]).0@,
            (#[trigger] entries[j]).0@,
        )
}

/// Whether no two entries have the same key.
pub open spec fn distinct_keys(entries: Seq<(Key, Command)>) -> bool {
    forall|i: int, j: int|
        0 <= i < j < entries.len() ==> (#[trigger] entries[i]).0@ != (#[trigger] entries[j]).0@
}

/// Entries in the order of their keys have distinct keys.
pub proof fn lemma_ordered_distinct(entries: Seq<(Key, Command)>)
    requires
        ordered_keys(entries),
    ensures
        distinct_keys(entries),
{
    assert forall|i: int, j: int| 0 <= i < j < entries.len() implies (#[trigger] entries[i]).0@
        != (#[trigger] entries[j]).0@ by {
        lemma_key_order(entries[i].0@, entries[j].0@);
    }
}

/// What follows the last entry whose key comes before `key`: the place of
/// `key` among entries in the order of their keys.
pub open spec fn key_place(entries: Seq<(Key, Command)>, key: Seq<char>) -> int
    decreases entries.len(),
{
    if entries.len() == 0 {
        0
    } else if key_before(entries.last().0@, key) {
        entries.len() as int
    } else {
        key_place(entries.drop_last(), key)
    }
}

/// Whether `at` parts the entries whose key comes before `key` from the
/// others.
pub open spec fn parts_at(entries: Seq<(Key, Command)>, key: Seq<char>, at: int) -> bool {
    &&& 0 <= at <= entries.len()
    &&& forall|i: int| 0 <= i < at ==> key_before((#[trigger] entries[i]).0@, key)
    &&& forall|i: int| at <= i < entries.len() ==> !key_before((#[trigger] entries[i]).0@, key)
}

/// What parts the entries whose key comes before `key` from the others is
/// the place of `key`.
pub proof fn lemma_key_place(entries: Seq<(Key, Command)>, key: Seq<char>, at: int)
    requires
        parts_at(entries, key, at),
    ensures
        key_place(entries, key) == at,
    decreases entries.len(),
{
    if entries.len() > 0 {
        if key_before(entries.last().0@, key) {
            if at < entries.len() {
                assert(!key_before(entries[entries.len() - 1].0@, key));
            }
        } else {
            if at == entries.len() {
                assert(key_before(entries[entries.len() - 1].0@, key));
            }
            let shorter = entries.drop_last();
            assert forall|i: int| 0 <= i < at implies key_before((#[trigger] shorter[i]).0@, key) by {
                assert(shorter[i] == entries[i]);
            }
            assert forall|i: int| at <= i < shorter.len() implies !key_before(
                (#[trigger] shorter[i]).0@,
                key,
            ) by {
                assert(shorter[i] == entries[i]);
            }
            lemma_key_place(shorter, key, at);
        }
    }
}

/// `entries` with `command` recorded for `key`: in place of the command that
/// the key had, or at the place of the key if it had none.
pub open spec fn recorded(entries: Seq<(Key, Command)>, key: Key, command: Command) -> Seq<
    (Key, Command),
> {
    let at = key_place(entries, key@);
    if 0 <= at < entries.len() && entries[at].0@ == key@ {
        entries.update(at, (entries[at].0, command))
    } else {
        entries.insert(at, (key, command))
    }
}

/// What is left of a list of entries once each is recorded in turn: every
/// key once, in the order of the keys, with the command of its last entry.
pub open spec fn collected(entries: Seq<(Key, Command)>) -> Seq<(Key, Command)>
    decreases entries.len(),
{
    if entries.len() == 0 {
        Seq::empty()
    } else {
        recorded(collected(entries.drop_last()), entries.last().0, entries.last().1)
    }
}

/// Recording keeps the entries in the order of their keys.
pub proof fn lemma_recorded_ordered(
    entries: Seq<(Key, Command)>,
    key: Key,
    command: Command,
    at: int,
)
    requires
        ordered_keys(entries),
        parts_at(entries, key@, at),
    ensures
        key_place(entries, key@) == at,
        ordered_keys(recorded(entries, key, command)),
{
    lemma_key_place(entries, key@, at);
    let after = recorded(entries, key, command);
    if at < entries.len() && entries[at].0@ == key@ {
        assert forall|i: int, j: int| 0 <= i < j < after.len() implies key_before(
            (#[trigger] after[i]).0@,
            (#[trigger] after[j]).0@,
        ) by {
            assert(after[i].0@ == entries[i].0@);
            assert(after[j].0@ == entries[j].0@);
        }
    } else {
        assert forall|i: int, j: int| 0 <= i < j < after.len() implies key_before(
            (#[trigger] after[i]).0@,
            (#[trigger] after[j]).0@,
        ) by {
            if j < at {
                assert(after[i] == entries[i]);
                assert(after[j] == entries[j]);
            } else if j == at {
                assert(after[i] == entries[i]);
            } else if i < at {
                assert(after[i] == entries[i]);
                assert(after[j] == entries[j - 1]);
            } else if i == at {
                assert(after[j] == entries[j - 1]);
                assert(!key_before(entries[j - 1].0@, key@));
                lemma_key_order(key@, entries[j - 1].0@);
                if entries[j - 1].0@ == key@ {
                    if j - 1 > at {
                        assert(key_before(entries[at].0@, entries[j - 1].0@));
                    }
                }
            } else {
                assert(after[i] == entries[i - 1]);
                assert(after[j] == entries[j - 1]);
            }
        }
    }
}

/// What is collected is in the order of its keys.
pub proof fn law_collected_is_ordered(entries: Seq<(Key, Command)>)
    ensures
        ordered_keys(collected(entries)),
    decreases entries.len(),
{
    if entries.len() > 0 {
        law_collected_is_ordered(entries.drop_last());
        let before = collected(entries.drop_last());
        lemma_parts(before, entries.last().0@);
        lemma_recorded_ordered(
            before,
            entries.last().0,
            entries.last().1,
            key_place(before, entries.last().0@),
        );
    }
}

/// Among entries in the order of their keys, the place of a key parts the
/// entries whose key comes before it from the others.
pub proof fn lemma_parts(entries: Seq<(Key, Command)>, key: Seq<char>)
    requires
        ordered_keys(entries),
    ensures
        parts_at(entries, key, key_place(entries, key)),
    decreases entries.len(),
{
    if entries.len() > 0 {
        let shorter = entries.drop_last();
        assert forall|i: int, j: int| 0 <= i < j < shorter.len() implies key_before(
            (#[trigger] shorter[i]).0@,
            (#[trigger] shorter[j]).0@,
        ) by {
            assert(shorter[i] == entries[i]);
            assert(shorter[j] == entries[j]);
        }
        if key_before(entries.last().0@, key) {
            assert forall|i: int| 0 <= i < entries.len() implies key_before(
                (#[trigger] entries[i]).0@,
                key,
            ) by {
                if i < entries.len() - 1 {
                    lemma_key_before_chain(
                        entries[i].0@,
                        entries[entries.len() - 1].0@,
                        key,
                    );
                }
            }
        } else {
            lemma_parts(shorter, key);
            let at = key_place(shorter, key);
            assert forall|i: int| 0 <= i < at implies key_before((#[trigger] entries[i]).0@, key) by {
                assert(shorter[i] == entries[i]);
            }
            assert forall|i: int| at <= i < entries.len() implies !key_before(
                (#[trigger] entries[i]).0@,
                key,
            ) by {
                if i < shorter.len() {
                    assert(shorter[i] == entries[i]);
                }
            }
        }
    }
}

/// What comes before a string that comes before another comes before that
/// other.
pub proof fn lemma_key_before_chain(a: Seq<char>, b: Seq<char>, c: Seq<char>)
    requires
        key_before(a, b),
        key_before(b, c),
    ensures
        key_before(a, c),
    decreases a.len(),
{
    if a.len() > 0 {
        if a[0] == b[0] && b[0] == c[0] {
            lemma_key_before_chain(a.drop_first(), b.drop_first(), c.drop_first());
        }
    }
}

/// A command that operates on several keys, at most once on each.
#[derive(Debug, PartialEq, Eq)]
pub struct MultiCommand {
    commands: Vec<(Key, Command)>,
}

impl View for MultiCommand {
    type V = Seq<(Key, Command)>;

    closed spec fn view(&self) -> Seq<(Key, Command)> {
        self.commands@
    }
}

impl Clone for MultiCommand {
    fn clone(&self) -> (copy: Self)
        ensures
            copy@ == self@,
    {
        let mut commands: Vec<(Key, Command)> = Vec::new();
        let mut i: usize = 0;
        while i < self.commands.len()
            invariant
                i <= self.commands.len(),
                commands@ == self.commands@.subrange(0, i as int),
            decreases self.commands.len() - i,
        {
            let key = self.commands[i].0.clone();
            let command = self.commands[i].1.clone();
            commands.push((key, command));
            assert(commands@ =~= self.commands@.subrange(0, i + 1));
            i = i + 1;
        }
        assert(commands@ =~= self.commands@);
        proof {
            use_type_invariant(self);
        }
        MultiCommand { commands }
    }
}

impl MultiCommand {
    /// The invariant of a multi-command: its entries are in the order of
    /// their keys, and so no key occurs twice.
    pub open spec fn wf(&self) -> bool {
        ordered_keys(self@)
    }

    #[verifier::type_invariant]
    spec fn keys_are_ordered(self) -> bool {
        ordered_keys(self.commands@)
    }

    /// Every multi-command is well formed.
    pub fn well_formed(&self)
        ensures
            self.wf(),
            distinct_keys(self@),
    {
        proof {
            use_type_invariant(self);
            lemma_ordered_distinct(self@);
        }
    }

    /// Creates a new `MultiCommand` from a list of operations: they are put
    /// in the order of their keys. Where a key is listed more than once, it
    /// keeps the operation of its last entry.
    pub fn new(commands: Vec<(Key, Command)>) -> (multi: Self)
        ensures
            multi.wf(),
            multi@ == collected(commands@),
    {
        let mut multi: Vec<(Key, Command)> = Vec::new();
        let mut commands = commands;
        let ghost all = commands@;
        let mut taken: Vec<(Key, Command)> = Vec::new();
        // take the entries from the last to the first, then record them from
        // the first to the last
        while commands.len() > 0
            invariant
                commands@.len() + taken@.len() == all.len(),
                commands@ == all.subrange(0, commands@.len() as int),
                forall|k: int|
                    0 <= k < taken@.len() ==> #[trigger] taken@[k] == all[all.len() - 1 - k],
            decreases commands.len(),
        {
            let entry = commands.pop().unwrap();
            taken.push(entry);
        }
        while taken.len() > 0
            invariant
                taken@.len() <= all.len(),
                forall|k: int|
                    0 <= k < taken@.len() ==> #[trigger] taken@[k] == all[all.len() - 1 - k],
                multi@ == collected(all.subrange(0, all.len() - taken@.len())),
                ordered_keys(multi@),
            decreases taken.len(),
        {
            let ghost done = all.subrange(0, all.len() - taken@.len());
            let (key, command) = taken.pop().unwrap();
            proof {
                let next = all.subrange(0, all.len() - taken@.len());
                assert(next.drop_last() =~= done);
                assert(next.last() == (key, command));
            }
            record(&mut multi, key, command);
        }
        assert(all.subrange(0, all.len() as int) =~= all);
        MultiCommand { commands: multi }
    }

    /// Creates a multi-get command: a `Get` on each of the keys.
    pub fn get(keys: Vec<Key>) -> (multi: Self)
        ensures
            multi.wf(),
            multi@ == collected(keys@.map_values(|key: Key| (key, Command::Get))),
    {
        let ghost gets = keys@.map_values(|key: Key| (key, Command::Get));
        let mut commands: Vec<(Key, Command)> = Vec::new();
        let mut i: usize = 0;
        while i < keys.len()
            invariant
                i <= keys.len(),
                gets == keys@.map_values(|key: Key| (key, Command::Get)),
                commands@ == gets.subrange(0, i as int),
            decreases keys.len() - i,
        {
            commands.push((keys[i].clone(), Command::Get));
            assert(commands@ =~= gets.subrange(0, i + 1));
            i = i + 1;
        }
        assert(commands@ =~= gets);
        Self::new(commands)
    }

    /// The number of keys of the command.
    pub fn key_count(&self) -> (count: usize)
        ensures
            count == self@.len(),
    {
        self.commands.len()
    }

    /// Returns references to the keys this command operates on, in their
    /// order.
    pub fn keys(&self) -> (keys: Vec<&Key>)
        ensures
            keys@.len() == self@.len(),
            forall|i: int| 0 <= i < keys@.len() ==> *(#[trigger] keys@[i]) == self@[i].0,
    {
        let mut keys: Vec<&Key> = Vec::new();
        let mut i: usize = 0;
        while i < self.commands.len()
            invariant
                i <= self.commands.len(),
                keys@.len() == i,
                forall|k: int| 0 <= k < i ==> *(#[trigger] keys@[k]) == self.commands@[k].0,
            decreases self.commands.len() - i,
        {
            keys.push(&self.commands[i].0);
            i = i + 1;
        }
        keys
    }

    /// The key at position `i` and its operation.
    pub fn entry(&self, i: usize) -> (entry: &(Key, Command))
        requires
            i < self@.len(),
        ensures
            *entry == self@[i as int],
    {
        &self.commands[i]
    }

    /// Turns the command into the list of its keys, each with its operation.
    pub fn into_entries(self) -> (entries: Vec<(Key, Command)>)
        ensures
            entries@ == self@,
    {
        self.commands
    }
}

/// The place of `key` among `entries`.
fn place(entries: &Vec<(Key, Command)>, key: &Key) -> (at: usize)
    requires
        ordered_keys(entries@),
    ensures
        parts_at(entries@, key@, at as int),
{
    let mut at: usize = 0;
    while at < entries.len() && comes_before(&entries[at].0, key)
        invariant
            at <= entries.len(),
            forall|i: int| 0 <= i < at ==> key_before((#[trigger] entries@[i]).0@, key@),
        decreases entries.len() - at,
    {
        at = at + 1;
    }
    proof {
        assert forall|i: int| at <= i < entries@.len() implies !key_before(
            (#[trigger] entries@[i]).0@,
            key@,
        ) by {
            if at < i {
                if key_before(entries@[i].0@, key@) {
                    lemma_key_before_chain(entries@[at as int].0@, entries@[i].0@, key@);
                }
            }
        }
    }
    at
}

/// Records `command` for `key` among `entries`.
fn record(entries: &mut Vec<(Key, Command)>, key: Key, command: Command)
    requires
        ordered_keys(old(entries)@),
    ensures
        ordered_keys(final(entries)@),
        final(entries)@ == recorded(old(entries)@, key, command),
{
    let at = place(entries, &key);
    proof {
        lemma_recorded_ordered(entries@, key, command, at as int);
    }
    if at < entries.len() && entries[at].0 == key {
        let kept = entries.remove(at);
        entries.insert(at, (kept.0, command));
        assert(entries@ =~= recorded(old(entries)@, key, command));
    } else {
        entries.insert(at, (key, command));
    }
}

/// A command submitted by a client for replication: the operations to run
/// and the identifier of the client's request.
#[derive(Debug, PartialEq, Eq)]
pub struct ClientCommand {
    rifl: Rifl,
    commands: MultiCommand,
}

/// Mathematical model of a `ClientCommand`.
pub struct ClientCommandView {
    pub rifl: Rifl,
    pub commands: Seq<(Key, Command)>,
}

impl View for ClientCommand {
    type V = ClientCommandView;

    closed spec fn view(&self) -> ClientCommandView {
        ClientCommandView { rifl: self.rifl, commands: self.commands@ }
    }
}

impl Clone for ClientCommand {
    fn clone(&self) -> (copy: Self)
        ensures
            copy@ == self@,
    {
        ClientCommand { rifl: self.rifl, commands: self.commands.clone() }
    }
}

impl ClientCommand {
    /// The invariant of a client command: no key occurs twice.
    pub open spec fn wf(&self) -> bool {
        distinct_keys(self@.commands)
    }

    /// Every client command is well formed.
    pub fn well_formed(&self)
        ensures
            self.wf(),
    {
        self.commands.well_formed();
    }

    /// Creates the command of request `rifl`.
    pub fn new(rifl: Rifl, commands: MultiCommand) -> (command: Self)
        ensures
            command.wf(),
            command@ == (ClientCommandView { rifl, commands: commands@ }),
    {
        commands.well_formed();
        ClientCommand { rifl, commands }
    }

    /// The identifier of the client's request.
    pub fn rifl(&self) -> (rifl: Rifl)
        ensures
            rifl == self@.rifl,
    {
        self.rifl
    }

    /// The number of keys the command operates on.
    pub fn key_count(&self) -> (count: usize)
        ensures
            count == self@.commands.len(),
    {
        self.commands.key_count()
    }

    /// The key at position `i`.
    pub fn key(&self, i: usize) -> (key: &Key)
        requires
            i < self@.commands.len(),
        ensures
            *key == self@.commands[i as int].0,
    {
        &self.commands.entry(i).0
    }

    /// The operations of the command.
    pub fn commands(&self) -> (commands: &MultiCommand)
        ensures
            commands@ == self@.commands,
    {
        &self.commands
    }
}

/// What an operation on a key returns: the value of the key before the
/// operation, if it had one.
pub type OpResult = Option<Value>;

/// Whether no two results are for the same key.
pub open spec fn one_result_per_key(results: Seq<(Key, OpResult)>) -> bool {
    forall|i: int, j: int|
        0 <= i < j < results.len() ==> (#[trigger] results[i]).0@ != (#[trigger] results[j]).0@
}

/// Whether `results` holds a result for `key`.
pub open spec fn has_result(results: Seq<(Key, OpResult)>, key: Key) -> bool {
    exists|i: int| 0 <= i < results.len() && (#[trigger] results[i]).0@ == key@
}

/// The result of a client's command: the result of its operation on each
/// of its keys, gathered as the operations run.
#[derive(Debug, PartialEq, Eq)]
pub struct CommandResult {
    rifl: Rifl,
    key_count: usize,
    results: Vec<(Key, OpResult)>,
}

/// Mathematical model of a `CommandResult`.
pub struct CommandResultView {
    pub rifl: Rifl,
    /// The number of keys of the command.
    pub key_count: usize,
    /// The results gathered so far, in the order of their arrival.
    pub results: Seq<(Key, OpResult)>,
}

impl View for CommandResult {
    type V = CommandResultView;

    closed spec fn view(&self) -> CommandResultView {
        CommandResultView { rifl: self.rifl, key_count: self.key_count, results: self.results@ }
    }
}

impl CommandResult {
    /// The invariant of a result: one result per key.
    pub open spec fn wf(&self) -> bool {
        one_result_per_key(self@.results)
    }

    /// Creates the result, still empty, of the command of request `rifl`,
    /// which operates on `key_count` keys.
    pub fn new(rifl: Rifl, key_count: usize) -> (result: Self)
        ensures
            result.wf(),
            result@ == (CommandResultView { rifl, key_count, results: Seq::empty() }),
    {
        CommandResult { rifl, key_count, results: Vec::new() }
    }

    /// Whether a result for `key` was gathered.
    pub fn has(&self, key: &Key) -> (found: bool)
        ensures
            found == has_result(self@.results, *key),
    {
        let mut i: usize = 0;
        while i < self.results.len()
            invariant
                i <= self.results.len(),
                forall|k: int| 0 <= k < i ==> (#[trigger] self.results@[k]).0@ != key@,
            decreases self.results.len() - i,
        {
            if self.results[i].0 == *key {
                assert(self@.results[i as int].0@ == key@);
                return true;
            }
            i = i + 1;
        }
        false
    }

    /// Adds the result of the operation on `key`, which has none yet, and
    /// says whether the results of all keys are in.
    pub fn add_partial(&mut self, key: Key, result: OpResult) -> (ready: bool)
        requires
            old(self).wf(),
            !has_result(old(self)@.results, key),
        ensures
            final(self).wf(),
            final(self)@ == (CommandResultView {
                results: old(self)@.results.push((key, result)),
                ..old(self)@
            }),
            ready == (final(self)@.results.len() == old(self)@.key_count),
    {
        let ghost before = self.results@;
        self.results.push((key, result));
        proof {
            let after = self.results@;
            assert forall|i: int, j: int| 0 <= i < j < after.len() implies (#[trigger] after[i]).0@
                != (#[trigger] after[j]).0@ by {
                assert(after[i] == before[i]);
                if j < before.len() {
                    assert(after[j] == before[j]);
                } else {
                    assert(self@.results[i].0@ == before[i].0@);
                    if before[i].0@ == key@ {
                        assert(has_result(old(self)@.results, key));
                    }
                }
            }
        }
        // we're ready if the number of partial results equals `key_count`
        self.results.len() == self.key_count
    }

    /// The identifier of the client's request.
    pub fn rifl(&self) -> (rifl: Rifl)
        ensures
            rifl == self@.rifl,
    {
        self.rifl
    }

    /// The results gathered so far, in the order of their arrival.
    pub fn results(&self) -> (results: &Vec<(Key, OpResult)>)
        ensures
            results@ == self@.results,
    {
        &self.results
    }
}

} // verus!
