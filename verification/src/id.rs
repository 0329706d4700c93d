//! Identifiers of processes, clients, commands and client requests.

use vstd::prelude::*;

verus! {

/// Identifier of a process (replica). Identifiers are positive.
pub type ProcessId = u64;

/// Identifier of a client.
pub type ClientId = u64;

/// A `Dot` names one command instance: the process that coordinates it and
/// a per-process sequence number.
#[derive(Debug, Clone, Copy, PartialEq, Eq, Hash, Structural)]
pub struct Dot {
    pub source: ProcessId,
    pub sequence: u64,
}

impl Dot {
    /// Creates a new `Dot`.
    pub fn new(source: ProcessId, sequence: u64) -> (dot: Dot)
        ensures
            dot.source == source,
            dot.sequence == sequence,
    {
        Dot { source, sequence }
    }

    /// The process that generated this dot.
    pub fn source(&self) -> (source: ProcessId)
        ensures
            source == self.source,
    {
        self.source
    }

    /// The sequence number of this dot at its source.
    pub fn sequence(&self) -> (sequence: u64)
        ensures
            sequence == self.sequence,
    {
        self.sequence
    }
}

/// The identifiers of the processes of a system of `n` processes: `1..=n`.
pub open spec fn spec_process_ids(n: usize) -> Seq<ProcessId> {
    Seq::new(n as nat, |i: int| (i + 1) as ProcessId)
}

/// Whether `id` names one of the `n` processes.
pub open spec fn is_process(n: usize, id: ProcessId) -> bool {
    1 <= id <= n
}

/// The processes of a system of `n` processes are those that `is_process`
/// accepts.
pub proof fn lemma_process_ids_to_set(n: usize)
    ensures
        forall|id: ProcessId| #[trigger]
            spec_process_ids(n).to_set().contains(id) <==> is_process(n, id),
        spec_process_ids(n).no_duplicates(),
{
    let ids = spec_process_ids(n);
    assert forall|id: ProcessId| #[trigger] ids.to_set().contains(id) <==> is_process(n, id) by {
        if ids.contains(id) {
            let k = choose|k: int| 0 <= k < ids.len() && ids[k] == id;
        }
        if is_process(n, id) {
            assert(ids[id - 1] == id);
        }
    }
}

/// The identifiers of the processes of a system of `n` processes, in
/// increasing order.
pub fn process_ids(n: usize) -> (ids: Vec<ProcessId>)
    ensures
        ids@ == spec_process_ids(n),
{
    let mut ids: Vec<ProcessId> = Vec::new();
    let mut i: usize = 0;
    while i < n
        invariant
            i <= n,
            ids@ == spec_process_ids(i),
        decreases n - i,
    {
        ids.push((i + 1) as ProcessId);
        i = i + 1;
        assert(ids@ =~= spec_process_ids(i));
    }
    ids
}

/// Generator of fresh dots for one process.
#[derive(Debug, Clone)]
pub struct DotGen {
    source: ProcessId,
    last_sequence: u64,
}

impl DotGen {
    /// The process the dots are generated for.
    pub closed spec fn spec_source(&self) -> ProcessId {
        self.source
    }

    /// The sequence number of the last dot handed out (0 if none was).
    pub closed spec fn spec_last_sequence(&self) -> u64 {
        self.last_sequence
    }

    /// Creates a generator that has not handed out any dot yet.
    pub fn new(source: ProcessId) -> (dots: DotGen)
        ensures
            dots.spec_source() == source,
            dots.spec_last_sequence() == 0,
    {
        DotGen { source, last_sequence: 0 }
    }

    /// Creates a generator that goes on after sequence number
    /// `last_sequence`.
    pub fn resume(source: ProcessId, last_sequence: u64) -> (dots: DotGen)
        ensures
            dots.spec_source() == source,
            dots.spec_last_sequence() == last_sequence,
    {
        DotGen { source, last_sequence }
    }

    /// The process the dots are generated for.
    #[verifier::when_used_as_spec(spec_source)]
    pub fn source(&self) -> (source: ProcessId)
        ensures
            source == self.spec_source(),
    {
        self.source
    }

    /// The sequence number of the last dot handed out.
    #[verifier::when_used_as_spec(spec_last_sequence)]
    pub fn last_sequence(&self) -> (sequence: u64)
        ensures
            sequence == self.spec_last_sequence(),
    {
        self.last_sequence
    }

    /// Hands out the next dot: sequence numbers grow by one at each call.
    pub fn next_dot(&mut self) -> (dot: Dot)
        requires
            old(self).last_sequence() < u64::MAX,
        ensures
            final(self).source() == old(self).source(),
            final(self).last_sequence() == old(self).last_sequence() + 1,
            dot.source == old(self).source(),
            dot.sequence == old(self).last_sequence() + 1,
    {
        self.last_sequence = self.last_sequence + 1;
        Dot { source: self.source, sequence: self.last_sequence }
    }
}

/// Identifier of a client request: the client and a per-client sequence
/// number.
#[derive(Debug, Clone, Copy, PartialEq, Eq, Hash, Structural)]
pub struct Rifl {
    pub source: ClientId,
    pub sequence: u64,
}

impl Rifl {
    /// Creates a new `Rifl`.
    pub fn new(source: ClientId, sequence: u64) -> (rifl: Rifl)
        ensures
            rifl.source == source,
            rifl.sequence == sequence,
    {
        Rifl { source, sequence }
    }

    /// The client that issued the request.
    pub fn source(&self) -> (source: ClientId)
        ensures
            source == self.source,
    {
        self.source
    }

    /// The sequence number of the request at its client.
    pub fn sequence(&self) -> (sequence: u64)
        ensures
            sequence == self.sequence,
    {
        self.sequence
    }
}

} // verus!
