//! What every protocol keeps about itself: who it is, whom it talks to, and
//! how often it took which path.

use crate::config::Config;
use crate::id::Dot;
use crate::id::DotGen;
use crate::id::ProcessId;
use crate::seq_lemmas::lemma_full_prefix;
use crate::seq_lemmas::lemma_prefix_to_set_step;
use crate::std_ext::clone_process_set;
use std::collections::HashSet;
use vstd::prelude::*;

verus! {

broadcast use vstd::std_specs::hash::group_hash_axioms;

/// Counters kept by a protocol. They stop at the largest value of `u64`.
#[derive(Debug, Clone, Copy, PartialEq, Eq, Structural)]
pub struct ProtocolMetrics {
    /// Commands committed on the fast path.
    pub fast_paths: u64,
    /// Commands sent to the slow path.
    pub slow_paths: u64,
    /// Commands garbage-collected once stable.
    pub stable_count: u64,
}

/// `count` and `by` added up, stopping at the largest value of `u64`.
pub open spec fn spec_saturating(count: u64, by: int) -> u64 {
    if count + by > u64::MAX {
        u64::MAX
    } else {
        (count + by) as u64
    }
}

impl ProtocolMetrics {
    /// Counters at zero.
    pub fn new() -> (metrics: ProtocolMetrics)
        ensures
            metrics == (ProtocolMetrics { fast_paths: 0, slow_paths: 0, stable_count: 0 }),
    {
        ProtocolMetrics { fast_paths: 0, slow_paths: 0, stable_count: 0 }
    }

    /// Number of commands committed on the fast path.
    pub fn fast_paths(&self) -> (count: u64)
        ensures
            count == self.fast_paths,
    {
        self.fast_paths
    }

    /// Number of commands sent to the slow path.
    pub fn slow_paths(&self) -> (count: u64)
        ensures
            count == self.slow_paths,
    {
        self.slow_paths
    }

    /// Number of commands garbage-collected once stable.
    pub fn stable_count(&self) -> (count: u64)
        ensures
            count == self.stable_count,
    {
        self.stable_count
    }
}

/// The first `k` elements of `processes` (all of them if there are fewer),
/// as a set.
pub open spec fn closest(processes: Seq<ProcessId>, k: usize) -> Set<ProcessId> {
    if k <= processes.len() {
        processes.subrange(0, k as int).to_set()
    } else {
        processes.to_set()
    }
}

/// Mathematical model of a `BaseProcess`.
pub struct BaseProcessView {
    pub process_id: ProcessId,
    pub config: Config,
    pub fast_quorum_size: usize,
    pub write_quorum_size: usize,
    /// The processes known, closest first; `None` before discovery.
    pub processes: Option<Seq<ProcessId>>,
    /// The sequence number of the last dot generated.
    pub last_sequence: u64,
    pub metrics: ProtocolMetrics,
}

impl BaseProcessView {
    /// All known processes.
    pub open spec fn all(self) -> Set<ProcessId>
        recommends
            self.processes.is_some(),
    {
        self.processes.unwrap().to_set()
    }

    /// All known processes but this one.
    pub open spec fn all_but_me(self) -> Set<ProcessId>
        recommends
            self.processes.is_some(),
    {
        self.all().remove(self.process_id)
    }

    /// The fast quorum: the closest `fast_quorum_size` processes.
    pub open spec fn fast_quorum(self) -> Set<ProcessId>
        recommends
            self.processes.is_some(),
    {
        closest(self.processes.unwrap(), self.fast_quorum_size)
    }

    /// The write quorum: the closest `write_quorum_size` processes.
    pub open spec fn write_quorum(self) -> Set<ProcessId>
        recommends
            self.processes.is_some(),
    {
        closest(self.processes.unwrap(), self.write_quorum_size)
    }
}

/// State common to all protocols.
pub struct BaseProcess {
    process_id: ProcessId,
    config: Config,
    fast_quorum_size: usize,
    write_quorum_size: usize,
    processes: Option<Ghost<Seq<ProcessId>>>,
    all: HashSet<ProcessId>,
    all_but_me: HashSet<ProcessId>,
    fast_quorum: HashSet<ProcessId>,
    write_quorum: HashSet<ProcessId>,
    dot_gen: DotGen,
    metrics: ProtocolMetrics,
}

impl View for BaseProcess {
    type V = BaseProcessView;

    closed spec fn view(&self) -> BaseProcessView {
        BaseProcessView {
            process_id: self.process_id,
            config: self.config,
            fast_quorum_size: self.fast_quorum_size,
            write_quorum_size: self.write_quorum_size,
            processes: match self.processes {
                Some(processes) => Some(processes@),
                None => None,
            },
            last_sequence: self.dot_gen.last_sequence(),
            metrics: self.metrics,
        }
    }
}

impl Clone for BaseProcess {
    fn clone(&self) -> (copy: Self)
        ensures
            copy.wf() == self.wf(),
            copy@ == self@,
    {
        BaseProcess {
            process_id: self.process_id,
            config: self.config,
            fast_quorum_size: self.fast_quorum_size,
            write_quorum_size: self.write_quorum_size,
            processes: self.processes,
            all: clone_process_set(&self.all),
            all_but_me: clone_process_set(&self.all_but_me),
            fast_quorum: clone_process_set(&self.fast_quorum),
            write_quorum: clone_process_set(&self.write_quorum),
            dot_gen: DotGen::resume(self.dot_gen.source(), self.dot_gen.last_sequence()),
            metrics: self.metrics,
        }
    }
}

/// The set of the first `k` elements of `processes`.
fn closest_set(processes: &Vec<ProcessId>, k: usize) -> (set: HashSet<ProcessId>)
    ensures
        set@ == closest(processes@, k),
{
    let mut set: HashSet<ProcessId> = HashSet::new();
    let limit = if k <= processes.len() {
        k
    } else {
        processes.len()
    };
    let mut i: usize = 0;
    while i < limit
        invariant
            i <= limit <= processes.len(),
            set@ == processes@.subrange(0, i as int).to_set(),
        decreases limit - i,
    {
        set.insert(processes[i]);
        proof {
            lemma_prefix_to_set_step(processes@, i as int);
        }
        i = i + 1;
    }
    proof {
        lemma_full_prefix(processes@);
    }
    set
}

impl BaseProcess {
    /// The invariant of the base process: the sets it hands out are those of
    /// its model, and its dots are its own.
    pub closed spec fn wf(&self) -> bool {
        &&& self.dot_gen.source() == self.process_id
        &&& self@.processes.is_some() ==> {
            &&& self.all@ == self@.all()
            &&& self.all_but_me@ == self@.all_but_me()
            &&& self.fast_quorum@ == self@.fast_quorum()
            &&& self.write_quorum@ == self@.write_quorum()
        }
    }

    /// Creates the base of process `process_id`, which knows no process yet.
    pub fn new(
        process_id: ProcessId,
        config: Config,
        fast_quorum_size: usize,
        write_quorum_size: usize,
    ) -> (base: BaseProcess)
        ensures
            base.wf(),
            base@ == (BaseProcessView {
                process_id,
                config,
                fast_quorum_size,
                write_quorum_size,
                processes: None,
                last_sequence: 0,
                metrics: ProtocolMetrics { fast_paths: 0, slow_paths: 0, stable_count: 0 },
            }),
    {
        BaseProcess {
            process_id,
            config,
            fast_quorum_size,
            write_quorum_size,
            processes: None,
            all: HashSet::new(),
            all_but_me: HashSet::new(),
            fast_quorum: HashSet::new(),
            write_quorum: HashSet::new(),
            dot_gen: DotGen::new(process_id),
            metrics: ProtocolMetrics::new(),
        }
    }

    /// Updates the processes known by this process. The processes are given
    /// closest first. The quorums are made of the closest ones; the result
    /// says whether enough processes are known to fill them.
    pub fn discover(&mut self, processes: Vec<ProcessId>) -> (connected: bool)
        requires
            old(self).wf(),
        ensures
            final(self).wf(),
            final(self)@ == (BaseProcessView { processes: Some(processes@), ..old(self)@ }),
            connected == (final(self)@.fast_quorum().len() == old(self)@.fast_quorum_size
                && final(self)@.write_quorum().len() == old(self)@.write_quorum_size),
    {
        self.fast_quorum = closest_set(&processes, self.fast_quorum_size);
        self.write_quorum = closest_set(&processes, self.write_quorum_size);
        self.all = closest_set(&processes, processes.len());
        let mut all_but_me = clone_process_set(&self.all);
        all_but_me.remove(&self.process_id);
        self.all_but_me = all_but_me;
        self.processes = Some(Ghost(processes@));
        proof {
            lemma_full_prefix(processes@);
        }
        self.fast_quorum.len() == self.fast_quorum_size && self.write_quorum.len()
            == self.write_quorum_size
    }

    /// Whether the processes of the system are known.
    pub fn discovered(&self) -> (known: bool)
        ensures
            known == self@.processes.is_some(),
    {
        self.processes.is_some()
    }

    /// The sequence number of the last dot of this process.
    pub fn last_sequence(&self) -> (sequence: u64)
        ensures
            sequence == self@.last_sequence,
    {
        self.dot_gen.last_sequence()
    }

    /// The identifier of this process.
    pub fn process_id(&self) -> (id: ProcessId)
        ensures
            id == self@.process_id,
    {
        self.process_id
    }

    /// The configuration of this process.
    pub fn config(&self) -> (config: Config)
        ensures
            config == self@.config,
    {
        self.config
    }

    /// Returns the next dot of this process.
    pub fn next_dot(&mut self) -> (dot: Dot)
        requires
            old(self).wf(),
            old(self)@.last_sequence < u64::MAX,
        ensures
            final(self).wf(),
            final(self)@ == (BaseProcessView {
                last_sequence: (old(self)@.last_sequence + 1) as u64,
                ..old(self)@
            }),
            dot == (Dot {
                source: old(self)@.process_id,
                sequence: (old(self)@.last_sequence + 1) as u64,
            }),
    {
        self.dot_gen.next_dot()
    }

    /// All known processes.
    pub fn all(&self) -> (all: HashSet<ProcessId>)
        requires
            self.wf(),
            self@.processes.is_some(),
        ensures
            all@ == self@.all(),
    {
        clone_process_set(&self.all)
    }

    /// All known processes but this one.
    pub fn all_but_me(&self) -> (all_but_me: HashSet<ProcessId>)
        requires
            self.wf(),
            self@.processes.is_some(),
        ensures
            all_but_me@ == self@.all_but_me(),
    {
        clone_process_set(&self.all_but_me)
    }

    /// The fast quorum.
    pub fn fast_quorum(&self) -> (quorum: HashSet<ProcessId>)
        requires
            self.wf(),
            self@.processes.is_some(),
        ensures
            quorum@ == self@.fast_quorum(),
    {
        clone_process_set(&self.fast_quorum)
    }

    /// The write quorum.
    pub fn write_quorum(&self) -> (quorum: HashSet<ProcessId>)
        requires
            self.wf(),
            self@.processes.is_some(),
        ensures
            quorum@ == self@.write_quorum(),
    {
        clone_process_set(&self.write_quorum)
    }

    /// The counters of this process.
    pub fn metrics(&self) -> (metrics: &ProtocolMetrics)
        ensures
            *metrics == self@.metrics,
    {
        &self.metrics
    }

    /// Counts a command committed on the fast path.
    pub fn fast_path(&mut self)
        requires
            old(self).wf(),
        ensures
            final(self).wf(),
            final(self)@ == (BaseProcessView {
                metrics: ProtocolMetrics {
                    fast_paths: spec_saturating(old(self)@.metrics.fast_paths, 1),
                    ..old(self)@.metrics
                },
                ..old(self)@
            }),
    {
        if self.metrics.fast_paths < u64::MAX {
            self.metrics.fast_paths = self.metrics.fast_paths + 1;
        }
    }

    /// Counts a command sent to the slow path.
    pub fn slow_path(&mut self)
        requires
            old(self).wf(),
        ensures
            final(self).wf(),
            final(self)@ == (BaseProcessView {
                metrics: ProtocolMetrics {
                    slow_paths: spec_saturating(old(self)@.metrics.slow_paths, 1),
                    ..old(self)@.metrics
                },
                ..old(self)@
            }),
    {
        if self.metrics.slow_paths < u64::MAX {
            self.metrics.slow_paths = self.metrics.slow_paths + 1;
        }
    }

    /// Counts `count` commands garbage-collected once stable.
    pub fn stable(&mut self, count: usize)
        requires
            old(self).wf(),
        ensures
            final(self).wf(),
            final(self)@ == (BaseProcessView {
                metrics: ProtocolMetrics {
                    stable_count: spec_saturating(old(self)@.metrics.stable_count, count as int),
                    ..old(self)@.metrics
                },
                ..old(self)@
            }),
    {
        let count = count as u64;
        if count <= u64::MAX - self.metrics.stable_count {
            self.metrics.stable_count = self.metrics.stable_count + count;
        } else {
            self.metrics.stable_count = u64::MAX;
        }
    }
}

} // verus!
