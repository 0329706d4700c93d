//! What a worker keeps about each command it has heard of, and the
//! tracking that lets it forget the commands that are committed everywhere.

use crate::clock::VClock;
use crate::id::Dot;
use crate::id::ProcessId;
use crate::protocol::gc::GCTrack;
use crate::protocol::gc::GCTrackView;
use std::collections::HashMap;
use vstd::prelude::*;

verus! {

broadcast use vstd::std_specs::hash::group_hash_axioms;

/// What is kept about one command.
pub trait Info: Sized {
    /// Whether this is what is kept about a command that nothing was heard
    /// of yet. A kind of information that does not say what that is leaves
    /// it open.
    open spec fn is_bottom(
        &self,
        process_id: ProcessId,
        n: usize,
        f: usize,
        fast_quorum_size: usize,
    ) -> bool {
        true
    }

    /// Creates what is kept about a command that nothing was heard of yet.
    fn new(process_id: ProcessId, n: usize, f: usize, fast_quorum_size: usize) -> (info: Self)
        requires
            f < usize::MAX,
            fast_quorum_size >= 1,
        ensures
            info.is_bottom(process_id, n, f, fast_quorum_size),
    ;
}

/// The number under which a dot is filed: no two dots share one.
pub open spec fn spec_dot_key(dot: Dot) -> u128 {
    (dot.source * 0x1_0000_0000_0000_0000 + dot.sequence) as u128
}

/// The number under which a dot is filed.
#[verifier::when_used_as_spec(spec_dot_key)]
pub fn dot_key(dot: Dot) -> (key: u128)
    ensures
        key == spec_dot_key(dot),
{
    (dot.source as u128) * 0x1_0000_0000_0000_0000u128 + (dot.sequence as u128)
}

/// Two dots filed under the same number are the same dot.
pub proof fn lemma_dot_key_injective(a: Dot, b: Dot)
    requires
        spec_dot_key(a) == spec_dot_key(b),
    ensures
        a == b,
{
}

/// Whether `dot` lies in one of `ranges`, each a source with the first and
/// the last sequence number of the range.
pub open spec fn in_ranges(ranges: Seq<(ProcessId, u64, u64)>, dot: Dot) -> bool {
    exists|i: int|
        0 <= i < ranges.len() && (#[trigger] ranges[i]).0 == dot.source && ranges[i].1
            <= dot.sequence <= ranges[i].2
}

/// Mathematical model of a `CommandsInfo`.
pub struct CommandsInfoView<I> {
    pub process_id: ProcessId,
    /// Number of processes.
    pub n: usize,
    /// Number of tolerated failures.
    pub f: usize,
    pub fast_quorum_size: usize,
    /// What is kept about each command heard of.
    pub infos: Map<Dot, I>,
    /// What is committed where.
    pub track: GCTrackView,
}

/// What a worker keeps about the commands it has heard of.
pub struct CommandsInfo<I> {
    process_id: ProcessId,
    n: usize,
    f: usize,
    fast_quorum_size: usize,
    dot_to_info: HashMap<u128, I>,
    gc_track: GCTrack,
}

impl<I> View for CommandsInfo<I> {
    type V = CommandsInfoView<I>;

    closed spec fn view(&self) -> CommandsInfoView<I> {
        CommandsInfoView {
            process_id: self.process_id,
            n: self.n,
            f: self.f,
            fast_quorum_size: self.fast_quorum_size,
            infos: Map::new(
                |dot: Dot| self.dot_to_info@.contains_key(spec_dot_key(dot)),
                |dot: Dot| self.dot_to_info@[spec_dot_key(dot)],
            ),
            track: self.gc_track@,
        }
    }
}

impl<I: Info + Clone> Clone for CommandsInfo<I> {
    fn clone(&self) -> (copy: Self)
        ensures
            copy@ == self@,
            copy.wf() == self.wf(),
    {
        let copy = CommandsInfo {
            process_id: self.process_id,
            n: self.n,
            f: self.f,
            fast_quorum_size: self.fast_quorum_size,
            dot_to_info: self.dot_to_info.clone(),
            gc_track: self.gc_track.clone(),
        };
        assert(copy@.infos =~= self@.infos);
        copy
    }
}

impl<I: Info> CommandsInfo<I> {
    /// The invariant: that of the tracker, and enough room to count.
    pub closed spec fn wf(&self) -> bool {
        &&& self.gc_track.wf()
        &&& self.f < usize::MAX
        &&& self.fast_quorum_size >= 1
        &&& self.gc_track@.process_id == self.process_id
        &&& self.gc_track@.n == self.n
        &&& forall|key: u128| #[trigger]
            self.dot_to_info@.contains_key(key) ==> exists|dot: Dot| spec_dot_key(dot) == key
    }

    /// What `wf` says of the model.
    pub proof fn lemma_wf(&self)
        requires
            self.wf(),
        ensures
            self@.track.wf(),
            self@.f < usize::MAX,
            self@.fast_quorum_size >= 1,
            self@.track.process_id == self@.process_id,
            self@.track.n == self@.n,
            self@.infos.dom().finite(),
    {
        let keys = self.dot_to_info@.dom();
        let dots = self@.infos.dom();
        let to_dot = |key: u128|
            Dot {
                source: (key / 0x1_0000_0000_0000_0000) as u64,
                sequence: (key % 0x1_0000_0000_0000_0000) as u64,
            };
        assert(keys.finite());
        let image = keys.map(to_dot);
        keys.lemma_map_finite(to_dot);
        assert forall|dot: Dot| dots.contains(dot) implies image.contains(dot) by {
            let key = spec_dot_key(dot);
            assert(keys.contains(key));
            assert(to_dot(key) == dot);
        }
        vstd::set_lib::lemma_len_subset(dots, image);
    }

    /// Creates the state of the worker of process `process_id`: no command
    /// was heard of, nothing is committed.
    pub fn new(process_id: ProcessId, n: usize, f: usize, fast_quorum_size: usize) -> (cmds: Self)
        requires
            f < usize::MAX,
            fast_quorum_size >= 1,
        ensures
            cmds.wf(),
            cmds@.process_id == process_id,
            cmds@.n == n,
            cmds@.f == f,
            cmds@.fast_quorum_size == fast_quorum_size,
            cmds@.infos == Map::<Dot, I>::empty(),
            cmds@.track.reports == Map::<ProcessId, Map<ProcessId, u64>>::empty(),
            forall|dot: Dot| dot.sequence >= 1 ==> !#[trigger] cmds@.track.is_committed(dot),
            forall|source: ProcessId| #[trigger]
                crate::clock::frontier_of(cmds@.track.previous_stable, source) == 0,
            forall|source: ProcessId| #[trigger]
                crate::clock::frontier_of(cmds@.track.frontier, source) == 0,
    {
        let cmds = CommandsInfo {
            process_id,
            n,
            f,
            fast_quorum_size,
            dot_to_info: HashMap::new(),
            gc_track: GCTrack::new(process_id, n),
        };
        assert(cmds@.infos =~= Map::<Dot, I>::empty());
        cmds
    }

    /// Takes out what is kept about `dot`. For a command that nothing is
    /// kept about, that is what is kept about a command that nothing was
    /// heard of yet. What is taken out is to be put back.
    pub fn take(&mut self, dot: Dot) -> (info: I)
        requires
            old(self).wf(),
        ensures
            final(self).wf(),
            final(self)@ == (CommandsInfoView {
                infos: old(self)@.infos.remove(dot),
                ..old(self)@
            }),
            old(self)@.infos.contains_key(dot) ==> info == old(self)@.infos[dot],
            !old(self)@.infos.contains_key(dot) ==> info.is_bottom(
                old(self)@.process_id,
                old(self)@.n,
                old(self)@.f,
                old(self)@.fast_quorum_size,
            ),
    {
        let key = dot_key(dot);
        let found = self.dot_to_info.remove(&key);
        proof {
            assert(final(self)@.infos =~= old(self)@.infos.remove(dot)) by {
                assert forall|other: Dot|
                    final(self)@.infos.contains_key(other) == old(self)@.infos.remove(
                        dot,
                    ).contains_key(other) by {
                    if spec_dot_key(other) == key {
                        lemma_dot_key_injective(other, dot);
                    }
                }
            }
        }
        match found {
            Some(info) => info,
            None => I::new(self.process_id, self.n, self.f, self.fast_quorum_size),
        }
    }

    /// Looks at what is kept about `dot`, if anything is.
    pub fn peek(&self, dot: Dot) -> (info: Option<&I>)
        requires
            self.wf(),
        ensures
            match info {
                Some(info) => self@.infos.contains_key(dot) && *info == self@.infos[dot],
                None => !self@.infos.contains_key(dot),
            },
    {
        let key = dot_key(dot);
        self.dot_to_info.get(&key)
    }

    /// Files `info` as what is kept about `dot`.
    pub fn put(&mut self, dot: Dot, info: I)
        requires
            old(self).wf(),
        ensures
            final(self).wf(),
            final(self)@ == (CommandsInfoView {
                infos: old(self)@.infos.insert(dot, info),
                ..old(self)@
            }),
    {
        let key = dot_key(dot);
        self.dot_to_info.insert(key, info);
        proof {
            assert(final(self)@.infos =~= old(self)@.infos.insert(dot, info)) by {
                assert forall|other: Dot|
                    final(self)@.infos.contains_key(other) == old(self)@.infos.insert(
                        dot,
                        info,
                    ).contains_key(other) by {
                    if spec_dot_key(other) == key {
                        lemma_dot_key_injective(other, dot);
                    }
                }
            }
            assert forall|k: u128| #[trigger] final(self).dot_to_info@.contains_key(k) implies exists|
                d: Dot,
            |
                spec_dot_key(d) == k by {
                if k == key {
                    assert(spec_dot_key(dot) == k);
                } else {
                    assert(old(self).dot_to_info@.contains_key(k));
                }
            }
        }
    }

    /// Records that `dot` is committed here.
    pub fn commit(&mut self, dot: Dot)
        requires
            old(self).wf(),
            dot.sequence < u64::MAX,
        ensures
            final(self).wf(),
            final(self)@.track.committed == old(self)@.track.committed.insert(
                dot.source,
                crate::clock::events_of(old(self)@.track.committed, dot.source).insert(
                    dot.sequence,
                ),
            ),
            final(self)@ == (CommandsInfoView {
                track: GCTrackView {
                    committed: final(self)@.track.committed,
                    frontier: final(self)@.track.frontier,
                    ..old(self)@.track
                },
                ..old(self)@
            }),
            forall|source: ProcessId|
                crate::clock::frontier_of(old(self)@.track.frontier, source)
                    <= #[trigger] crate::clock::frontier_of(final(self)@.track.frontier, source),
    {
        self.gc_track.commit(dot);
    }

    /// The clock of what is committed here.
    pub fn committed(&self) -> (clock: VClock)
        ensures
            clock@ == self@.track.frontier,
    {
        self.gc_track.committed()
    }

    /// Records the clock of what `from` reports as committed there.
    pub fn committed_by(&mut self, from: ProcessId, committed: VClock)
        requires
            old(self).wf(),
        ensures
            final(self).wf(),
            final(self)@ == (CommandsInfoView {
                track: GCTrackView {
                    reports: old(self)@.track.reports.insert(from, committed@),
                    ..old(self)@.track
                },
                ..old(self)@
            }),
    {
        self.gc_track.committed_by(from, committed);
    }

    /// Returns the ranges of dots that are now known to be committed at
    /// every process and that no earlier call returned.
    pub fn stable(&mut self) -> (stable: Vec<(ProcessId, u64, u64)>)
        requires
            old(self).wf(),
        ensures
            final(self).wf(),
            stable@ == old(self)@.track.new_stable(),
            final(self)@ == (CommandsInfoView {
                track: GCTrackView {
                    previous_stable: final(self)@.track.previous_stable,
                    ..old(self)@.track
                },
                ..old(self)@
            }),
            forall|source: ProcessId|
                crate::clock::frontier_of(final(self)@.track.previous_stable, source)
                    == #[trigger] crate::clock::frontier_of(
                    old(self)@.track.declared_among(old(self)@.n as int),
                    source,
                ),
    {
        self.gc_track.stable()
    }

    /// As many commands are kept as the table has entries.
    proof fn lemma_infos_len(&self)
        requires
            self.wf(),
        ensures
            self@.infos.dom().finite(),
            self@.infos.len() == self.dot_to_info@.len(),
    {
        self.lemma_wf();
        let keys = self.dot_to_info@.dom();
        let dots = self@.infos.dom();
        let file = |dot: Dot| spec_dot_key(dot);
        assert(dots.map(file) =~= keys) by {
            assert forall|key: u128| keys.contains(key) implies dots.map(file).contains(key) by {
                let dot = choose|dot: Dot| spec_dot_key(dot) == key;
                assert(dots.contains(dot));
                assert(file(dot) == key);
            }
        }
        assert(vstd::relations::injective_on(file, dots)) by {
            assert forall|a: Dot, b: Dot|
                dots.contains(a) && dots.contains(b) && #[trigger] file(a) == #[trigger] file(
                    b,
                ) implies a == b by {
                lemma_dot_key_injective(a, b);
            }
        }
        vstd::set_lib::lemma_map_size(dots, keys, file);
    }

    /// Forgets what is kept about the dots in the ranges of `stable`, and
    /// returns how many commands were forgotten.
    pub fn gc(&mut self, stable: Vec<(ProcessId, u64, u64)>) -> (count: usize)
        requires
            old(self).wf(),
        ensures
            final(self).wf(),
            final(self)@ == (CommandsInfoView {
                infos: old(self)@.infos.remove_keys(Set::new(|dot: Dot| in_ranges(stable@, dot))),
                ..old(self)@
            }),
            count == old(self)@.infos.len() - final(self)@.infos.len(),
    {
        let ghost before = self@;
        let total = self.dot_to_info.len();
        proof {
            self.lemma_infos_len();
        }
        let mut count: usize = 0;
        let mut i: usize = 0;
        while i < stable.len()
            invariant
                i <= stable.len(),
                self.wf(),
                before == old(self)@,
                total == before.infos.len(),
                self@ == (CommandsInfoView { infos: self@.infos, ..before }),
                forall|dot: Dot|
                    #[trigger] self@.infos.contains_key(dot) <==> before.infos.contains_key(dot)
                        && !in_ranges(stable@.subrange(0, i as int), dot),
                forall|dot: Dot| #[trigger]
                    self@.infos.contains_key(dot) ==> self@.infos[dot] == before.infos[dot],
                count + self.dot_to_info@.len() == total,
            decreases stable.len() - i,
        {
            let (source, start, end) = stable[i];
            let ghost done = stable@.subrange(0, i as int);
            let ghost mut next: int = start as int;
            let mut sequence = start;
            let mut open = start <= end;
            while open
                invariant
                    self.wf(),
                    before == old(self)@,
                    total == before.infos.len(),
                    self@ == (CommandsInfoView { infos: self@.infos, ..before }),
                    start <= next,
                    open ==> next == sequence && sequence <= end,
                    !open ==> next == (if start <= end {
                        end + 1
                    } else {
                        start as int
                    }),
                    forall|dot: Dot|
                        #[trigger] self@.infos.contains_key(dot) <==> before.infos.contains_key(dot)
                            && !in_ranges(done, dot) && !(dot.source == source && start
                            <= dot.sequence < next),
                    forall|dot: Dot| #[trigger]
                        self@.infos.contains_key(dot) ==> self@.infos[dot] == before.infos[dot],
                    count + self.dot_to_info@.len() == total,
                decreases end + 1 - next,
            {
                let dot = Dot { source, sequence };
                let key = dot_key(dot);
                let ghost infos = self@.infos;
                let ghost table = self.dot_to_info@;
                let removed = self.dot_to_info.remove(&key);
                proof {
                    assert(self@.infos =~= infos.remove(dot)) by {
                        assert forall|other: Dot|
                            self@.infos.contains_key(other) == infos.remove(dot).contains_key(
                                other,
                            ) by {
                            if spec_dot_key(other) == key {
                                lemma_dot_key_injective(other, dot);
                            }
                        }
                    }
                    if table.contains_key(key) {
                        table.lemma_remove_key_len(key);
                    } else {
                        assert(self.dot_to_info@ =~= table);
                    }
                    next = next + 1;
                }
                if removed.is_some() {
                    count = count + 1;
                }
                if sequence == end {
                    open = false;
                } else {
                    sequence = sequence + 1;
                }
            }
            proof {
                let longer = stable@.subrange(0, i + 1);
                assert forall|dot: Dot|
                    in_ranges(longer, dot) <==> (in_ranges(done, dot) || (dot.source == source
                        && start <= dot.sequence <= end)) by {
                    if in_ranges(longer, dot) {
                        let k = choose|k: int|
                            0 <= k < longer.len() && (#[trigger] longer[k]).0 == dot.source
                                && longer[k].1 <= dot.sequence <= longer[k].2;
                        if k < i {
                            assert(done[k] == longer[k]);
                        }
                    }
                    if in_ranges(done, dot) {
                        let k = choose|k: int|
                            0 <= k < done.len() && (#[trigger] done[k]).0 == dot.source
                                && done[k].1 <= dot.sequence <= done[k].2;
                        assert(longer[k] == done[k]);
                    }
                    if dot.source == source && start <= dot.sequence <= end {
                        assert(longer[i as int] == (source, start, end));
                    }
                }
            }
            i = i + 1;
        }
        proof {
            assert(stable@.subrange(0, stable.len() as int) =~= stable@);
            assert(self@.infos =~= before.infos.remove_keys(
                Set::new(|dot: Dot| in_ranges(stable@, dot)),
            ));
            self.lemma_infos_len();
        }
        count
    }
}

} // verus!
