use fantoch::clock::VClock;
use fantoch::config::Config;
use fantoch::id::Dot;
use fantoch::id::ProcessId;
use fantoch::protocol::base::BaseProcess;
use fantoch::protocol::base::ProtocolMetrics;
use fantoch::protocol::clocks::QuorumClocks;
use fantoch::protocol::gc::GCTrack;
use fantoch::protocol::info::dot_key;
use fantoch::protocol::info::CommandsInfo;
use fantoch::protocol::info::Info;
use std::collections::HashSet;

fn set(members: &[ProcessId]) -> HashSet<ProcessId> {
    members.iter().cloned().collect()
}

fn clock(entries: &[(ProcessId, u64)]) -> VClock {
    VClock::from_frontiers(&entries.to_vec())
}

// What a test keeps about a command: who made it, and a mark.
#[derive(Debug, Clone, PartialEq)]
struct Note {
    made_for: (ProcessId, usize, usize, usize),
    mark: u64,
}

impl Info for Note {
    fn new(process_id: ProcessId, n: usize, f: usize, fast_quorum_size: usize) -> Self {
        Note { made_for: (process_id, n, f, fast_quorum_size), mark: 0 }
    }
}

#[test]
fn a_dot_is_filed_under_a_number_of_its_own() {
    assert_eq!(dot_key(Dot::new(0, 0)), 0);
    assert_eq!(dot_key(Dot::new(0, 7)), 7);
    assert_eq!(dot_key(Dot::new(1, 0)), 1u128 << 64);
    assert_eq!(dot_key(Dot::new(3, 9)), (3u128 << 64) + 9);
    assert_eq!(dot_key(Dot::new(u64::MAX, u64::MAX)), u128::MAX);
    assert_ne!(dot_key(Dot::new(1, 2)), dot_key(Dot::new(2, 1)));
}

#[test]
fn counters_start_at_zero() {
    let metrics = ProtocolMetrics::new();
    assert_eq!(metrics.fast_paths(), 0);
    assert_eq!(metrics.slow_paths(), 0);
    assert_eq!(metrics.stable_count(), 0);
}

#[test]
fn a_process_counts_what_it_commits_and_forgets() {
    let mut base = BaseProcess::new(1, Config::new(3, 1), 2, 2);
    base.fast_path();
    base.fast_path();
    base.slow_path();
    base.stable(4);
    base.stable(0);
    base.stable(6);
    assert_eq!(
        base.metrics(),
        &ProtocolMetrics { fast_paths: 2, slow_paths: 1, stable_count: 10 }
    );
}

#[test]
fn the_quorums_are_the_closest_processes() {
    let config = Config::new(5, 2);
    let mut base = BaseProcess::new(4, config, 3, 2);
    assert_eq!(base.process_id(), 4);
    assert_eq!(base.config(), config);
    assert!(!base.discovered());
    assert!(base.discover(vec![4, 2, 5, 1, 3]));
    assert!(base.discovered());
    assert_eq!(base.all(), set(&[1, 2, 3, 4, 5]));
    assert_eq!(base.all_but_me(), set(&[1, 2, 3, 5]));
    assert_eq!(base.fast_quorum(), set(&[2, 4, 5]));
    assert_eq!(base.write_quorum(), set(&[2, 4]));
    // with too few processes the quorums are not filled
    assert!(!base.discover(vec![4, 2]));
    assert_eq!(base.fast_quorum(), set(&[2, 4]));
    assert_eq!(base.all_but_me(), set(&[2]));
    // a process listed twice counts once
    assert!(!base.discover(vec![4, 4, 2]));
}

#[test]
fn a_process_numbers_its_dots() {
    let mut base = BaseProcess::new(2, Config::new(3, 1), 2, 2);
    assert_eq!(base.last_sequence(), 0);
    assert_eq!(base.next_dot(), Dot::new(2, 1));
    assert_eq!(base.next_dot(), Dot::new(2, 2));
    assert_eq!(base.last_sequence(), 2);
    let mut copy = base.clone();
    assert_eq!(copy.next_dot(), Dot::new(2, 3));
    assert_eq!(base.last_sequence(), 2);
}

#[test]
fn reports_are_gathered_until_all_are_in() {
    let mut clocks = QuorumClocks::new(2);
    assert!(!clocks.all());
    assert_eq!(clocks.len(), 0);
    assert!(clocks.add(2, clock(&[(1, 1), (2, 0)])));
    assert!(!clocks.all());
    // a second report of the same process is not counted
    assert!(!clocks.add(2, clock(&[(1, 9)])));
    assert_eq!(clocks.len(), 1);
    assert!(clocks.add(3, clock(&[(1, 1), (2, 0)])));
    assert!(clocks.all());
    // nor is a report beyond those waited for
    assert!(!clocks.add(4, clock(&[(1, 9)])));
    assert_eq!(clocks.len(), 2);
    let (union, equal) = clocks.union();
    assert!(equal);
    assert!(union.same(&clock(&[(1, 1), (2, 0)])));
    assert!(clocks.clone().union().0.same(&union));
}

#[test]
fn the_union_of_differing_reports_is_their_join() {
    let mut clocks = QuorumClocks::new(3);
    assert!(clocks.add(2, clock(&[(1, 1), (2, 5)])));
    assert!(clocks.add(3, clock(&[(1, 4), (2, 2)])));
    assert!(clocks.add(4, clock(&[(1, 1), (2, 5), (3, 1)])));
    let (union, equal) = clocks.union();
    assert!(!equal);
    assert!(union.same(&clock(&[(1, 4), (2, 5), (3, 1)])));
    // no report at all: nothing to join, and nothing that differs
    let (union, equal) = QuorumClocks::new(2).union();
    assert!(equal);
    assert!(union.same(&clock(&[])));
}

#[test]
fn the_committed_clock_stops_at_the_first_gap() {
    let mut track = GCTrack::new(1, 3);
    assert!(track.committed().same(&VClock::bottom(3)));
    track.commit(Dot::new(2, 1));
    track.commit(Dot::new(2, 2));
    track.commit(Dot::new(2, 4));
    track.commit(Dot::new(3, 2));
    assert!(track.committed().same(&clock(&[(1, 0), (2, 2), (3, 0)])));
    track.commit(Dot::new(2, 3));
    track.commit(Dot::new(3, 1));
    // a dot committed twice counts once
    track.commit(Dot::new(3, 1));
    assert!(track.committed().same(&clock(&[(1, 0), (2, 4), (3, 2)])));
}

#[test]
fn a_dot_is_stable_once_all_have_reported_it() {
    let mut track = GCTrack::new(1, 3);
    for sequence in 1..=4u64 {
        track.commit(Dot::new(2, sequence));
    }
    track.commit(Dot::new(3, 1));
    assert!(track.stable().is_empty());
    track.committed_by(2, clock(&[(1, 0), (2, 3), (3, 1)]));
    assert!(track.stable().is_empty());
    track.committed_by(3, clock(&[(1, 0), (2, 2), (3, 1)]));
    // the lowest of what is committed here and reported there
    assert_eq!(track.stable(), vec![(2, 1, 2), (3, 1, 1)]);
    // what was declared stable is not declared again
    assert!(track.stable().is_empty());
    // a later report replaces the earlier one
    track.committed_by(3, clock(&[(1, 0), (2, 9), (3, 1)]));
    assert_eq!(track.stable(), vec![(2, 3, 3)]);
    track.committed_by(2, clock(&[(1, 0), (2, 9), (3, 7)]));
    assert_eq!(track.stable(), vec![(2, 4, 4)]);
    let mut copy = track.clone();
    assert!(copy.stable().is_empty());
    assert!(copy.committed().same(&track.committed()));
}

#[test]
fn what_is_kept_about_a_command_is_made_when_first_asked_for() {
    let mut cmds: CommandsInfo<Note> = CommandsInfo::new(2, 3, 1, 2);
    let dot = Dot::new(1, 1);
    assert_eq!(cmds.peek(dot), None);
    // nothing is kept yet: the note is made for this worker
    let mut note = cmds.take(dot);
    assert_eq!(note, Note { made_for: (2, 3, 1, 2), mark: 0 });
    assert_eq!(cmds.peek(dot), None);
    note.mark = 7;
    cmds.put(dot, note.clone());
    assert_eq!(cmds.peek(dot), Some(&note));
    // what is taken out is what was put
    assert_eq!(cmds.take(dot), note);
    assert_eq!(cmds.peek(dot), None);
    // dots with the numbers of source and sequence swapped are not confused
    cmds.put(Dot::new(1, 2), Note { made_for: (0, 0, 0, 0), mark: 12 });
    cmds.put(Dot::new(2, 1), Note { made_for: (0, 0, 0, 0), mark: 21 });
    assert_eq!(cmds.peek(Dot::new(1, 2)).map(|note| note.mark), Some(12));
    assert_eq!(cmds.peek(Dot::new(2, 1)).map(|note| note.mark), Some(21));
}

#[test]
fn the_commands_in_stable_ranges_are_forgotten() {
    let mut cmds: CommandsInfo<Note> = CommandsInfo::new(1, 3, 1, 2);
    for source in 1..=2u64 {
        for sequence in 1..=5u64 {
            let note = Note { made_for: (1, 3, 1, 2), mark: source * 10 + sequence };
            cmds.put(Dot::new(source, sequence), note);
        }
    }
    // the ranges hold six dots, of which four are kept
    assert_eq!(cmds.gc(vec![(1, 2, 4), (2, 5, 6), (3, 1, 1)]), 4);
    for sequence in 1..=5u64 {
        assert_eq!(cmds.peek(Dot::new(1, sequence)).is_some(), sequence < 2 || sequence > 4);
        assert_eq!(cmds.peek(Dot::new(2, sequence)).is_some(), sequence < 5);
    }
    // nothing is left of them to forget
    assert_eq!(cmds.gc(vec![(1, 2, 4), (2, 5, 6)]), 0);
    assert_eq!(cmds.gc(vec![]), 0);
    assert_eq!(cmds.gc(vec![(1, 0, 100), (2, 0, 100), (1, 5, 5)]), 6);
}

#[test]
fn what_is_committed_is_tracked_beside_what_is_kept() {
    let mut cmds: CommandsInfo<Note> = CommandsInfo::new(1, 3, 1, 2);
    cmds.commit(Dot::new(1, 1));
    cmds.commit(Dot::new(1, 2));
    assert!(cmds.committed().same(&clock(&[(1, 2), (2, 0), (3, 0)])));
    cmds.committed_by(2, clock(&[(1, 2)]));
    cmds.committed_by(3, clock(&[(1, 1)]));
    assert_eq!(cmds.stable(), vec![(1, 1, 1)]);
    assert!(cmds.stable().is_empty());
    let mut copy = cmds.clone();
    copy.committed_by(3, clock(&[(1, 2)]));
    assert_eq!(copy.stable(), vec![(1, 2, 2)]);
    assert!(cmds.stable().is_empty());
}
