use fantoch::clock::VClock;
use fantoch::command::ClientCommand;
use fantoch::command::Command;
use fantoch::command::MultiCommand;
use fantoch::config::Config;
use fantoch::executor::graph::GraphExecutionInfo;
use fantoch::id::Dot;
use fantoch::id::ProcessId;
use fantoch::id::Rifl;
use fantoch::protocol::action::Action;
use fantoch::protocol::clocks::SequentialKeyClocks;
use fantoch::protocol::epaxos::ConsensusValue;
use fantoch::protocol::epaxos::EPaxos;
use fantoch::protocol::epaxos::Message;
use fantoch::protocol::epaxos::PeriodicEvent;
use std::collections::HashSet;

type Process = EPaxos<SequentialKeyClocks>;

// Delivers what `from` sends to each of its targets, by increasing
// identifier, and returns what each of them asks for in turn.
fn forward_to_processes(
    processes: &mut Vec<Process>,
    (from, action): (ProcessId, Action<Message>),
) -> Vec<(ProcessId, Action<Message>)> {
    let mut out = Vec::new();
    match action {
        Action::ToSend { target, msg } => {
            let mut targets: Vec<ProcessId> = target.into_iter().collect();
            targets.sort();
            for to in targets {
                let process = &mut processes[(to - 1) as usize];
                assert!(process.handles(from, &msg));
                let action = process.handle(from, msg.clone());
                if action != Action::Nothing {
                    out.push((to, action));
                }
            }
        }
        Action::ToForward { msg } => {
            let process = &mut processes[(from - 1) as usize];
            assert!(process.handles(from, &msg));
            let action = process.handle(from, msg);
            if action != Action::Nothing {
                out.push((from, action));
            }
        }
        Action::Nothing => {}
    }
    out
}

// `n` processes that know each other, each closest to itself and then to
// the others by increasing identifier.
fn cluster(n: usize) -> Vec<Process> {
    let config = Config::new(n, n / 2);
    assert!(config.leaderless_ready());
    let mut processes = Vec::new();
    for process_id in 1..=(n as u64) {
        let (mut process, _) = Process::new(process_id, config);
        let mut sorted: Vec<ProcessId> = vec![process_id];
        sorted.extend((1..=(n as u64)).filter(|other| *other != process_id));
        assert!(process.discover(sorted));
        processes.push(process);
    }
    processes
}

// The command of request `sequence` of client 1: a write to `key`.
fn put(sequence: u64, key: &str, value: &str) -> ClientCommand {
    let commands = MultiCommand::new(vec![(String::from(key), Command::Put(String::from(value)))]);
    ClientCommand::new(Rifl::new(1, sequence), commands)
}

fn set(members: &[ProcessId]) -> HashSet<ProcessId> {
    members.iter().cloned().collect()
}

// Handles `msg` from `from` at process `to`, after checking that the
// process handles it.
fn deliver(processes: &mut Vec<Process>, from: ProcessId, to: ProcessId, msg: Message) -> Action<Message> {
    let process = &mut processes[(to - 1) as usize];
    assert!(process.handles(from, &msg));
    process.handle(from, msg)
}

// Submits `cmd` at process `at` and runs the protocol until nothing is left
// to deliver. Returns the dot of the command.
fn replicate(processes: &mut Vec<Process>, at: ProcessId, cmd: ClientCommand) -> Dot {
    let process = &mut processes[(at - 1) as usize];
    assert!(process.submits(&None));
    let action = process.submit(None, cmd);
    let dot = match &action {
        Action::ToSend { msg: Message::MCollect { dot, .. }, .. } => *dot,
        _ => panic!("a submission is answered with an MCollect"),
    };
    let mut pending = vec![(at, action)];
    while let Some(next) = pending.pop() {
        pending.extend(forward_to_processes(processes, next));
    }
    dot
}

#[test]
fn a_command_without_conflict_commits_on_the_fast_path() {
    let mut processes = cluster(3);
    let cmd = put(1, "x", "1");
    let dot = Dot::new(1, 1);
    let no_dependency = VClock::bottom(3);

    // process 1 submits
    assert!(processes[0].submits(&None));
    let mcollect = processes[0].submit(None, cmd.clone());
    let expected = Message::MCollect {
        dot,
        cmd: Some(cmd.clone()),
        clock: no_dependency.clone(),
        quorum: set(&[1, 2]),
    };
    assert_eq!(mcollect, Action::ToSend { target: set(&[1, 2]), msg: expected.clone() });

    // the fast quorum answers
    let ack = Message::MCollectAck { dot, clock: no_dependency.clone() };
    let from_1 = deliver(&mut processes, 1, 1, expected.clone());
    assert_eq!(from_1, Action::ToSend { target: set(&[1]), msg: ack.clone() });
    let from_2 = deliver(&mut processes, 1, 2, expected);
    assert_eq!(from_2, Action::ToSend { target: set(&[1]), msg: ack.clone() });

    // the coordinator's own answer is discarded, that of process 2 commits
    assert_eq!(deliver(&mut processes, 1, 1, ack.clone()), Action::Nothing);
    let value = ConsensusValue::with(Some(cmd.clone()), no_dependency.clone());
    let mcommit = Message::MCommit { dot, value };
    assert_eq!(
        deliver(&mut processes, 2, 1, ack),
        Action::ToSend { target: set(&[1, 2, 3]), msg: mcommit.clone() }
    );
    assert_eq!(processes[0].metrics().fast_paths(), 1);
    assert_eq!(processes[0].metrics().slow_paths(), 0);

    // every process commits and has one command for its executor
    for to in 1..=3u64 {
        assert_eq!(deliver(&mut processes, 1, to, mcommit.clone()), Action::Nothing);
        let infos = processes[(to - 1) as usize].to_executor();
        assert_eq!(infos, vec![GraphExecutionInfo::new(dot, cmd.clone(), no_dependency.clone())]);
        // what was handed out is forgotten
        assert!(processes[(to - 1) as usize].to_executor().is_empty());
    }
}

#[test]
fn differing_clocks_take_the_slow_path() {
    let mut processes = cluster(5);
    let no_dependency = VClock::bottom(5);

    // process 2, and no other member of the quorum, has heard of a command
    // of process 4 on the same key
    let earlier = Message::MCollect {
        dot: Dot::new(4, 1),
        cmd: Some(put(9, "x", "0")),
        clock: no_dependency.clone(),
        quorum: set(&[4, 5, 2]),
    };
    let action = deliver(&mut processes, 4, 2, earlier);
    assert!(matches!(action, Action::ToSend { msg: Message::MCollectAck { .. }, .. }));

    // process 1 submits: the fast quorum of five processes has three members
    let cmd = put(1, "x", "1");
    let dot = Dot::new(1, 1);
    let mcollect = processes[0].submit(None, cmd.clone());
    let (target, msg) = match mcollect {
        Action::ToSend { target, msg } => (target, msg),
        _ => panic!("a submission is answered with an MCollect"),
    };
    assert_eq!(target, set(&[1, 2, 3]));

    let with_dependency = VClock::from_frontiers(&vec![(1, 0), (2, 0), (3, 0), (4, 1), (5, 0)]);
    let ack_1 = deliver(&mut processes, 1, 1, msg.clone());
    let ack_2 = deliver(&mut processes, 1, 2, msg.clone());
    let ack_3 = deliver(&mut processes, 1, 3, msg);
    assert_eq!(
        ack_2,
        Action::ToSend {
            target: set(&[1]),
            msg: Message::MCollectAck { dot, clock: with_dependency.clone() }
        }
    );
    assert_eq!(
        ack_3,
        Action::ToSend {
            target: set(&[1]),
            msg: Message::MCollectAck { dot, clock: no_dependency.clone() }
        }
    );

    // own ack: discarded; first ack: not enough; second ack: the clocks
    // differ, so the join of them goes to the write quorum
    let mut answers = forward_to_processes(&mut processes, (1, ack_1));
    assert!(answers.is_empty());
    answers = forward_to_processes(&mut processes, (2, ack_2));
    assert!(answers.is_empty());
    answers = forward_to_processes(&mut processes, (3, ack_3));
    assert_eq!(answers.len(), 1);
    let (from, mconsensus) = answers.pop().unwrap();
    assert_eq!(from, 1);
    let value = ConsensusValue::with(Some(cmd.clone()), with_dependency.clone());
    assert_eq!(
        mconsensus,
        Action::ToSend {
            target: set(&[1, 2, 3]),
            msg: Message::MConsensus { dot, ballot: 1, value: value.clone() }
        }
    );
    assert_eq!(processes[0].metrics().slow_paths(), 1);
    assert_eq!(processes[0].metrics().fast_paths(), 0);

    // the write quorum accepts
    let mut acks = forward_to_processes(&mut processes, (1, mconsensus));
    assert_eq!(acks.len(), 3);
    for (member, ack) in acks.iter() {
        assert_eq!(
            ack,
            &Action::ToSend {
                target: set(&[1]),
                msg: Message::MConsensusAck { dot, ballot: 1 }
            },
            "ack of process {}",
            member
        );
    }

    // the third ack (f + 1 = 3) commits, at all five processes
    let third = acks.pop().unwrap();
    for ack in acks {
        assert!(forward_to_processes(&mut processes, ack).is_empty());
    }
    let mut mcommits = forward_to_processes(&mut processes, third);
    assert_eq!(mcommits.len(), 1);
    let (from, mcommit) = mcommits.pop().unwrap();
    assert_eq!(from, 1);
    assert_eq!(
        mcommit,
        Action::ToSend {
            target: set(&[1, 2, 3, 4, 5]),
            msg: Message::MCommit { dot, value }
        }
    );
    assert!(forward_to_processes(&mut processes, (1, mcommit)).is_empty());
    for process in processes.iter_mut() {
        let infos = process.to_executor();
        assert_eq!(infos, vec![GraphExecutionInfo::new(dot, cmd.clone(), with_dependency.clone())]);
    }
}

#[test]
fn the_coordinator_does_not_recompute_its_clock() {
    let mut processes = cluster(3);
    assert_eq!(replicate(&mut processes, 1, put(1, "x", "1")), Dot::new(1, 1));

    // the second command on the key depends on the first, not on itself
    let mcollect = processes[0].submit(None, put(2, "x", "2"));
    let (msg, submitted) = match mcollect {
        Action::ToSend { msg: Message::MCollect { dot, cmd, clock, quorum }, .. } => {
            assert_eq!(dot, Dot::new(1, 2));
            let submitted = clock.clone();
            (Message::MCollect { dot, cmd, clock, quorum }, submitted)
        }
        _ => panic!("a submission is answered with an MCollect"),
    };
    assert!(submitted.same(&VClock::from_frontiers(&vec![(1, 1), (2, 0), (3, 0)])));

    // the clock the coordinator keeps, and acknowledges, is the one computed
    // when the command was submitted
    let own = deliver(&mut processes, 1, 1, msg.clone());
    assert_eq!(
        own,
        Action::ToSend {
            target: set(&[1]),
            msg: Message::MCollectAck { dot: Dot::new(1, 2), clock: submitted.clone() }
        }
    );
    // another member joins what it has seen on the key into it
    let other = deliver(&mut processes, 1, 2, msg);
    assert_eq!(
        other,
        Action::ToSend {
            target: set(&[1]),
            msg: Message::MCollectAck { dot: Dot::new(1, 2), clock: submitted }
        }
    );
}

#[test]
fn the_own_answer_of_the_coordinator_is_never_counted() {
    let mut processes = cluster(3);
    let mcollect = processes[0].submit(None, put(1, "x", "1"));
    let mut acks = forward_to_processes(&mut processes, (1, mcollect));
    assert_eq!(acks.len(), 2);
    let (from_2, ack_2) = acks.pop().unwrap();
    let (from_1, ack_1) = acks.pop().unwrap();
    assert_eq!((from_1, from_2), (1, 2));
    // however often it comes, the coordinator's own answer commits nothing
    for _ in 0..5 {
        assert!(forward_to_processes(&mut processes, (1, ack_1.clone())).is_empty());
    }
    assert_eq!(processes[0].metrics().fast_paths(), 0);
    // the one answer of another member does
    let mcommits = forward_to_processes(&mut processes, (2, ack_2.clone()));
    assert_eq!(mcommits.len(), 1);
    assert_eq!(processes[0].metrics().fast_paths(), 1);
    // and a second answer of that member is not counted again
    assert!(forward_to_processes(&mut processes, (2, ack_2)).is_empty());
    assert_eq!(processes[0].metrics().fast_paths(), 1);
}

#[test]
fn a_second_commit_is_a_no_op() {
    let mut processes = cluster(3);
    let cmd = put(1, "x", "1");
    let dot = Dot::new(1, 1);
    let mcommit = Message::MCommit {
        dot,
        value: ConsensusValue::with(Some(cmd.clone()), VClock::bottom(3)),
    };
    assert_eq!(deliver(&mut processes, 1, 3, mcommit.clone()), Action::Nothing);
    assert_eq!(deliver(&mut processes, 1, 3, mcommit), Action::Nothing);
    // a second commit with another value changes nothing either
    let other = Message::MCommit {
        dot,
        value: ConsensusValue::with(Some(put(2, "y", "2")), VClock::from_frontiers(&vec![(2, 7)])),
    };
    assert_eq!(deliver(&mut processes, 2, 3, other), Action::Nothing);
    let infos = processes[2].to_executor();
    assert_eq!(infos, vec![GraphExecutionInfo::new(dot, cmd, VClock::bottom(3))]);
    assert!(processes[2].to_executor().is_empty());
}

#[test]
fn a_committed_command_goes_through_no_earlier_phase_again() {
    let mut processes = cluster(3);
    let cmd = put(1, "x", "1");
    let dot = replicate(&mut processes, 1, cmd.clone());
    for process in processes.iter_mut() {
        assert_eq!(process.to_executor().len(), 1);
    }
    // a late MCollect and a late MCollectAck are dropped
    let late = Message::MCollect {
        dot,
        cmd: Some(cmd.clone()),
        clock: VClock::bottom(3),
        quorum: set(&[1, 2]),
    };
    assert_eq!(deliver(&mut processes, 1, 2, late.clone()), Action::Nothing);
    assert_eq!(deliver(&mut processes, 1, 3, late), Action::Nothing);
    let late = Message::MCollectAck { dot, clock: VClock::bottom(3) };
    assert_eq!(deliver(&mut processes, 2, 1, late.clone()), Action::Nothing);
    assert_eq!(deliver(&mut processes, 3, 1, late), Action::Nothing);
    // a late MConsensus is answered with the committed value
    let proposal = ConsensusValue::with(None, VClock::from_frontiers(&vec![(3, 3)]));
    assert_eq!(
        deliver(&mut processes, 3, 2, Message::MConsensus { dot, ballot: 3, value: proposal }),
        Action::ToSend {
            target: set(&[3]),
            msg: Message::MCommit {
                dot,
                value: ConsensusValue::with(Some(cmd), VClock::bottom(3))
            }
        }
    );
    for process in processes.iter_mut() {
        assert!(process.to_executor().is_empty());
    }
}

#[test]
fn an_answer_before_the_command_is_collected_is_dropped() {
    let mut processes = cluster(3);
    // process 1 has not heard the question yet
    let ack = Message::MCollectAck { dot: Dot::new(1, 1), clock: VClock::bottom(3) };
    assert_eq!(deliver(&mut processes, 2, 1, ack), Action::Nothing);
    assert_eq!(processes[0].metrics().fast_paths(), 0);
}

#[test]
fn a_committed_no_op_is_not_executed() {
    let mut processes = cluster(3);
    let mcommit = Message::MCommit {
        dot: Dot::new(2, 4),
        value: ConsensusValue::with(None, VClock::bottom(3)),
    };
    assert_eq!(deliver(&mut processes, 2, 1, mcommit), Action::Nothing);
    assert!(processes[0].to_executor().is_empty());
}

#[test]
fn a_proposal_in_a_lower_ballot_is_dropped() {
    let mut processes = cluster(3);
    let dot = Dot::new(3, 1);
    let value = ConsensusValue::with(Some(put(1, "x", "1")), VClock::bottom(3));
    assert_eq!(
        deliver(&mut processes, 3, 2, Message::MConsensus { dot, ballot: 3, value: value.clone() }),
        Action::ToSend { target: set(&[3]), msg: Message::MConsensusAck { dot, ballot: 3 } }
    );
    assert_eq!(
        deliver(&mut processes, 1, 2, Message::MConsensus { dot, ballot: 1, value }),
        Action::Nothing
    );
    // an ack nobody waits for is dropped
    assert_eq!(
        deliver(&mut processes, 2, 1, Message::MConsensusAck { dot, ballot: 3 }),
        Action::Nothing
    );
}

#[test]
fn commands_on_the_same_key_depend_on_each_other() {
    let mut processes = cluster(3);
    assert_eq!(replicate(&mut processes, 1, put(1, "x", "1")), Dot::new(1, 1));
    assert_eq!(replicate(&mut processes, 2, put(2, "x", "2")), Dot::new(2, 1));
    assert_eq!(replicate(&mut processes, 1, put(3, "y", "3")), Dot::new(1, 2));
    let infos = processes[2].to_executor();
    assert_eq!(infos.len(), 3);
    assert_eq!(infos[0].dot, Dot::new(1, 1));
    assert!(infos[0].clock.same(&VClock::bottom(3)));
    // the second command on `x` depends on the first
    assert_eq!(infos[1].dot, Dot::new(2, 1));
    assert!(infos[1].clock.same(&VClock::from_frontiers(&vec![(1, 1), (2, 0), (3, 0)])));
    // the command on `y` depends on nothing
    assert_eq!(infos[2].dot, Dot::new(1, 2));
    assert!(infos[2].clock.same(&VClock::bottom(3)));
}

#[test]
fn a_process_that_knows_no_process_handles_nothing() {
    let config = Config::new(3, 1);
    let (process, events) = Process::new(2, config);
    assert_eq!(events, vec![(PeriodicEvent::GarbageCollection, 500)]);
    assert_eq!(process.id(), 2);
    assert!(!process.discovered());
    assert!(!process.submits(&None));
    assert!(!process.submits(&Some(Dot::new(2, 1))));
    assert!(!process.handles(1, &Message::MCommitDot { dot: Dot::new(2, 1) }));
    assert!(!process.handles(1, &Message::MGarbageCollection { committed: VClock::bottom(3) }));
}

#[test]
fn what_only_the_process_itself_sends_is_refused_from_others() {
    let processes = cluster(3);
    let process = &processes[1];
    assert!(process.handles(2, &Message::MCommitDot { dot: Dot::new(1, 1) }));
    assert!(!process.handles(1, &Message::MCommitDot { dot: Dot::new(1, 1) }));
    assert!(process.handles(2, &Message::MStable { stable: vec![(1, 1, 2)] }));
    assert!(!process.handles(3, &Message::MStable { stable: vec![(1, 1, 2)] }));
    // the last sequence number cannot be recorded as committed
    assert!(!process.handles(2, &Message::MCommitDot { dot: Dot::new(1, u64::MAX) }));
    let last = Message::MCommit {
        dot: Dot::new(1, u64::MAX),
        value: ConsensusValue::with(None, VClock::bottom(3)),
    };
    assert!(!process.handles(1, &last));
}

#[test]
fn a_discovery_that_leaves_a_quorum_short_fails() {
    let (mut process, _) = Process::new(1, Config::new(3, 1));
    assert!(!process.discover(vec![1]));
    assert!(process.discover(vec![1, 3]));
    assert!(process.discover(vec![1, 3, 2]));
    // the quorum is made of the closest processes
    let action = process.submit(None, put(1, "x", "1"));
    assert!(matches!(action, Action::ToSend { target, .. } if target == set(&[1, 3])));
}

#[test]
fn a_submission_with_a_dot_uses_it() {
    let mut processes = cluster(3);
    let dot = Dot::new(1, 40);
    assert!(processes[0].submits(&Some(dot)));
    let action = processes[0].submit(Some(dot), put(1, "x", "1"));
    assert!(matches!(action, Action::ToSend { msg: Message::MCollect { dot: used, .. }, .. } if used == dot));
    // the process's own sequence is not touched by it
    let action = processes[0].submit(None, put(2, "y", "1"));
    assert!(
        matches!(action, Action::ToSend { msg: Message::MCollect { dot: used, .. }, .. } if used == Dot::new(1, 1))
    );
}

#[test]
fn the_protocol_is_leaderless_and_its_oracle_is_not_shared() {
    assert!(Process::leaderless());
    assert!(!Process::parallel());
    assert_eq!(Process::allowed_faults(3), 1);
    assert_eq!(Process::allowed_faults(5), 2);
    assert_eq!(Process::allowed_faults(6), 3);
    assert_eq!(Process::allowed_faults(0), 0);
}

// Commits `count` commands of process 1 at every process.
fn commit_at_all(processes: &mut Vec<Process>, count: u64) {
    for sequence in 1..=count {
        let dot = replicate(processes, 1, put(sequence, "x", "v"));
        assert_eq!(dot, Dot::new(1, sequence));
    }
}

// Runs the periodic garbage collection at process `at` and returns the
// clock it tells the others and the ranges it tells itself.
fn collect(processes: &mut Vec<Process>, at: ProcessId) -> (VClock, Vec<(ProcessId, u64, u64)>) {
    let n = processes.len() as u64;
    assert!(processes[(at - 1) as usize].discovered());
    let mut actions = processes[(at - 1) as usize].handle_event(PeriodicEvent::GarbageCollection);
    assert_eq!(actions.len(), 2);
    let stable = match actions.pop().unwrap() {
        Action::ToForward { msg: Message::MStable { stable } } => stable,
        _ => panic!("the stable ranges are forwarded to the process itself"),
    };
    let committed = match actions.pop().unwrap() {
        Action::ToSend { target, msg: Message::MGarbageCollection { committed } } => {
            let others: HashSet<ProcessId> = (1..=n).filter(|other| *other != at).collect();
            assert_eq!(target, others);
            committed
        }
        _ => panic!("the committed clock is sent to the others"),
    };
    (committed, stable)
}

#[test]
fn what_is_committed_everywhere_is_forgotten() {
    let mut processes = cluster(3);
    commit_at_all(&mut processes, 5);
    let five = VClock::from_frontiers(&vec![(1, 5), (2, 0), (3, 0)]);

    // processes 2 and 3 tell process 1 what is committed there
    for other in 2..=3u64 {
        let (committed, stable) = collect(&mut processes, other);
        assert!(committed.same(&five));
        assert!(stable.is_empty());
        let report = Message::MGarbageCollection { committed };
        assert_eq!(deliver(&mut processes, other, 1, report), Action::Nothing);
    }

    // process 1 now knows the five commands committed everywhere
    let (committed, stable) = collect(&mut processes, 1);
    assert!(committed.same(&five));
    assert_eq!(stable, vec![(1, 1, 5)]);
    assert_eq!(processes[0].metrics().stable_count(), 0);
    assert_eq!(deliver(&mut processes, 1, 1, Message::MStable { stable }), Action::Nothing);
    assert_eq!(processes[0].metrics().stable_count(), 5);

    // nothing is kept about them: a question about one of them is answered
    // as if it were new
    let question = Message::MCollect {
        dot: Dot::new(1, 3),
        cmd: Some(put(3, "x", "v")),
        clock: VClock::bottom(3),
        quorum: set(&[1, 2]),
    };
    assert!(matches!(
        deliver(&mut processes, 1, 1, question.clone()),
        Action::ToSend { msg: Message::MCollectAck { .. }, .. }
    ));
    // where they are not collected yet, it is dropped
    assert_eq!(deliver(&mut processes, 1, 2, question), Action::Nothing);

    // what was declared stable is not declared again
    let (_, stable) = collect(&mut processes, 1);
    assert!(stable.is_empty());
}

#[test]
fn nothing_is_forgotten_before_every_process_has_reported() {
    let mut processes = cluster(3);
    commit_at_all(&mut processes, 2);
    // only process 2 reports
    let (committed, _) = collect(&mut processes, 2);
    assert_eq!(
        deliver(&mut processes, 2, 1, Message::MGarbageCollection { committed }),
        Action::Nothing
    );
    let (_, stable) = collect(&mut processes, 1);
    assert!(stable.is_empty());
    assert_eq!(deliver(&mut processes, 1, 1, Message::MStable { stable }), Action::Nothing);
    assert_eq!(processes[0].metrics().stable_count(), 0);
    // the commands are still known as committed
    let late = Message::MCollect {
        dot: Dot::new(1, 1),
        cmd: Some(put(1, "x", "v")),
        clock: VClock::bottom(3),
        quorum: set(&[1, 2]),
    };
    assert_eq!(deliver(&mut processes, 1, 1, late), Action::Nothing);
}

#[test]
fn only_what_the_slowest_process_has_committed_is_stable() {
    let mut processes = cluster(3);
    commit_at_all(&mut processes, 4);
    // process 3 reports an older state, in which it had committed two
    let report = Message::MGarbageCollection {
        committed: VClock::from_frontiers(&vec![(1, 2), (2, 0), (3, 0)]),
    };
    assert_eq!(deliver(&mut processes, 3, 1, report), Action::Nothing);
    let (committed, _) = collect(&mut processes, 2);
    assert_eq!(
        deliver(&mut processes, 2, 1, Message::MGarbageCollection { committed }),
        Action::Nothing
    );
    let (_, stable) = collect(&mut processes, 1);
    assert_eq!(stable, vec![(1, 1, 2)]);
    assert_eq!(deliver(&mut processes, 1, 1, Message::MStable { stable }), Action::Nothing);
    assert_eq!(processes[0].metrics().stable_count(), 2);
    // a later report of process 3 lets the rest go
    let (committed, _) = collect(&mut processes, 3);
    assert_eq!(
        deliver(&mut processes, 3, 1, Message::MGarbageCollection { committed }),
        Action::Nothing
    );
    let (_, stable) = collect(&mut processes, 1);
    assert_eq!(stable, vec![(1, 3, 4)]);
    assert_eq!(deliver(&mut processes, 1, 1, Message::MStable { stable }), Action::Nothing);
    assert_eq!(processes[0].metrics().stable_count(), 4);
}

#[test]
fn a_commit_told_by_another_worker_counts_for_collection() {
    let mut processes = cluster(3);
    for sequence in 1..=3u64 {
        let told = Message::MCommitDot { dot: Dot::new(2, sequence) };
        assert_eq!(deliver(&mut processes, 1, 1, told), Action::Nothing);
    }
    // a gap: sequence 5 without 4
    let told = Message::MCommitDot { dot: Dot::new(2, 5) };
    assert_eq!(deliver(&mut processes, 1, 1, told), Action::Nothing);
    let (committed, stable) = collect(&mut processes, 1);
    assert!(committed.same(&VClock::from_frontiers(&vec![(1, 0), (2, 3), (3, 0)])));
    assert!(stable.is_empty());
    // the gap closes
    let told = Message::MCommitDot { dot: Dot::new(2, 4) };
    assert_eq!(deliver(&mut processes, 1, 1, told), Action::Nothing);
    let (committed, _) = collect(&mut processes, 1);
    assert!(committed.same(&VClock::from_frontiers(&vec![(1, 0), (2, 5), (3, 0)])));
}

#[test]
fn messages_are_copied_with_all_they_hold() {
    let msg = Message::MCollect {
        dot: Dot::new(1, 2),
        cmd: Some(put(1, "x", "1")),
        clock: VClock::from_frontiers(&vec![(1, 1), (2, 3)]),
        quorum: set(&[1, 3]),
    };
    assert_eq!(msg.clone(), msg);
    let msg = Message::MStable { stable: vec![(1, 1, 4), (2, 3, 3)] };
    assert_eq!(msg.clone(), msg);
    let msg = Message::MCommit {
        dot: Dot::new(3, 1),
        value: ConsensusValue::with(None, VClock::from_frontiers(&vec![(2, 2)])),
    };
    assert_eq!(msg.clone(), msg);
    let action = Action::ToSend { target: set(&[2, 3]), msg };
    assert_eq!(action.clone(), action);
    assert_ne!(action, Action::Nothing);
}

#[test]
fn a_consensus_value_is_a_command_and_a_clock() {
    let bottom = ConsensusValue::new(3);
    assert_eq!(bottom.cmd(), &None);
    assert!(bottom.clock().same(&VClock::bottom(3)));
    let cmd = put(1, "x", "1");
    let clock = VClock::from_frontiers(&vec![(2, 5)]);
    let value = ConsensusValue::with(Some(cmd.clone()), clock.clone());
    assert_eq!(value.cmd(), &Some(cmd.clone()));
    assert!(value.clock().same(&clock));
    assert_eq!(value.clone(), value);
    assert_eq!(value.into_parts(), (Some(cmd), clock));
}

#[test]
fn a_copy_of_a_process_goes_its_own_way() {
    let mut processes = cluster(3);
    assert_eq!(replicate(&mut processes, 1, put(1, "x", "1")), Dot::new(1, 1));
    let mut copy = processes[0].clone();
    // the copy has what the process has for the executor
    assert_eq!(copy.to_executor(), processes[0].to_executor());
    assert_eq!(copy.id(), 1);
    assert_eq!(copy.metrics(), processes[0].metrics());
    // its next dot follows the dots of the process, and its oracle knows
    // the commands of the process
    let action = copy.submit(None, put(2, "x", "2"));
    match action {
        Action::ToSend { target, msg: Message::MCollect { dot, clock, .. } } => {
            assert_eq!(target, set(&[1, 2]));
            assert_eq!(dot, Dot::new(1, 2));
            assert!(clock.same(&VClock::from_frontiers(&vec![(1, 1), (2, 0), (3, 0)])));
        }
        _ => panic!("a submission is answered with an MCollect"),
    }
    // the process itself has not moved
    let action = processes[0].submit(None, put(3, "y", "3"));
    assert!(
        matches!(action, Action::ToSend { msg: Message::MCollect { dot, .. }, .. } if dot == Dot::new(1, 2))
    );
}

#[test]
fn seven_processes_commit_after_four_answers() {
    // f = 3: the fast quorum has 3 + (3 + 1) / 2 = 5 members
    let mut processes = cluster(7);
    let mcollect = processes[0].submit(None, put(1, "x", "1"));
    assert!(matches!(&mcollect, Action::ToSend { target, .. } if *target == set(&[1, 2, 3, 4, 5])));
    let mut acks = forward_to_processes(&mut processes, (1, mcollect));
    assert_eq!(acks.len(), 5);
    let last = acks.pop().unwrap();
    for ack in acks {
        assert!(forward_to_processes(&mut processes, ack).is_empty());
    }
    let mut mcommits = forward_to_processes(&mut processes, last);
    assert_eq!(mcommits.len(), 1);
    let (_, mcommit) = mcommits.pop().unwrap();
    assert!(matches!(&mcommit, Action::ToSend { target, .. } if target.len() == 7));
    assert!(forward_to_processes(&mut processes, (1, mcommit)).is_empty());
    assert_eq!(processes[0].metrics().fast_paths(), 1);
    for process in processes.iter_mut() {
        assert_eq!(process.to_executor().len(), 1);
    }
}

#[test]
fn two_processes_commit_after_one_answer() {
    // f = 1: both processes make the fast quorum
    let mut processes = cluster(2);
    assert_eq!(replicate(&mut processes, 2, put(1, "x", "1")), Dot::new(2, 1));
    assert_eq!(processes[1].metrics().fast_paths(), 1);
    for process in processes.iter_mut() {
        assert_eq!(process.to_executor().len(), 1);
    }
}
