use fantoch::clock::VClock;
use fantoch::command::ClientCommand;
use fantoch::command::Command;
use fantoch::command::MultiCommand;
use fantoch::config::Config;
use fantoch::executor::graph::GraphExecutionInfo;
use fantoch::id::Dot;
use fantoch::id::ProcessId;
use fantoch::id::Rifl;
use fantoch::protocol::clocks::SequentialKeyClocks;
use fantoch::protocol::epaxos::ConsensusValue;
use fantoch::protocol::epaxos::EPaxos;
use fantoch::protocol::epaxos::Message;
use fantoch::run::worker::fan_out;
use fantoch::run::worker::handle_from_client;
use fantoch::run::worker::handle_from_processes;
use fantoch::run::worker::only_to_self;
use fantoch::run::worker::send_to_writer;
use fantoch::run::worker::DispatchError;
use fantoch::run::worker::Effect;
use std::collections::HashMap;
use std::collections::HashSet;

type Process = EPaxos<SequentialKeyClocks>;

// Process 1 of three, which knows the others.
fn process_1() -> Process {
    let (mut process, _) = Process::new(1, Config::new(3, 1));
    assert!(process.discover(vec![1, 2, 3]));
    process
}

fn put(sequence: u64) -> ClientCommand {
    let commands = MultiCommand::new(vec![(String::from("x"), Command::Put(String::from("1")))]);
    ClientCommand::new(Rifl::new(1, sequence), commands)
}

fn set(members: &[ProcessId]) -> HashSet<ProcessId> {
    members.iter().cloned().collect()
}

fn writers(counts: &[(ProcessId, usize)]) -> HashMap<ProcessId, usize> {
    counts.iter().cloned().collect()
}

fn mcollect(sequence: u64) -> Message {
    Message::MCollect {
        dot: Dot::new(1, sequence),
        cmd: Some(put(sequence)),
        clock: VClock::bottom(3),
        quorum: set(&[1, 2]),
    }
}

#[test]
fn a_message_goes_to_one_of_the_writers_of_its_destination() {
    let writers = writers(&[(2, 3), (3, 1)]);
    let msg = Message::MCommitDot { dot: Dot::new(1, 1) };
    let mut seen = HashSet::new();
    for _ in 0..200 {
        match send_to_writer(2, msg.clone(), &writers) {
            Ok(Effect::ToWriter { to, writer, msg: sent }) => {
                assert_eq!(to, 2);
                assert!(writer < 3);
                assert_eq!(sent, msg);
                seen.insert(writer);
            }
            other => panic!("unexpected {:?}", other),
        }
        assert_eq!(
            send_to_writer(3, msg.clone(), &writers),
            Ok(Effect::ToWriter { to: 3, writer: 0, msg: msg.clone() })
        );
    }
    // every writer gets its share
    assert_eq!(seen, [0usize, 1, 2].iter().cloned().collect());
}

#[test]
fn a_destination_without_writer_is_an_error() {
    let msg = Message::MCommitDot { dot: Dot::new(1, 1) };
    let none = writers(&[(2, 0)]);
    assert_eq!(send_to_writer(2, msg.clone(), &none), Err(DispatchError::NoWriter(2)));
    assert_eq!(send_to_writer(3, msg, &none), Err(DispatchError::NoWriter(3)));
}

#[test]
fn a_message_fans_out_to_every_target_but_the_process_itself() {
    let writers = writers(&[(2, 2), (3, 1), (4, 5)]);
    let msg = mcollect(1);
    let (sends, to_self) = fan_out(1, &set(&[1, 2, 3]), &msg, &writers).expect("writers for all");
    assert!(to_self);
    assert_eq!(sends.len(), 2);
    let mut reached = HashSet::new();
    for send in sends {
        match send {
            Effect::ToWriter { to, writer, msg: sent } => {
                assert_eq!(sent, msg);
                assert!(to == 2 || to == 3);
                assert!(writer < writers[&to]);
                assert!(reached.insert(to));
            }
            other => panic!("unexpected {:?}", other),
        }
    }

    let (sends, to_self) = fan_out(1, &set(&[3]), &msg, &writers).expect("a writer for 3");
    assert!(!to_self);
    assert_eq!(sends, vec![Effect::ToWriter { to: 3, writer: 0, msg: msg.clone() }]);

    let (sends, to_self) = fan_out(1, &set(&[1]), &msg, &writers).expect("nothing to write");
    assert!(to_self);
    assert!(sends.is_empty());

    assert_eq!(fan_out(1, &set(&[1, 2, 7]), &msg, &writers), Err(DispatchError::NoWriter(7)));
}

#[test]
fn a_message_belongs_to_the_worker_its_index_leads_to() {
    // one worker has it all, but what is for every worker
    assert!(only_to_self(&mcollect(1), 0, 1));
    assert!(only_to_self(&Message::MCommitDot { dot: Dot::new(1, 1) }, 0, 1));
    assert!(!only_to_self(&Message::MStable { stable: vec![] }, 0, 1));
    // four workers: dots go to workers 2 and 3, by their sequence number
    assert!(only_to_self(&mcollect(1), 3, 4));
    assert!(!only_to_self(&mcollect(1), 2, 4));
    assert!(only_to_self(&mcollect(2), 2, 4));
    assert!(!only_to_self(&mcollect(2), 0, 4));
    // and what is about garbage to worker 0
    assert!(only_to_self(&Message::MCommitDot { dot: Dot::new(1, 1) }, 0, 4));
    assert!(!only_to_self(&Message::MCommitDot { dot: Dot::new(1, 1) }, 3, 4));
}

#[test]
fn a_submission_is_sent_to_the_quorum_and_handled_at_once_by_its_worker() {
    let mut process = process_1();
    let writers = writers(&[(2, 1), (3, 1)]);
    let (effects, outcome) = handle_from_client(0, 1, None, put(1), &mut process, &writers);
    assert_eq!(outcome, Ok(()));
    // the question goes to process 2; the process's own answer to itself is
    // handled, and discarded, on the spot
    assert_eq!(effects, vec![Effect::ToWriter { to: 2, writer: 0, msg: mcollect(1) }]);
    // the process has collected its own command: the answer of process 2
    // commits it
    let ack = Message::MCollectAck { dot: Dot::new(1, 1), clock: VClock::bottom(3) };
    let dispatch = handle_from_processes(0, 1, 2, ack, &mut process, &writers);
    assert_eq!(dispatch.outcome, Ok(()));
    let mcommit = Message::MCommit {
        dot: Dot::new(1, 1),
        value: ConsensusValue::with(Some(put(1)), VClock::bottom(3)),
    };
    assert_eq!(dispatch.effects.len(), 2);
    for to in [2u64, 3] {
        let expected = Effect::ToWriter { to, writer: 0, msg: mcommit.clone() };
        assert!(dispatch.effects.contains(&expected));
    }
    // the commit was handled at once too
    assert_eq!(
        dispatch.to_executors,
        vec![GraphExecutionInfo::new(Dot::new(1, 1), put(1), VClock::bottom(3))]
    );
    assert_eq!(process.metrics().fast_paths(), 1);
    assert!(process.to_executor().is_empty());
}

#[test]
fn what_belongs_to_another_worker_is_handed_to_the_local_workers() {
    let mut process = process_1();
    let writers = writers(&[(2, 1), (3, 1)]);
    // the first dot of the process belongs to worker 3 of 4, not to worker 2
    let (effects, outcome) = handle_from_client(2, 4, None, put(1), &mut process, &writers);
    assert_eq!(outcome, Ok(()));
    assert_eq!(
        effects,
        vec![
            Effect::ToWriter { to: 2, writer: 0, msg: mcollect(1) },
            Effect::ToWorkers { msg: mcollect(1) },
        ]
    );
    // nothing was collected here: an answer is dropped
    let ack = Message::MCollectAck { dot: Dot::new(1, 1), clock: VClock::bottom(3) };
    let dispatch = handle_from_processes(2, 4, 2, ack, &mut process, &writers);
    assert_eq!(dispatch.outcome, Ok(()));
    assert!(dispatch.effects.is_empty());
    assert!(dispatch.to_executors.is_empty());
}

#[test]
fn a_worker_gives_up_when_a_target_has_no_writer() {
    let mut process = process_1();
    let (effects, outcome) = handle_from_client(0, 1, None, put(1), &mut process, &writers(&[]));
    assert_eq!(outcome, Err(DispatchError::NoWriter(2)));
    assert!(effects.is_empty());
}

#[test]
fn a_worker_gives_up_when_the_protocol_does_not_handle_a_message() {
    let writers = writers(&[(2, 1), (3, 1)]);
    // a process that knows no process takes no command
    let (mut process, _) = Process::new(1, Config::new(3, 1));
    let (effects, outcome) = handle_from_client(0, 1, None, put(1), &mut process, &writers);
    assert_eq!(outcome, Err(DispatchError::NotHandled));
    assert!(effects.is_empty());

    // what only the process tells itself is not taken from another
    let mut process = process_1();
    let stable = Message::MStable { stable: vec![(1, 1, 1)] };
    let dispatch = handle_from_processes(0, 1, 2, stable, &mut process, &writers);
    assert_eq!(dispatch.outcome, Err(DispatchError::NotHandled));
    assert!(dispatch.effects.is_empty());
    assert!(dispatch.to_executors.is_empty());
}

#[test]
fn a_commit_from_another_process_reaches_the_executors() {
    let mut process = process_1();
    let writers = writers(&[(2, 1), (3, 1)]);
    let clock = VClock::from_frontiers(&vec![(3, 4)]);
    let mcommit = Message::MCommit {
        dot: Dot::new(2, 1),
        value: ConsensusValue::with(Some(put(5)), clock.clone()),
    };
    let dispatch = handle_from_processes(0, 1, 2, mcommit, &mut process, &writers);
    assert_eq!(dispatch.outcome, Ok(()));
    assert!(dispatch.effects.is_empty());
    assert_eq!(dispatch.to_executors, vec![GraphExecutionInfo::new(Dot::new(2, 1), put(5), clock)]);
}
