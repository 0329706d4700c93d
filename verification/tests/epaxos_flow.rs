use fantoch::clock::VClock;
use fantoch::command::ClientCommand;
use fantoch::command::Command;
use fantoch::command::Key;
use fantoch::command::MultiCommand;
use fantoch::config::Config;
use fantoch::id::Dot;
use fantoch::id::ProcessId;
use fantoch::id::Rifl;
use fantoch::protocol::action::Action;
use fantoch::protocol::clocks::KeyClocks;
use fantoch::protocol::clocks::SequentialKeyClocks;
use fantoch::protocol::epaxos::EPaxos;
use fantoch::protocol::epaxos::Message;
use std::collections::HashMap;
use std::collections::HashSet;
use std::sync::Arc;
use std::sync::Mutex;
use std::sync::RwLock;

// An oracle that the workers of a process can share: a clock per key, each
// behind a lock of its own.
#[derive(Clone)]
struct LockedKeyClocks {
    n: usize,
    clocks: Arc<RwLock<HashMap<Key, Arc<Mutex<VClock>>>>>,
}

impl LockedKeyClocks {
    // The clock of `key`, created if the key has none yet.
    fn clock_of(&self, key: &Key) -> Arc<Mutex<VClock>> {
        if let Some(clock) = self.clocks.read().unwrap().get(key) {
            return clock.clone();
        }
        let mut clocks = self.clocks.write().unwrap();
        clocks.entry(key.clone()).or_insert_with(|| Arc::new(Mutex::new(VClock::bottom(self.n)))).clone()
    }
}

impl KeyClocks for LockedKeyClocks {
    fn new(n: usize) -> Self {
        LockedKeyClocks { n, clocks: Arc::new(RwLock::new(HashMap::new())) }
    }

    fn add(&mut self, dot: Dot, cmd: &Option<ClientCommand>, past: Option<VClock>) -> VClock {
        let mut clock = match past {
            Some(past) => past,
            None => VClock::bottom(self.n),
        };
        if let Some(cmd) = cmd {
            for key in cmd.commands().keys() {
                let current = self.clock_of(key);
                let mut current = current.lock().unwrap();
                clock.join(&current);
                current.add(dot.source, dot.sequence);
            }
        }
        clock
    }

    fn parallel() -> bool {
        true
    }
}

// A command of client `client` that writes to the one key every command
// writes to.
fn conflicting(client: u64, sequence: u64) -> ClientCommand {
    let payload = "x".repeat(100);
    let commands = MultiCommand::new(vec![(String::from("CONFLICT"), Command::Put(payload))]);
    ClientCommand::new(Rifl::new(client, sequence), commands)
}

// Three processes that know each other, each closest to itself and then to
// the others by increasing identifier.
fn three_processes<KC: KeyClocks>() -> Vec<EPaxos<KC>> {
    let config = Config::new(3, 1);
    assert!(config.leaderless_ready());
    let mut processes = Vec::new();
    for process_id in 1..=3u64 {
        let (mut process, _) = EPaxos::<KC>::new(process_id, config);
        let mut sorted: Vec<ProcessId> = vec![process_id];
        sorted.extend((1..=3u64).filter(|other| *other != process_id));
        assert!(process.discover(sorted));
        processes.push(process);
    }
    processes
}

// Delivers what `from` sends to each of its targets, by increasing
// identifier, and returns what each of them asks for in turn.
fn forward_to_processes<KC: KeyClocks>(
    processes: &mut Vec<EPaxos<KC>>,
    (from, action): (ProcessId, Action<Message>),
) -> Vec<(ProcessId, Action<Message>)> {
    let mut out = Vec::new();
    if let Action::ToSend { target, msg } = action {
        let mut targets: Vec<ProcessId> = target.into_iter().collect();
        targets.sort();
        for to in targets {
            let process = &mut processes[(to - 1) as usize];
            assert!(process.handles(from, &msg));
            let action = process.handle(from, msg.clone());
            if action != Action::Nothing {
                out.push((to, action));
            }
        }
    }
    out
}

fn epaxos_flow<KC: KeyClocks>() {
    // n and f
    let n = 3;
    let f = 1;

    // processes ids
    let process_id_1 = 1;

    let mut processes = three_processes::<KC>();

    // the first command of client 1, which is connected to process 1
    let target = process_id_1;
    let cmd = conflicting(1, 1);

    // submit it in process 1
    let process = &mut processes[(target - 1) as usize];
    assert!(process.submits(&None));
    let mcollect = process.submit(None, cmd);

    // check that the mcollect is being sent to 2 processes
    let check_target =
        |target: &HashSet<u64>| target.len() == 2 && target.contains(&1) && target.contains(&2);
    assert!(matches!(mcollect.clone(), Action::ToSend{target, ..} if check_target(&target)));

    // handle mcollects
    let mut mcollectacks = forward_to_processes(&mut processes, (process_id_1, mcollect));

    // check that there are 2 mcollectacks
    assert_eq!(mcollectacks.len(), 2 * f);

    // handle the mcollectack of the other member of the quorum
    let mut mcommits = forward_to_processes(
        &mut processes,
        mcollectacks.pop().expect("there should be an mcollect ack"),
    );
    // there's a commit now
    assert_eq!(mcommits.len(), 1);

    // check that the mcommit is sent to everyone
    let mcommit = mcommits.pop().expect("there should be an mcommit");
    let check_target = |target: &HashSet<u64>| target.len() == n;
    assert!(matches!(mcommit.clone(), (_, Action::ToSend {target, ..}) if check_target(&target)));

    // all processes handle it
    let to_sends = forward_to_processes(&mut processes, mcommit);

    // check there's nothing to send
    assert!(to_sends.is_empty());

    // process 1 should have something to the executor
    let process = &mut processes[(process_id_1 - 1) as usize];
    let to_executor = process.to_executor();
    assert_eq!(to_executor.len(), 1);

    // the client's next command
    let cmd = conflicting(1, 2);
    let process = &mut processes[(target - 1) as usize];
    assert!(process.submits(&None));
    let action = process.submit(None, cmd);
    let check_msg =
        |msg: &Message| matches!(msg, Message::MCollect {dot, ..} if dot == &Dot::new(process_id_1, 2));
    assert!(matches!(action, Action::ToSend {msg, ..} if check_msg(&msg)));
}

#[test]
fn sequential_epaxos_test() {
    epaxos_flow::<SequentialKeyClocks>();
}

#[test]
fn locked_epaxos_test() {
    epaxos_flow::<LockedKeyClocks>();
}

#[test]
fn a_shared_oracle_answers_as_the_oracle_of_one_worker() {
    let commands = vec![
        (Dot::new(1, 1), conflicting(1, 1)),
        (Dot::new(2, 1), conflicting(2, 1)),
        (Dot::new(1, 2), conflicting(1, 2)),
    ];
    let mut sequential = SequentialKeyClocks::new(3);
    let mut locked = LockedKeyClocks::new(3);
    let mut shared = locked.clone();
    for (dot, cmd) in commands {
        let cmd = Some(cmd);
        let expected = sequential.add(dot, &cmd, None);
        // the copies of the shared oracle see each other's commands
        let answer = if dot.source == 1 { locked.add(dot, &cmd, None) } else { shared.add(dot, &cmd, None) };
        assert!(answer.same(&expected));
    }
    assert!(LockedKeyClocks::parallel());
    assert!(!SequentialKeyClocks::parallel());
}
