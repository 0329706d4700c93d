//! A leaderless protocol in which each command is ordered after the
//! commands it depends on. The coordinator of a command asks a fast quorum
//! what the command depends on. If all agree, the command is committed at
//! once; if not, the union of what they said is agreed upon through a round
//! of single-decree Flexible Paxos.

use crate::clock::bottom;
use crate::clock::events_of;
use crate::clock::frontier_of;
use crate::clock::VClock;
use crate::command::ClientCommand;
use crate::command::ClientCommandView;
use crate::config::spec_fast_quorum_size;
use crate::config::spec_minority;
use crate::config::Config;
use crate::executor::graph::GraphExecutionInfo;
use crate::executor::graph::GraphExecutionInfoView;
use crate::id::is_process;
use crate::id::Dot;
use crate::id::ProcessId;
use crate::protocol::action::Action;
use crate::protocol::base::BaseProcess;
use crate::protocol::base::BaseProcessView;
use crate::protocol::base::ProtocolMetrics;
use crate::protocol::base::spec_saturating;
use crate::protocol::clocks::all_equal;
use crate::protocol::clocks::joined_all;
use crate::protocol::clocks::KeyClocks;
use crate::protocol::clocks::QuorumClocks;
use crate::protocol::clocks::QuorumClocksView;
use crate::protocol::gc::GCTrackView;
use crate::protocol::info::CommandsInfo;
use crate::protocol::info::Info;
use crate::protocol::info::in_ranges;
use crate::protocol::synod::single::Synod;
use crate::run::routing::dot_worker_index_reserve;
use crate::run::routing::no_worker_index_reserve;
use crate::run::routing::spec_dot_worker_index_reserve;
use crate::run::routing::spec_no_worker_index_reserve;
use crate::run::routing::GC_WORKER_INDEX;
use crate::protocol::synod::single::SynodMessage;
use crate::protocol::synod::single::SynodView;
use crate::std_ext::clone_process_set;
use std::collections::HashSet;
use vstd::prelude::*;

verus! {

broadcast use vstd::std_specs::hash::group_hash_axioms;

/// What is agreed upon for a dot: the command (none for a no-op) and the
/// clock of what it depends on.
#[derive(Debug, PartialEq, Eq)]
pub struct ConsensusValue {
    cmd: Option<ClientCommand>,
    clock: VClock,
}

/// Mathematical model of a `ConsensusValue`.
pub struct ConsensusValueView {
    pub cmd: Option<ClientCommandView>,
    pub clock: Map<ProcessId, u64>,
}

/// The model of a command that may be absent.
pub open spec fn command_view(cmd: Option<ClientCommand>) -> Option<ClientCommandView> {
    match cmd {
        Some(cmd) => Some(cmd@),
        None => None,
    }
}

impl View for ConsensusValue {
    type V = ConsensusValueView;

    closed spec fn view(&self) -> ConsensusValueView {
        ConsensusValueView { cmd: command_view(self.cmd), clock: self.clock@ }
    }
}

impl Clone for ConsensusValue {
    fn clone(&self) -> (copy: Self)
        ensures
            copy@ == self@,
    {
        let cmd = match &self.cmd {
            Some(cmd) => Some(cmd.clone()),
            None => None,
        };
        ConsensusValue { cmd, clock: self.clock.clone() }
    }
}

impl ConsensusValue {
    /// The value of a dot that nothing was heard of yet, in a system of `n`
    /// processes: a no-op that depends on nothing.
    pub fn new(n: usize) -> (value: Self)
        ensures
            value@ == (ConsensusValueView {
                cmd: None,
                clock: bottom(Set::new(|id: ProcessId| is_process(n, id))),
            }),
    {
        ConsensusValue { cmd: None, clock: VClock::bottom(n) }
    }

    /// The value made of `cmd` and `clock`.
    pub fn with(cmd: Option<ClientCommand>, clock: VClock) -> (value: Self)
        ensures
            value@ == (ConsensusValueView { cmd: command_view(cmd), clock: clock@ }),
    {
        ConsensusValue { cmd, clock }
    }

    /// The command of the value; none for a no-op.
    pub fn cmd(&self) -> (cmd: &Option<ClientCommand>)
        ensures
            command_view(*cmd) == self@.cmd,
    {
        &self.cmd
    }

    /// The clock of what the command depends on.
    pub fn clock(&self) -> (clock: &VClock)
        ensures
            clock@ == self@.clock,
    {
        &self.clock
    }

    /// Takes the value apart.
    pub fn into_parts(self) -> (parts: (Option<ClientCommand>, VClock))
        ensures
            command_view(parts.0) == self@.cmd,
            parts.1@ == self@.clock,
    {
        (self.cmd, self.clock)
    }
}

/// How far a command has come at a process.
#[derive(Debug, Clone, Copy, PartialEq, Eq, Structural)]
pub enum Status {
    START,
    COLLECT,
    COMMIT,
}

impl Status {
    /// The place of the status in the life of a command.
    pub open spec fn rank(self) -> int {
        match self {
            Status::START => 0,
            Status::COLLECT => 1,
            Status::COMMIT => 2,
        }
    }
}

/// The model of a synod over consensus values.
pub open spec fn synod_view(synod: SynodView<ConsensusValue>) -> SynodView<ConsensusValueView> {
    SynodView {
        process_id: synod.process_id,
        n: synod.n,
        f: synod.f,
        ballot: synod.ballot,
        accepted: (synod.accepted.0, synod.accepted.1@),
        proposer_ballot: synod.proposer_ballot,
        accepts: synod.accepts,
        chosen: synod.chosen,
    }
}

/// All that a process keeps about a command during its life.
pub struct EPaxosInfo {
    status: Status,
    quorum: HashSet<ProcessId>,
    synod: Synod<ConsensusValue>,
    // `quorum_clocks` is used by the coordinator to gather the clocks
    // reported by the other members of the fast quorum
    quorum_clocks: QuorumClocks,
}

/// Mathematical model of an `EPaxosInfo`.
pub struct EPaxosInfoView {
    pub status: Status,
    /// The fast quorum chosen by the coordinator.
    pub quorum: Set<ProcessId>,
    /// The consensus instance of the dot.
    pub synod: SynodView<ConsensusValueView>,
    /// The clocks reported by the other members of the fast quorum.
    pub quorum_clocks: QuorumClocksView,
}

impl EPaxosInfoView {
    /// What is kept about a command that nothing was heard of yet. The
    /// clocks of the coordinator itself are not gathered: one report less
    /// than the fast quorum has members is waited for.
    pub open spec fn bottom(
        process_id: ProcessId,
        n: usize,
        f: usize,
        fast_quorum_size: usize,
    ) -> EPaxosInfoView {
        EPaxosInfoView {
            status: Status::START,
            quorum: Set::empty(),
            synod: SynodView::initial(
                process_id,
                n,
                f,
                ConsensusValueView {
                    cmd: None,
                    clock: bottom(Set::new(|id: ProcessId| is_process(n, id))),
                },
            ),
            quorum_clocks: QuorumClocksView {
                size: (fast_quorum_size - 1) as usize,
                participants: Set::empty(),
                clocks: Seq::empty(),
            },
        }
    }

    /// The invariant of the model: the acks of the process itself are never
    /// among those gathered, of which there are never more than waited for;
    /// and the value of a committed command is known to be chosen.
    pub open spec fn wf(self) -> bool {
        &&& self.synod.wf()
        &&& self.status == Status::COMMIT ==> self.synod.chosen
        &&& self.quorum_clocks.participants.finite()
        &&& self.quorum_clocks.participants.len() == self.quorum_clocks.clocks.len()
        &&& self.quorum_clocks.participants.len() <= self.quorum_clocks.size
        &&& !self.quorum_clocks.participants.contains(self.synod.process_id)
    }
}

impl View for EPaxosInfo {
    type V = EPaxosInfoView;

    closed spec fn view(&self) -> EPaxosInfoView {
        EPaxosInfoView {
            status: self.status,
            quorum: self.quorum@,
            synod: synod_view(self.synod@),
            quorum_clocks: self.quorum_clocks@,
        }
    }
}

impl EPaxosInfo {
    /// The invariant: that of the model, and of the value kept.
    pub closed spec fn wf(&self) -> bool {
        &&& self@.wf()
        &&& self.quorum_clocks.wf()
        &&& self.synod@.wf()
    }
}

impl Info for EPaxosInfo {
    open spec fn is_bottom(
        &self,
        process_id: ProcessId,
        n: usize,
        f: usize,
        fast_quorum_size: usize,
    ) -> bool {
        self.wf() && self@ == EPaxosInfoView::bottom(process_id, n, f, fast_quorum_size)
    }

    fn new(process_id: ProcessId, n: usize, f: usize, fast_quorum_size: usize) -> (info: Self) {
        // create bottom consensus value
        let initial_value = ConsensusValue::new(n);

        // although the fast quorum size is `fast_quorum_size`, `QuorumClocks`
        // waits for `fast_quorum_size - 1` reports: the clock reported by the
        // coordinator is not considered in the fast path condition, nor is it
        // needed for correctness; for this to work, the acks from self are
        // ignored
        EPaxosInfo {
            status: Status::START,
            quorum: HashSet::new(),
            synod: Synod::new(process_id, n, f, initial_value),
            quorum_clocks: QuorumClocks::new(fast_quorum_size - 1),
        }
    }
}

impl Clone for EPaxosInfo {
    fn clone(&self) -> (copy: Self)
        ensures
            copy@ == self@,
            copy.wf() == self.wf(),
    {
        EPaxosInfo {
            status: self.status,
            quorum: clone_process_set(&self.quorum),
            synod: self.synod.clone(),
            quorum_clocks: self.quorum_clocks.clone(),
        }
    }
}

/// The messages of the protocol.
#[derive(Debug, PartialEq, Eq)]
pub enum Message {
    /// The coordinator asks the fast quorum what the command depends on.
    MCollect { dot: Dot, cmd: Option<ClientCommand>, clock: VClock, quorum: HashSet<ProcessId> },
    /// A member of the fast quorum says what the command depends on.
    MCollectAck { dot: Dot, clock: VClock },
    /// The value of the dot is decided.
    MCommit { dot: Dot, value: ConsensusValue },
    /// The coordinator asks the write quorum to accept a value.
    MConsensus { dot: Dot, ballot: u64, value: ConsensusValue },
    /// A member of the write quorum has accepted the value.
    MConsensusAck { dot: Dot, ballot: u64 },
    /// A worker tells the worker that collects garbage that a dot is
    /// committed.
    MCommitDot { dot: Dot },
    /// A process tells the others what is committed there.
    MGarbageCollection { committed: VClock },
    /// A process tells its workers which dots are committed everywhere.
    MStable { stable: Vec<(ProcessId, u64, u64)> },
}

/// Mathematical model of a `Message`.
pub enum MessageView {
    MCollect {
        dot: Dot,
        cmd: Option<ClientCommandView>,
        clock: Map<ProcessId, u64>,
        quorum: Set<ProcessId>,
    },
    MCollectAck { dot: Dot, clock: Map<ProcessId, u64> },
    MCommit { dot: Dot, value: ConsensusValueView },
    MConsensus { dot: Dot, ballot: u64, value: ConsensusValueView },
    MConsensusAck { dot: Dot, ballot: u64 },
    MCommitDot { dot: Dot },
    MGarbageCollection { committed: Map<ProcessId, u64> },
    MStable { stable: Seq<(ProcessId, u64, u64)> },
}

impl MessageView {
    /// The index that routes the message to a worker: the messages about a
    /// dot go to the worker of the dot, those about garbage collection to the
    /// worker that collects garbage, and the list of stable dots to all
    /// workers.
    pub open spec fn index(self) -> Option<(usize, usize)> {
        match self {
            MessageView::MCollect { dot, .. } => spec_dot_worker_index_reserve(dot),
            MessageView::MCollectAck { dot, .. } => spec_dot_worker_index_reserve(dot),
            MessageView::MCommit { dot, .. } => spec_dot_worker_index_reserve(dot),
            MessageView::MConsensus { dot, .. } => spec_dot_worker_index_reserve(dot),
            MessageView::MConsensusAck { dot, .. } => spec_dot_worker_index_reserve(dot),
            MessageView::MCommitDot { .. } => spec_no_worker_index_reserve(GC_WORKER_INDEX),
            MessageView::MGarbageCollection { .. } => spec_no_worker_index_reserve(
                GC_WORKER_INDEX,
            ),
            MessageView::MStable { .. } => None,
        }
    }

    /// How many more messages the handling of this one can lead to at the
    /// process that handles it: each message a handler replies with is
    /// nearer to the end of the life of a command than the one handled.
    pub open spec fn rank(self) -> nat {
        match self {
            MessageView::MCollect { .. } => 4,
            MessageView::MCollectAck { .. } => 3,
            MessageView::MConsensus { .. } => 2,
            MessageView::MConsensusAck { .. } => 1,
            _ => 0,
        }
    }
}

impl View for Message {
    type V = MessageView;

    open spec fn view(&self) -> MessageView {
        match *self {
            Message::MCollect { dot, cmd, clock, quorum } => MessageView::MCollect {
                dot,
                cmd: command_view(cmd),
                clock: clock@,
                quorum: quorum@,
            },
            Message::MCollectAck { dot, clock } => MessageView::MCollectAck { dot, clock: clock@ },
            Message::MCommit { dot, value } => MessageView::MCommit { dot, value: value@ },
            Message::MConsensus { dot, ballot, value } => MessageView::MConsensus {
                dot,
                ballot,
                value: value@,
            },
            Message::MConsensusAck { dot, ballot } => MessageView::MConsensusAck { dot, ballot },
            Message::MCommitDot { dot } => MessageView::MCommitDot { dot },
            Message::MGarbageCollection { committed } => MessageView::MGarbageCollection {
                committed: committed@,
            },
            Message::MStable { stable } => MessageView::MStable { stable: stable@ },
        }
    }
}

/// A copy of a list of ranges.
fn clone_ranges(ranges: &Vec<(ProcessId, u64, u64)>) -> (copy: Vec<(ProcessId, u64, u64)>)
    ensures
        copy@ == ranges@,
{
    let mut copy: Vec<(ProcessId, u64, u64)> = Vec::new();
    let mut i: usize = 0;
    while i < ranges.len()
        invariant
            i <= ranges.len(),
            copy@ == ranges@.subrange(0, i as int),
        decreases ranges.len() - i,
    {
        let range = ranges[i];
        copy.push(range);
        assert(copy@ =~= ranges@.subrange(0, i + 1));
        i = i + 1;
    }
    assert(copy@ =~= ranges@);
    copy
}

/// A copy of a command that may be absent.
fn clone_command(cmd: &Option<ClientCommand>) -> (copy: Option<ClientCommand>)
    ensures
        command_view(copy) == command_view(*cmd),
{
    match cmd {
        Some(cmd) => Some(cmd.clone()),
        None => None,
    }
}

impl Clone for Message {
    fn clone(&self) -> (copy: Self)
        ensures
            copy@ == self@,
    {
        match self {
            Message::MCollect { dot, cmd, clock, quorum } => Message::MCollect {
                dot: *dot,
                cmd: clone_command(cmd),
                clock: clock.clone(),
                quorum: clone_process_set(quorum),
            },
            Message::MCollectAck { dot, clock } => Message::MCollectAck {
                dot: *dot,
                clock: clock.clone(),
            },
            Message::MCommit { dot, value } => Message::MCommit { dot: *dot, value: value.clone() },
            Message::MConsensus { dot, ballot, value } => Message::MConsensus {
                dot: *dot,
                ballot: *ballot,
                value: value.clone(),
            },
            Message::MConsensusAck { dot, ballot } => Message::MConsensusAck {
                dot: *dot,
                ballot: *ballot,
            },
            Message::MCommitDot { dot } => Message::MCommitDot { dot: *dot },
            Message::MGarbageCollection { committed } => Message::MGarbageCollection {
                committed: committed.clone(),
            },
            Message::MStable { stable } => Message::MStable { stable: clone_ranges(stable) },
        }
    }
}

impl Message {
    /// The index that routes the message to a worker.
    pub open spec fn spec_index(&self) -> Option<(usize, usize)> {
        self@.index()
    }

    /// The index that routes the message to a worker.
    #[verifier::when_used_as_spec(spec_index)]
    pub fn index(&self) -> (index: Option<(usize, usize)>)
        ensures
            index == self.spec_index(),
    {
        match self {
            // Protocol messages
            Message::MCollect { dot, .. } => dot_worker_index_reserve(dot),
            Message::MCollectAck { dot, .. } => dot_worker_index_reserve(dot),
            Message::MCommit { dot, .. } => dot_worker_index_reserve(dot),
            Message::MConsensus { dot, .. } => dot_worker_index_reserve(dot),
            Message::MConsensusAck { dot, .. } => dot_worker_index_reserve(dot),
            // GC messages
            Message::MCommitDot { .. } => no_worker_index_reserve(GC_WORKER_INDEX),
            Message::MGarbageCollection { .. } => no_worker_index_reserve(GC_WORKER_INDEX),
            Message::MStable { .. } => None,
        }
    }
}

/// The events that a process is to be told of from time to time.
#[derive(Debug, Clone, Copy, PartialEq, Eq, Structural)]
pub enum PeriodicEvent {
    GarbageCollection,
}

impl PeriodicEvent {
    /// The index that routes the event to a worker: the worker that
    /// collects garbage.
    pub fn index(&self) -> (index: Option<(usize, usize)>)
        ensures
            index == spec_no_worker_index_reserve(GC_WORKER_INDEX),
    {
        match self {
            PeriodicEvent::GarbageCollection => no_worker_index_reserve(GC_WORKER_INDEX),
        }
    }
}

/// Mathematical model of what a process asks for.
pub enum ActionView {
    ToSend { target: Set<ProcessId>, msg: MessageView },
    ToForward { msg: MessageView },
    Nothing,
}

/// The model of an action.
pub open spec fn action_view(action: Action<Message>) -> ActionView {
    match action {
        Action::ToSend { target, msg } => ActionView::ToSend { target: target@, msg: msg@ },
        Action::ToForward { msg } => ActionView::ToForward { msg: msg@ },
        Action::Nothing => ActionView::Nothing,
    }
}

/// Mathematical model of an `EPaxos` process.
pub struct EPaxosView<KC> {
    /// Who the process is and whom it talks to.
    pub bp: BaseProcessView,
    /// The oracle that says what a command depends on.
    pub keys_clocks: KC,
    /// What is kept about each command heard of.
    pub infos: Map<Dot, EPaxosInfoView>,
    /// What is committed where.
    pub track: GCTrackView,
    /// What is to be handed to the executor, oldest first.
    pub to_executor: Seq<GraphExecutionInfoView>,
}

impl<KC: KeyClocks> EPaxosView<KC> {
    /// Number of processes.
    pub open spec fn n(self) -> usize {
        self.bp.config.n
    }

    /// Number of tolerated failures: a minority.
    pub open spec fn f(self) -> usize {
        spec_minority(self.bp.config.n)
    }

    /// What is kept about `dot`; for a dot that nothing is kept about, what
    /// is kept about a command that nothing was heard of yet.
    pub open spec fn info_at(self, dot: Dot) -> EPaxosInfoView {
        if self.infos.contains_key(dot) {
            self.infos[dot]
        } else {
            EPaxosInfoView::bottom(self.bp.process_id, self.n(), self.f(), self.bp.fast_quorum_size)
        }
    }

    /// The state with `info` kept about `dot`.
    pub open spec fn with_info(self, dot: Dot, info: EPaxosInfoView) -> Self {
        EPaxosView { infos: self.infos.insert(dot, info), ..self }
    }

    /// The invariant of the model.
    pub open spec fn wf(self) -> bool {
        &&& self.bp.config.leaderless_ready()
        &&& self.bp.fast_quorum_size == spec_fast_quorum_size(self.f())
        &&& self.bp.write_quorum_size == self.f() + 1
        &&& self.track.wf()
        &&& self.track.process_id == self.bp.process_id
        &&& self.track.n == self.n()
        &&& forall|dot: Dot| #[trigger]
            self.infos.contains_key(dot) ==> {
                &&& self.infos[dot].wf()
                &&& self.infos[dot].synod.process_id == self.bp.process_id
                &&& self.infos[dot].synod.f == self.f()
                &&& self.infos[dot].quorum_clocks.size == self.bp.fast_quorum_size - 1
            }
    }

    /// Whether the process handles `msg` from `from` in this state. It
    /// knows the processes of the system. A command is collected only while
    /// its acceptor has joined no ballot. The last sequence number of `u64`
    /// is never committed. What a process tells its own workers comes from
    /// the process itself.
    pub open spec fn handles(self, from: ProcessId, msg: MessageView) -> bool {
        &&& self.bp.processes.is_some()
        &&& match msg {
            MessageView::MCollect { dot, .. } => self.info_at(dot).status == Status::START
                ==> self.info_at(dot).synod.ballot == 0,
            MessageView::MCommit { dot, .. } => self.info_at(dot).status != Status::COMMIT
                ==> dot.sequence < u64::MAX,
            MessageView::MCommitDot { dot } => from == self.bp.process_id && dot.sequence
                < u64::MAX,
            MessageView::MStable { .. } => from == self.bp.process_id,
            _ => true,
        }
    }

    /// Whether the process takes a submission with `dot`: it knows the
    /// processes of the system, and has a dot left if none is given.
    pub open spec fn submits(self, dot: Option<Dot>) -> bool {
        &&& self.bp.processes.is_some()
        &&& dot.is_none() ==> self.bp.last_sequence < u64::MAX
    }

    /// The transition of a process that handles an `MCollect`. A command
    /// that is no longer at its start is left alone. Otherwise the process
    /// asks its oracle for the clock of the command, unless it coordinates
    /// the command itself: then the clock of the message stands. It keeps
    /// the quorum and the value, and tells the coordinator its clock.
    pub open spec fn mcollect_handled(
        self,
        from: ProcessId,
        dot: Dot,
        cmd: Option<ClientCommandView>,
        quorum: Set<ProcessId>,
        remote_clock: Map<ProcessId, u64>,
        post: Self,
        action: ActionView,
    ) -> bool {
        let info = self.info_at(dot);
        if info.status != Status::START {
            &&& post == self.with_info(dot, info)
            &&& action == ActionView::Nothing
        } else {
            &&& action matches ActionView::ToSend {
                target,
                msg: MessageView::MCollectAck { dot: acked, clock },
            }
            &&& target == set![from]
            &&& acked == dot
            &&& if from == self.bp.process_id {
                clock == remote_clock && post.keys_clocks == self.keys_clocks
            } else {
                KC::answers(
                    &self.keys_clocks,
                    dot,
                    cmd,
                    Some(remote_clock),
                    &post.keys_clocks,
                    clock,
                )
            }
            &&& post == (EPaxosView {
                keys_clocks: post.keys_clocks,
                infos: self.infos.insert(
                    dot,
                    EPaxosInfoView {
                        status: Status::COLLECT,
                        quorum,
                        synod: SynodView {
                            accepted: (0, ConsensusValueView { cmd, clock }),
                            ..info.synod
                        },
                        ..info
                    },
                ),
                ..self
            })
        }
    }

    /// The transition of a process that handles an `MCollectAck`. An ack of
    /// the process itself is dropped, and so is an ack for a command that is
    /// not being collected. The clock is gathered; the ack that brings the
    /// last clock waited for decides. If all clocks gathered are the same,
    /// the command is committed with that clock. If not, the join of the
    /// clocks is proposed to the write quorum in the first ballot of the
    /// process.
    pub open spec fn after_mcollectack(
        self,
        from: ProcessId,
        dot: Dot,
        clock: Map<ProcessId, u64>,
    ) -> (Self, ActionView) {
        let info = self.info_at(dot);
        if from == self.bp.process_id {
            (self, ActionView::Nothing)
        } else if info.status != Status::COLLECT {
            (self.with_info(dot, info), ActionView::Nothing)
        } else {
            let gathered = info.quorum_clocks.reported(from, clock);
            let counted = EPaxosInfoView { quorum_clocks: gathered, ..info };
            if !(info.quorum_clocks.counts(from) && gathered.all()) {
                (self.with_info(dot, counted), ActionView::Nothing)
            } else {
                let value = ConsensusValueView {
                    cmd: info.synod.accepted.1.cmd,
                    clock: joined_all(Map::empty(), gathered.clocks),
                };
                if all_equal(gathered.clocks) {
                    (
                        EPaxosView {
                            bp: BaseProcessView {
                                metrics: ProtocolMetrics {
                                    fast_paths: spec_saturating(self.bp.metrics.fast_paths, 1),
                                    ..self.bp.metrics
                                },
                                ..self.bp
                            },
                            ..self.with_info(dot, counted)
                        },
                        ActionView::ToSend {
                            target: self.bp.all(),
                            msg: MessageView::MCommit { dot, value },
                        },
                    )
                } else {
                    (
                        EPaxosView {
                            bp: BaseProcessView {
                                metrics: ProtocolMetrics {
                                    slow_paths: spec_saturating(self.bp.metrics.slow_paths, 1),
                                    ..self.bp.metrics
                                },
                                ..self.bp
                            },
                            ..self.with_info(
                                dot,
                                EPaxosInfoView {
                                    synod: SynodView {
                                        proposer_ballot: self.bp.process_id,
                                        ..info.synod
                                    },
                                    ..counted
                                },
                            )
                        },
                        ActionView::ToSend {
                            target: self.bp.write_quorum(),
                            msg: MessageView::MConsensus {
                                dot,
                                ballot: self.bp.process_id,
                                value,
                            },
                        },
                    )
                }
            }
        }
    }

    /// The transition of a process that handles an `MCommit`. For a command
    /// that is committed already, nothing happens. Otherwise the command
    /// becomes committed with the value of the message, which its synod
    /// learns as chosen; unless it is a no-op, it is queued for the
    /// executor; and the dot is recorded as committed here.
    pub open spec fn mcommit_handled(
        self,
        dot: Dot,
        value: ConsensusValueView,
        post: Self,
        action: ActionView,
    ) -> bool {
        let info = self.info_at(dot);
        &&& action == ActionView::Nothing
        &&& if info.status == Status::COMMIT {
            post == self.with_info(dot, info)
        } else {
            &&& post.track.wf()
            &&& post.track.committed == self.track.committed.insert(
                dot.source,
                events_of(self.track.committed, dot.source).insert(dot.sequence),
            )
            &&& post.track == (GCTrackView {
                committed: post.track.committed,
                frontier: post.track.frontier,
                ..self.track
            })
            &&& post == (EPaxosView {
                infos: self.infos.insert(
                    dot,
                    EPaxosInfoView {
                        status: Status::COMMIT,
                        synod: SynodView {
                            chosen: true,
                            accepted: (info.synod.accepted.0, value),
                            ..info.synod
                        },
                        ..info
                    },
                ),
                track: post.track,
                to_executor: match value.cmd {
                    Some(cmd) => self.to_executor.push(
                        GraphExecutionInfoView { dot, cmd, clock: value.clock },
                    ),
                    None => self.to_executor,
                },
                ..self
            })
        }
    }

    /// The transition of a process that handles an `MConsensus`: its
    /// acceptor answers. If the value of the dot is known to be chosen, the
    /// sender is told the chosen value. If the ballot is not below the one
    /// joined, the value is accepted and the sender is told so. If it is,
    /// nothing happens.
    pub open spec fn after_mconsensus(
        self,
        from: ProcessId,
        dot: Dot,
        ballot: u64,
        value: ConsensusValueView,
    ) -> (Self, ActionView) {
        let info = self.info_at(dot);
        if info.synod.chosen {
            (
                self.with_info(dot, info),
                ActionView::ToSend {
                    target: set![from],
                    msg: MessageView::MCommit { dot, value: info.synod.accepted.1 },
                },
            )
        } else if ballot >= info.synod.ballot {
            (
                self.with_info(
                    dot,
                    EPaxosInfoView {
                        synod: SynodView { ballot, accepted: (ballot, value), ..info.synod },
                        ..info
                    },
                ),
                ActionView::ToSend {
                    target: set![from],
                    msg: MessageView::MConsensusAck { dot, ballot },
                },
            )
        } else {
            (self.with_info(dot, info), ActionView::Nothing)
        }
    }

    /// The transition of a process that handles an `MConsensusAck`: its
    /// proposer counts the accept, if it is for its ballot. The accept that
    /// brings the number of accepting processes to `f + 1` has the value
    /// chosen: all processes are told to commit it.
    pub open spec fn after_mconsensusack(self, from: ProcessId, dot: Dot, ballot: u64) -> (
        Self,
        ActionView,
    ) {
        let info = self.info_at(dot);
        if info.synod.proposer_ballot != ballot {
            (self.with_info(dot, info), ActionView::Nothing)
        } else {
            (
                self.with_info(
                    dot,
                    EPaxosInfoView {
                        synod: SynodView {
                            accepts: info.synod.accepts.insert(from),
                            ..info.synod
                        },
                        ..info
                    },
                ),
                if info.synod.completes(from, ballot) {
                    ActionView::ToSend {
                        target: self.bp.all(),
                        msg: MessageView::MCommit { dot, value: info.synod.accepted.1 },
                    }
                } else {
                    ActionView::Nothing
                },
            )
        }
    }

    /// The transition of a process that handles an `MCommitDot`: the dot is
    /// recorded as committed here.
    pub open spec fn mcommit_dot_handled(self, dot: Dot, post: Self, action: ActionView) -> bool {
        &&& action == ActionView::Nothing
        &&& post.track.wf()
        &&& post.track.committed == self.track.committed.insert(
            dot.source,
            events_of(self.track.committed, dot.source).insert(dot.sequence),
        )
        &&& post.track == (GCTrackView {
            committed: post.track.committed,
            frontier: post.track.frontier,
            ..self.track
        })
        &&& post == (EPaxosView { track: post.track, ..self })
    }

    /// The transition of a process that handles an `MGarbageCollection`:
    /// what the sender says is committed there is recorded.
    pub open spec fn after_mgc(self, from: ProcessId, committed: Map<ProcessId, u64>) -> (
        Self,
        ActionView,
    ) {
        (
            EPaxosView {
                track: GCTrackView {
                    reports: self.track.reports.insert(from, committed),
                    ..self.track
                },
                ..self
            },
            ActionView::Nothing,
        )
    }

    /// The transition of a process that handles an `MStable`: what is kept
    /// about the dots in the ranges is forgotten, and the commands forgotten
    /// are counted.
    pub open spec fn after_mstable(self, stable: Seq<(ProcessId, u64, u64)>) -> (
        Self,
        ActionView,
    ) {
        let kept = self.infos.remove_keys(Set::new(|dot: Dot| in_ranges(stable, dot)));
        (
            EPaxosView {
                infos: kept,
                bp: BaseProcessView {
                    metrics: ProtocolMetrics {
                        stable_count: spec_saturating(
                            self.bp.metrics.stable_count,
                            self.infos.len() - kept.len(),
                        ),
                        ..self.bp.metrics
                    },
                    ..self.bp
                },
                ..self
            },
            ActionView::Nothing,
        )
    }

    /// The transition relation of `EPaxos::handle`: a process in this state
    /// handles `msg` sent by `from`, moves to `post` and asks for `action`.
    pub open spec fn handled(
        self,
        from: ProcessId,
        msg: MessageView,
        post: Self,
        action: ActionView,
    ) -> bool {
        match msg {
            MessageView::MCollect { dot, cmd, clock, quorum } => self.mcollect_handled(
                from,
                dot,
                cmd,
                quorum,
                clock,
                post,
                action,
            ),
            MessageView::MCollectAck { dot, clock } => (post, action) == self.after_mcollectack(
                from,
                dot,
                clock,
            ),
            MessageView::MCommit { dot, value } => self.mcommit_handled(dot, value, post, action),
            MessageView::MConsensus { dot, ballot, value } => (post, action)
                == self.after_mconsensus(from, dot, ballot, value),
            MessageView::MConsensusAck { dot, ballot } => (post, action)
                == self.after_mconsensusack(from, dot, ballot),
            MessageView::MCommitDot { dot } => self.mcommit_dot_handled(dot, post, action),
            MessageView::MGarbageCollection { committed } => (post, action) == self.after_mgc(
                from,
                committed,
            ),
            MessageView::MStable { stable } => (post, action) == self.after_mstable(stable),
        }
    }

    /// The transition relation of `EPaxos::submit`: the command gets the dot
    /// given, or else the next dot of the process; the oracle is asked for
    /// its clock; and the fast quorum is asked to collect it.
    pub open spec fn submitted(
        self,
        dot: Option<Dot>,
        cmd: ClientCommandView,
        post: Self,
        action: ActionView,
    ) -> bool {
        let used = match dot {
            Some(dot) => dot,
            None => Dot {
                source: self.bp.process_id,
                sequence: (self.bp.last_sequence + 1) as u64,
            },
        };
        &&& action matches ActionView::ToSend {
            target,
            msg: MessageView::MCollect { dot: sent, cmd: sent_cmd, clock, quorum },
        }
        &&& target == self.bp.fast_quorum()
        &&& quorum == self.bp.fast_quorum()
        &&& sent == used
        &&& sent_cmd == Some(cmd)
        &&& KC::answers(&self.keys_clocks, used, Some(cmd), None, &post.keys_clocks, clock)
        &&& post == (EPaxosView {
            keys_clocks: post.keys_clocks,
            bp: match dot {
                Some(_) => self.bp,
                None => BaseProcessView { last_sequence: used.sequence, ..self.bp },
            },
            ..self
        })
    }

    /// The transition of a process told that it is time to collect garbage:
    /// the others are told what is committed here, and the workers of the
    /// process are told which dots are now known to be committed everywhere.
    pub open spec fn garbage_collected(self, post: Self, actions: Seq<ActionView>) -> bool {
        &&& actions == seq![
            ActionView::ToSend {
                target: self.bp.all_but_me(),
                msg: MessageView::MGarbageCollection { committed: self.track.frontier },
            },
            ActionView::ToForward {
                msg: MessageView::MStable { stable: self.track.new_stable() },
            },
        ]
        &&& post.track.wf()
        &&& post.track == (GCTrackView {
            previous_stable: post.track.previous_stable,
            ..self.track
        })
        &&& forall|source: ProcessId|
            frontier_of(post.track.previous_stable, source) == #[trigger] frontier_of(
                self.track.declared_among(self.track.n as int),
                source,
            )
        &&& post == (EPaxosView { track: post.track, ..self })
    }
}

/// The model of what is kept about the commands.
pub open spec fn infos_view(infos: Map<Dot, EPaxosInfo>) -> Map<Dot, EPaxosInfoView> {
    Map::new(|dot: Dot| infos.contains_key(dot), |dot: Dot| infos[dot]@)
}

/// The model of what waits for the executor.
pub open spec fn queue_view(queue: Seq<GraphExecutionInfo>) -> Seq<GraphExecutionInfoView> {
    queue.map_values(|info: GraphExecutionInfo| info@)
}

/// A process of the protocol, with `KC` as its oracle.
pub struct EPaxos<KC> {
    bp: BaseProcess,
    keys_clocks: KC,
    cmds: CommandsInfo<EPaxosInfo>,
    to_executor: Vec<GraphExecutionInfo>,
}

impl<KC: KeyClocks> View for EPaxos<KC> {
    type V = EPaxosView<KC>;

    closed spec fn view(&self) -> EPaxosView<KC> {
        EPaxosView {
            bp: self.bp@,
            keys_clocks: self.keys_clocks,
            infos: infos_view(self.cmds@.infos),
            track: self.cmds@.track,
            to_executor: queue_view(self.to_executor@),
        }
    }
}

impl<KC: KeyClocks + Clone> Clone for EPaxos<KC> {
    /// A copy of the process, for another worker. The copy is as good as
    /// the process if the copy of the oracle is.
    fn clone(&self) -> (copy: Self)
        ensures
            cloned(self@.keys_clocks, copy@.keys_clocks),
            copy@ == (EPaxosView { keys_clocks: copy@.keys_clocks, ..self@ }),
            self.wf() && copy@.keys_clocks.wf() ==> copy.wf(),
    {
        let mut to_executor: Vec<GraphExecutionInfo> = Vec::new();
        let mut i: usize = 0;
        while i < self.to_executor.len()
            invariant
                i <= self.to_executor.len(),
                to_executor@.len() == i,
                forall|k: int| 0 <= k < i ==> (#[trigger] to_executor@[k])@ == self.to_executor@[k]@,
            decreases self.to_executor.len() - i,
        {
            to_executor.push(self.to_executor[i].clone());
            i = i + 1;
        }
        assert(queue_view(to_executor@) =~= queue_view(self.to_executor@));
        EPaxos {
            bp: self.bp.clone(),
            keys_clocks: self.keys_clocks.clone(),
            cmds: self.cmds.clone(),
            to_executor,
        }
    }
}

/// The set that holds `process` alone.
fn singleton(process: ProcessId) -> (set: HashSet<ProcessId>)
    ensures
        set@ == set![process],
{
    let mut set: HashSet<ProcessId> = HashSet::new();
    set.insert(process);
    assert(set@ =~= set![process]);
    set
}

impl<KC: KeyClocks> EPaxos<KC> {
    /// Whether what is kept about a command is kept by this process.
    pub open spec fn fits(view: EPaxosView<KC>, info: EPaxosInfoView) -> bool {
        &&& info.wf()
        &&& info.synod.process_id == view.bp.process_id
        &&& info.synod.f == view.f()
        &&& info.quorum_clocks.size == view.bp.fast_quorum_size - 1
    }

    /// The invariant of the process.
    pub closed spec fn wf(&self) -> bool {
        &&& self.bp.wf()
        &&& self.keys_clocks.wf()
        &&& self.cmds.wf()
        &&& self@.wf()
        &&& self.cmds@.process_id == self.bp@.process_id
        &&& self.cmds@.n == self@.n()
        &&& self.cmds@.f == self@.f()
        &&& self.cmds@.fast_quorum_size == self.bp@.fast_quorum_size
        &&& forall|dot: Dot| #[trigger]
            self.cmds@.infos.contains_key(dot) ==> self.cmds@.infos[dot].wf()
    }

    /// A well-formed process has a well-formed model.
    pub proof fn lemma_wf(&self)
        requires
            self.wf(),
        ensures
            self@.wf(),
            self@.infos.dom().finite(),
    {
        self.cmds.lemma_wf();
        assert(self@.infos.dom() =~= self.cmds@.infos.dom());
    }

    /// EPaxos always tolerates a minority of faults.
    pub fn allowed_faults(n: usize) -> (f: usize)
        ensures
            f == spec_minority(n),
    {
        n / 2
    }

    /// Creates a new `EPaxos` process, together with the events it is to be
    /// told of and the milliseconds between two of each.
    pub fn new(process_id: ProcessId, config: Config) -> (res: (Self, Vec<(PeriodicEvent, usize)>))
        requires
            config.leaderless_ready(),
        ensures
            res.0.wf(),
            res.0@.bp == (BaseProcessView {
                process_id,
                config,
                fast_quorum_size: spec_fast_quorum_size(spec_minority(config.n)) as usize,
                write_quorum_size: (spec_minority(config.n) + 1) as usize,
                processes: None,
                last_sequence: 0,
                metrics: ProtocolMetrics { fast_paths: 0, slow_paths: 0, stable_count: 0 },
            }),
            res.0@.infos == Map::<Dot, EPaxosInfoView>::empty(),
            res.0@.to_executor == Seq::<GraphExecutionInfoView>::empty(),
            res.0@.track.reports == Map::<ProcessId, Map<ProcessId, u64>>::empty(),
            forall|dot: Dot| dot.sequence >= 1 ==> !#[trigger] res.0@.track.is_committed(dot),
            res.1@ == seq![(PeriodicEvent::GarbageCollection, config.garbage_collection_interval)],
    {
        // compute fast and write quorum sizes
        let (fast_quorum_size, write_quorum_size) = config.epaxos_quorum_sizes();

        // create protocol data-structures
        let bp = BaseProcess::new(process_id, config, fast_quorum_size, write_quorum_size);
        let keys_clocks = KC::new(config.n());
        let f = Self::allowed_faults(config.n());
        let cmds = CommandsInfo::new(process_id, config.n(), f, fast_quorum_size);
        let to_executor = Vec::new();

        // create `EPaxos`
        let protocol = Self { bp, keys_clocks, cmds, to_executor };
        proof {
            cmds.lemma_wf();
            assert(protocol@.infos =~= Map::<Dot, EPaxosInfoView>::empty());
            assert(protocol@.to_executor =~= Seq::<GraphExecutionInfoView>::empty());
        }

        // create periodic events
        let gc_delay = config.garbage_collection_interval();
        let mut events: Vec<(PeriodicEvent, usize)> = Vec::new();
        events.push((PeriodicEvent::GarbageCollection, gc_delay));
        assert(events@ =~= seq![(PeriodicEvent::GarbageCollection, gc_delay)]);

        // return both
        (protocol, events)
    }

    /// Returns the process identifier.
    pub fn id(&self) -> (id: ProcessId)
        ensures
            id == self@.bp.process_id,
    {
        self.bp.process_id()
    }

    /// Updates the processes known by this process.
    /// The set of processes provided is already sorted by distance.
    pub fn discover(&mut self, processes: Vec<ProcessId>) -> (connected: bool)
        requires
            old(self).wf(),
        ensures
            final(self).wf(),
            final(self)@ == (EPaxosView {
                bp: BaseProcessView { processes: Some(processes@), ..old(self)@.bp },
                ..old(self)@
            }),
            connected == (final(self)@.bp.fast_quorum().len() == old(self)@.bp.fast_quorum_size
                && final(self)@.bp.write_quorum().len() == old(self)@.bp.write_quorum_size),
    {
        self.bp.discover(processes)
    }

    /// Whether the process knows the processes of the system.
    pub fn discovered(&self) -> (known: bool)
        ensures
            known == self@.bp.processes.is_some(),
    {
        self.bp.discovered()
    }

    /// Whether the process handles `msg` from `from` in its state: see
    /// `EPaxosView::handles`.
    pub fn handles(&self, from: ProcessId, msg: &Message) -> (ok: bool)
        requires
            self.wf(),
        ensures
            ok == self@.handles(from, msg@),
    {
        if !self.bp.discovered() {
            return false;
        }
        match msg {
            Message::MCollect { dot, .. } => {
                match self.cmds.peek(*dot) {
                    Some(info) => {
                        assert(self@.infos.contains_key(*dot));
                        info.status != Status::START || info.synod.ballot() == 0
                    },
                    None => {
                        assert(!self@.infos.contains_key(*dot));
                        true
                    },
                }
            },
            Message::MCommit { dot, .. } => {
                match self.cmds.peek(*dot) {
                    Some(info) => {
                        assert(self@.infos.contains_key(*dot));
                        info.status == Status::COMMIT || dot.sequence < u64::MAX
                    },
                    None => {
                        assert(!self@.infos.contains_key(*dot));
                        dot.sequence < u64::MAX
                    },
                }
            },
            Message::MCommitDot { dot } => from == self.bp.process_id() && dot.sequence
                < u64::MAX,
            Message::MStable { .. } => from == self.bp.process_id(),
            _ => true,
        }
    }

    /// Whether the process takes a submission with `dot`: see
    /// `EPaxosView::submits`.
    pub fn submits(&self, dot: &Option<Dot>) -> (ok: bool)
        requires
            self.wf(),
        ensures
            ok == self@.submits(*dot),
    {
        self.bp.discovered() && (dot.is_some() || self.bp.last_sequence() < u64::MAX)
    }

    /// Takes out what is kept about `dot`.
    fn take_info(&mut self, dot: Dot) -> (info: EPaxosInfo)
        requires
            old(self).wf(),
        ensures
            final(self).wf(),
            final(self)@ == (EPaxosView {
                infos: old(self)@.infos.remove(dot),
                ..old(self)@
            }),
            info.wf(),
            info@ == old(self)@.info_at(dot),
            Self::fits(old(self)@, info@),
    {
        let info = self.cmds.take(dot);
        proof {
            assert(final(self)@.infos =~= old(self)@.infos.remove(dot));
            if old(self).cmds@.infos.contains_key(dot) {
                assert(old(self)@.infos.contains_key(dot));
            }
        }
        info
    }

    /// Files `info` as what is kept about `dot`.
    fn put_info(&mut self, dot: Dot, info: EPaxosInfo)
        requires
            old(self).wf(),
            info.wf(),
            Self::fits(old(self)@, info@),
        ensures
            final(self).wf(),
            final(self)@ == old(self)@.with_info(dot, info@),
    {
        self.cmds.put(dot, info);
        proof {
            assert(final(self)@.infos =~= old(self)@.infos.insert(dot, info@));
        }
    }
}

impl<KC: KeyClocks> EPaxos<KC> {
    /// Submits a command issued by some client. The command gets `dot`, or
    /// the next dot of the process if none is given.
    pub fn submit(&mut self, dot: Option<Dot>, cmd: ClientCommand) -> (action: Action<Message>)
        requires
            old(self).wf(),
            old(self)@.submits(dot),
        ensures
            final(self).wf(),
            old(self)@.submitted(dot, cmd@, final(self)@, action_view(action)),
    {
        self.handle_submit(dot, cmd)
    }

    /// Handles protocol messages.
    pub fn handle(&mut self, from: ProcessId, msg: Message) -> (action: Action<Message>)
        requires
            old(self).wf(),
            old(self)@.handles(from, msg@),
        ensures
            final(self).wf(),
            old(self)@.handled(from, msg@, final(self)@, action_view(action)),
    {
        match msg {
            Message::MCollect { dot, cmd, quorum, clock } => self.handle_mcollect(
                from,
                dot,
                cmd,
                quorum,
                clock,
            ),
            Message::MCollectAck { dot, clock } => self.handle_mcollectack(from, dot, clock),
            Message::MCommit { dot, value } => self.handle_mcommit(from, dot, value),
            Message::MConsensus { dot, ballot, value } => self.handle_mconsensus(
                from,
                dot,
                ballot,
                value,
            ),
            Message::MConsensusAck { dot, ballot } => self.handle_mconsensusack(from, dot, ballot),
            Message::MCommitDot { dot } => self.handle_mcommit_dot(from, dot),
            Message::MGarbageCollection { committed } => self.handle_mgc(from, committed),
            Message::MStable { stable } => self.handle_mstable(from, stable),
        }
    }

    /// Handles periodic local events.
    pub fn handle_event(&mut self, event: PeriodicEvent) -> (actions: Vec<Action<Message>>)
        requires
            old(self).wf(),
            old(self)@.bp.processes.is_some(),
        ensures
            final(self).wf(),
            old(self)@.garbage_collected(
                final(self)@,
                actions@.map_values(|action: Action<Message>| action_view(action)),
            ),
    {
        match event {
            PeriodicEvent::GarbageCollection => self.handle_event_garbage_collection(),
        }
    }

    /// Returns what waits for the executor, oldest first, and forgets it.
    pub fn to_executor(&mut self) -> (infos: Vec<GraphExecutionInfo>)
        requires
            old(self).wf(),
        ensures
            final(self).wf(),
            queue_view(infos@) == old(self)@.to_executor,
            final(self)@ == (EPaxosView {
                to_executor: Seq::<GraphExecutionInfoView>::empty(),
                ..old(self)@
            }),
    {
        let mut infos: Vec<GraphExecutionInfo> = Vec::new();
        std::mem::swap(&mut infos, &mut self.to_executor);
        assert(final(self)@.to_executor =~= Seq::<GraphExecutionInfoView>::empty());
        infos
    }

    /// Whether the workers of a process can run in parallel: they can if
    /// they can share the oracle.
    pub fn parallel() -> (parallel: bool)
        ensures
            call_ensures(KC::parallel, (), parallel),
    {
        KC::parallel()
    }

    /// The protocol has no leader.
    pub fn leaderless() -> (leaderless: bool)
        ensures
            leaderless,
    {
        true
    }

    /// The counters of the process.
    pub fn metrics(&self) -> (metrics: &ProtocolMetrics)
        ensures
            *metrics == self@.bp.metrics,
    {
        self.bp.metrics()
    }

    /// Handles a submit operation by a client.
    fn handle_submit(&mut self, dot: Option<Dot>, cmd: ClientCommand) -> (action: Action<Message>)
        requires
            old(self).wf(),
            old(self)@.submits(dot),
        ensures
            final(self).wf(),
            old(self)@.submitted(dot, cmd@, final(self)@, action_view(action)),
    {
        cmd.well_formed();
        // compute the command identifier
        let dot = match dot {
            Some(dot) => dot,
            None => self.bp.next_dot(),
        };

        // wrap command
        let cmd = Some(cmd);

        // compute its clock:
        // - the oracle does not put the command in the clock it answers; if
        //   it did, the command would be declared as a dependency of itself,
        //   which prevents fast paths with f > 1
        let clock = self.keys_clocks.add(dot, &cmd, None);

        // create `MCollect` and target
        let mcollect = Message::MCollect { dot, cmd, clock, quorum: self.bp.fast_quorum() };
        let target = self.bp.fast_quorum();

        // return `ToSend`
        Action::ToSend { target, msg: mcollect }
    }

    fn handle_mcollect(
        &mut self,
        from: ProcessId,
        dot: Dot,
        cmd: Option<ClientCommand>,
        quorum: HashSet<ProcessId>,
        remote_clock: VClock,
    ) -> (action: Action<Message>)
        requires
            old(self).wf(),
            old(self)@.info_at(dot).status == Status::START ==> old(self)@.info_at(
                dot,
            ).synod.ballot == 0,
        ensures
            final(self).wf(),
            old(self)@.mcollect_handled(
                from,
                dot,
                command_view(cmd),
                quorum@,
                remote_clock@,
                final(self)@,
                action_view(action),
            ),
    {
        match &cmd {
            Some(cmd) => cmd.well_formed(),
            None => {},
        }
        // get cmd info
        let mut info = self.take_info(dot);
        let ghost before = old(self)@.infos;

        // discard message if no longer in START
        if info.status != Status::START {
            self.put_info(dot, info);
            assert(before.remove(dot).insert(dot, info@) =~= before.insert(dot, info@));
            return Action::Nothing;
        }
        // check if it's a message from self

        let message_from_self = from == self.bp.process_id();

        let clock = if message_from_self {
            // if it is, do not recompute clock
            remote_clock
        } else {
            // otherwise, compute clock with the remote clock as past
            self.keys_clocks.add(dot, &cmd, Some(remote_clock))
        };

        // update command info
        info.status = Status::COLLECT;
        info.quorum = quorum;
        // create and set consensus value
        let value = ConsensusValue::with(cmd, clock.clone());
        let ghost chosen = value@;
        let value_gen = || -> (made: ConsensusValue)
            ensures
                made@ == chosen,
            {
                let made = value;
                made
            };
        let set = info.synod.maybe_set_value(value_gen);
        assert(set);
        self.put_info(dot, info);
        assert(before.remove(dot).insert(dot, info@) =~= before.insert(dot, info@));

        // create `MCollectAck` and target
        let mcollectack = Message::MCollectAck { dot, clock };
        let target = singleton(from);

        // return `ToSend`
        Action::ToSend { target, msg: mcollectack }
    }

    fn handle_mcollectack(&mut self, from: ProcessId, dot: Dot, clock: VClock) -> (action: Action<
        Message,
    >)
        requires
            old(self).wf(),
            old(self)@.bp.processes.is_some(),
        ensures
            final(self).wf(),
            (final(self)@, action_view(action)) == old(self)@.after_mcollectack(from, dot, clock@),
    {
        // ignore ack from self (see `EPaxosInfo::new` for the reason why)
        if from == self.bp.process_id() {
            return Action::Nothing;
        }
        // get cmd info

        let mut info = self.take_info(dot);
        let ghost before = old(self)@.infos;
        let ghost kept = info@;

        // do nothing if we're no longer COLLECT
        if info.status != Status::COLLECT {
            self.put_info(dot, info);
            assert(before.remove(dot).insert(dot, info@) =~= before.insert(dot, info@));
            return Action::Nothing;
        }
        // update quorum clocks

        let counted = info.quorum_clocks.add(from, clock);

        // check if we have all necessary replies
        if counted && info.quorum_clocks.all() {
            // compute the union while checking whether all clocks reported are
            // equal
            let (final_clock, all_equal) = info.quorum_clocks.union();

            // create consensus value
            let cmd = clone_command(info.synod.value().cmd());
            let value = ConsensusValue::with(cmd, final_clock);

            // fast path condition: all reported clocks are equal
            if all_equal {
                self.bp.fast_path();
                // fast path: create `MCommit`
                let mcommit = Message::MCommit { dot, value };
                let target = self.bp.all();
                self.put_info(dot, info);
                assert(before.remove(dot).insert(dot, info@) =~= before.insert(dot, info@));

                // return `ToSend`
                Action::ToSend { target, msg: mcommit }
            } else {
                self.bp.slow_path();
                // slow path: create `MConsensus`
                let ballot = info.synod.skip_prepare();
                let mconsensus = Message::MConsensus { dot, ballot, value };
                let target = self.bp.write_quorum();
                self.put_info(dot, info);
                assert(before.remove(dot).insert(dot, info@) =~= before.insert(dot, info@));
                // return `ToSend`
                Action::ToSend { target, msg: mconsensus }
            }
        } else {
            self.put_info(dot, info);
            assert(before.remove(dot).insert(dot, info@) =~= before.insert(dot, info@));
            Action::Nothing
        }
    }

    fn handle_mcommit(&mut self, from: ProcessId, dot: Dot, value: ConsensusValue) -> (action:
        Action<Message>)
        requires
            old(self).wf(),
            old(self)@.info_at(dot).status != Status::COMMIT ==> dot.sequence < u64::MAX,
        ensures
            final(self).wf(),
            old(self)@.mcommit_handled(dot, value@, final(self)@, action_view(action)),
    {
        // get cmd info
        let mut info = self.take_info(dot);
        let ghost before = old(self)@.infos;

        if info.status == Status::COMMIT {
            // do nothing if we're already COMMIT
            self.put_info(dot, info);
            assert(before.remove(dot).insert(dot, info@) =~= before.insert(dot, info@));
            return Action::Nothing;
        }
        // update command info:

        info.status = Status::COMMIT;

        // handle commit in synod
        let msg = SynodMessage::MChosen(value.clone());
        let out = info.synod.handle(from, msg);
        assert(out.is_none());

        // create execution info if not a noop
        let (cmd, clock) = value.into_parts();
        if let Some(cmd) = cmd {
            // create execution info
            let execution_info = GraphExecutionInfo::new(dot, cmd, clock);
            self.to_executor.push(execution_info);
            assert(queue_view(self.to_executor@) =~= queue_view(old(self).to_executor@).push(
                execution_info@,
            ));
        }
        self.put_info(dot, info);
        assert(before.remove(dot).insert(dot, info@) =~= before.insert(dot, info@));

        // record that this command has been committed
        self.cmds.commit(dot);
        proof {
            self.cmds.lemma_wf();
            assert(self@.infos =~= before.insert(dot, info@));
        }

        // nothing to send
        Action::Nothing
    }

    fn handle_mconsensus(
        &mut self,
        from: ProcessId,
        dot: Dot,
        ballot: u64,
        value: ConsensusValue,
    ) -> (action: Action<Message>)
        requires
            old(self).wf(),
        ensures
            final(self).wf(),
            (final(self)@, action_view(action)) == old(self)@.after_mconsensus(
                from,
                dot,
                ballot,
                value@,
            ),
    {
        // get cmd info
        let mut info = self.take_info(dot);
        let ghost before = old(self)@.infos;

        // compute message: that can either be nothing, an ack or an mcommit
        let out = info.synod.handle(from, SynodMessage::MAccept(ballot, value));
        self.put_info(dot, info);
        assert(before.remove(dot).insert(dot, info@) =~= before.insert(dot, info@));
        match out {
            Some(SynodMessage::MAccepted(ballot)) => {
                // the accept message was accepted:
                // create `MConsensusAck`
                let msg = Message::MConsensusAck { dot, ballot };
                Action::ToSend { target: singleton(from), msg }
            },
            Some(SynodMessage::MChosen(value)) => {
                // the value has already been chosen:
                // create `MCommit`
                let msg = Message::MCommit { dot, value };
                Action::ToSend { target: singleton(from), msg }
            },
            _ => {
                // ballot too low to be accepted
                Action::Nothing
            },
        }
    }

    fn handle_mconsensusack(&mut self, from: ProcessId, dot: Dot, ballot: u64) -> (action: Action<
        Message,
    >)
        requires
            old(self).wf(),
            old(self)@.bp.processes.is_some(),
        ensures
            final(self).wf(),
            (final(self)@, action_view(action)) == old(self)@.after_mconsensusack(
                from,
                dot,
                ballot,
            ),
    {
        // get cmd info
        let mut info = self.take_info(dot);
        let ghost before = old(self)@.infos;

        // compute message: that can either be nothing or an mcommit
        let out = info.synod.handle(from, SynodMessage::MAccepted(ballot));
        self.put_info(dot, info);
        assert(before.remove(dot).insert(dot, info@) =~= before.insert(dot, info@));
        match out {
            Some(SynodMessage::MChosen(value)) => {
                // enough accepts were gathered and the value has been chosen
                // create `MCommit` and target
                let target = self.bp.all();
                let mcommit = Message::MCommit { dot, value };

                // return `ToSend`
                Action::ToSend { target, msg: mcommit }
            },
            _ => {
                // not enough accepts yet
                Action::Nothing
            },
        }
    }

    fn handle_mcommit_dot(&mut self, from: ProcessId, dot: Dot) -> (action: Action<Message>)
        requires
            old(self).wf(),
            from == old(self)@.bp.process_id,
            dot.sequence < u64::MAX,
        ensures
            final(self).wf(),
            old(self)@.mcommit_dot_handled(dot, final(self)@, action_view(action)),
    {
        self.cmds.commit(dot);
        proof {
            self.cmds.lemma_wf();
        }
        Action::Nothing
    }

    fn handle_mgc(&mut self, from: ProcessId, committed: VClock) -> (action: Action<Message>)
        requires
            old(self).wf(),
        ensures
            final(self).wf(),
            (final(self)@, action_view(action)) == old(self)@.after_mgc(from, committed@),
    {
        self.cmds.committed_by(from, committed);
        proof {
            self.cmds.lemma_wf();
        }
        Action::Nothing
    }

    fn handle_mstable(&mut self, from: ProcessId, stable: Vec<(ProcessId, u64, u64)>) -> (action:
        Action<Message>)
        requires
            old(self).wf(),
            from == old(self)@.bp.process_id,
        ensures
            final(self).wf(),
            (final(self)@, action_view(action)) == old(self)@.after_mstable(stable@),
    {
        let ghost ranges = Set::new(|dot: Dot| in_ranges(stable@, dot));
        let stable_count = self.cmds.gc(stable);
        proof {
            self.cmds.lemma_wf();
            old(self).cmds.lemma_wf();
            assert(self@.infos =~= old(self)@.infos.remove_keys(ranges));
            assert(self@.infos.dom() =~= self.cmds@.infos.dom());
            assert(old(self)@.infos.dom() =~= old(self).cmds@.infos.dom());
        }
        self.bp.stable(stable_count);
        Action::Nothing
    }

    fn handle_event_garbage_collection(&mut self) -> (actions: Vec<Action<Message>>)
        requires
            old(self).wf(),
            old(self)@.bp.processes.is_some(),
        ensures
            final(self).wf(),
            old(self)@.garbage_collected(
                final(self)@,
                actions@.map_values(|action: Action<Message>| action_view(action)),
            ),
    {
        // retrieve the committed clock and stable dots
        let committed = self.cmds.committed();
        let stable = self.cmds.stable();
        proof {
            self.cmds.lemma_wf();
        }

        // create `ToSend`
        let tosend = Action::ToSend {
            target: self.bp.all_but_me(),
            msg: Message::MGarbageCollection { committed },
        };

        // create `ToForward` to self
        let toforward = Action::ToForward { msg: Message::MStable { stable } };

        let mut actions: Vec<Action<Message>> = Vec::new();
        actions.push(tosend);
        actions.push(toforward);
        assert(actions@.map_values(|action: Action<Message>| action_view(action)) =~= seq![
            action_view(tosend),
            action_view(toforward),
        ]);
        actions
    }
}

} // verus!
