//! What a worker does with what its protocol asks for. The worker hands
//! the messages for other processes to their writers, handles at once the
//! messages for itself that are its own to handle, and hands the others to
//! the workers they belong to. Nothing is sent here: what is to be written
//! and forwarded comes back as a list, in the order in which it is to be
//! done.

use crate::command::ClientCommand;
use crate::command::ClientCommandView;
use crate::executor::graph::GraphExecutionInfo;
use crate::executor::graph::GraphExecutionInfoView;
use crate::id::Dot;
use crate::id::ProcessId;
use crate::protocol::action::Action;
use crate::protocol::clocks::KeyClocks;
use crate::protocol::epaxos::action_view;
use crate::protocol::epaxos::queue_view;
use crate::protocol::epaxos::ActionView;
use crate::protocol::epaxos::EPaxos;
use crate::protocol::epaxos::EPaxosView;
use crate::protocol::epaxos::Message;
use crate::protocol::epaxos::MessageView;
use crate::run::routing::spec_worker_index;
use crate::run::routing::worker_index;
use crate::std_ext::members;
use rand::Rng;
use std::collections::HashMap;
use std::collections::HashSet;
use vstd::prelude::*;

verus! {

broadcast use vstd::std_specs::hash::group_hash_axioms;

/// What the runtime is to do for a worker.
#[derive(Debug, PartialEq, Eq)]
pub enum Effect {
    /// Hand `msg` to the writer number `writer` of process `to`.
    ToWriter { to: ProcessId, writer: usize, msg: Message },
    /// Hand `msg`, as a message of this process, to the local workers it
    /// belongs to.
    ToWorkers { msg: Message },
}

/// Mathematical model of an `Effect`.
pub enum EffectView {
    ToWriter { to: ProcessId, writer: usize, msg: MessageView },
    ToWorkers { msg: MessageView },
}

impl View for Effect {
    type V = EffectView;

    open spec fn view(&self) -> EffectView {
        match *self {
            Effect::ToWriter { to, writer, msg } => EffectView::ToWriter { to, writer, msg: msg@ },
            Effect::ToWorkers { msg } => EffectView::ToWorkers { msg: msg@ },
        }
    }
}

/// The model of a list of effects.
pub open spec fn effects_view(effects: Seq<Effect>) -> Seq<EffectView> {
    effects.map_values(|effect: Effect| effect@)
}

/// Why a worker gave up.
#[derive(Debug, Clone, Copy, PartialEq, Eq, Structural)]
pub enum DispatchError {
    /// A message is for a process that this process has no writer for.
    NoWriter(ProcessId),
    /// The protocol does not handle a message in its state.
    NotHandled,
}

/// `rand::Rng::gen_range`, from 0 to `count`, on the generator of the
/// thread, `rand::thread_rng`: some number below `count`. The crate panics
/// on an empty range.
#[verifier::external_body]
fn pick_below(count: usize) -> (index: usize)
    requires
        count > 0,
    ensures
        index < count,
{
    rand::thread_rng().gen_range(0, count)
}

/// Whether a message, with the index it carries, belongs to the worker
/// `worker` among `workers`. A message without index belongs to all
/// workers, and so to none alone.
pub open spec fn spec_only_to_self(index: Option<(usize, usize)>, worker: usize, workers: usize)
    -> bool {
    match index {
        Some((reserve, index)) => spec_worker_index(reserve, index, workers) == worker,
        None => false,
    }
}

/// Whether `msg` belongs to the worker `worker` among `workers`.
pub fn only_to_self(msg: &Message, worker: usize, workers: usize) -> (only: bool)
    requires
        workers > 0,
    ensures
        only == spec_only_to_self(msg@.index(), worker, workers),
{
    match msg.index() {
        Some((reserve, index)) => worker_index(reserve, index, workers) == worker,
        None => false,
    }
}

/// Whether this process has a writer for each process of `target` but
/// itself.
pub open spec fn reachable(
    me: ProcessId,
    target: Set<ProcessId>,
    writers: Map<ProcessId, usize>,
) -> bool {
    forall|to: ProcessId|
        target.contains(to) && to != me ==> #[trigger] writers.contains_key(to) && writers[to] > 0
}

/// Whether `sends` hands `msg` to one writer of each process of `target`
/// but this one: one send for each such process, none for another, each to
/// a writer that the process has.
pub open spec fn fanned_out(
    me: ProcessId,
    target: Set<ProcessId>,
    msg: MessageView,
    writers: Map<ProcessId, usize>,
    sends: Seq<EffectView>,
) -> bool {
    &&& sends.len() == target.remove(me).len()
    &&& forall|i: int|
        0 <= i < sends.len() ==> (#[trigger] sends[i] matches EffectView::ToWriter {
            to,
            writer,
            msg: sent,
        } && sent == msg && to != me && target.contains(to) && writers.contains_key(to) && writer
            < writers[to])
    &&& forall|i: int, j: int|
        0 <= i < j < sends.len() ==> (#[trigger] sends[i])->ToWriter_to != (
        #[trigger] sends[j])->ToWriter_to
}

/// Hands `msg` to a writer of `to`, picked at random among those it has.
pub fn send_to_writer(to: ProcessId, msg: Message, writers: &HashMap<ProcessId, usize>) -> (res:
    Result<Effect, DispatchError>)
    ensures
        match res {
            Ok(effect) => effect@ matches EffectView::ToWriter { to: sent_to, writer, msg: sent }
                && sent_to == to && sent == msg@ && writers@.contains_key(to) && writer
                < writers@[to],
            Err(error) => error == DispatchError::NoWriter(to) && !(writers@.contains_key(to)
                && writers@[to] > 0),
        },
{
    // find all writers
    match writers.get(&to) {
        Some(count) => {
            if *count > 0 {
                // pick a random one
                let writer = pick_below(*count);
                Ok(Effect::ToWriter { to, writer, msg })
            } else {
                Err(DispatchError::NoWriter(to))
            }
        },
        None => Err(DispatchError::NoWriter(to)),
    }
}

/// Hands `msg` to a writer of each process of `target` but this one, and
/// says whether this process is in `target`. Nothing is handed out if a
/// process of `target` has no writer.
pub fn fan_out(
    me: ProcessId,
    target: &HashSet<ProcessId>,
    msg: &Message,
    writers: &HashMap<ProcessId, usize>,
) -> (res: Result<(Vec<Effect>, bool), DispatchError>)
    ensures
        match res {
            Ok((sends, to_self)) => {
                &&& reachable(me, target@, writers@)
                &&& fanned_out(me, target@, msg@, writers@, effects_view(sends@))
                &&& to_self == target@.contains(me)
            },
            Err(error) => {
                &&& !reachable(me, target@, writers@)
                &&& error matches DispatchError::NoWriter(to)
                &&& target@.contains(to)
                &&& to != me
                &&& !(writers@.contains_key(to) && writers@[to] > 0)
            },
        },
{
    let destinations = members(target);
    let mut sends: Vec<Effect> = Vec::new();
    let mut to_self = false;
    let ghost mut others: Set<ProcessId> = Set::empty();
    let mut i: usize = 0;
    while i < destinations.len()
        invariant
            i <= destinations.len(),
            destinations@.to_set() == target@,
            destinations@.no_duplicates(),
            to_self == destinations@.subrange(0, i as int).contains(me),
            others.finite(),
            others == destinations@.subrange(0, i as int).to_set().remove(me),
            sends@.len() == others.len(),
            forall|k: int|
                0 <= k < sends@.len() ==> (#[trigger] effects_view(sends@)[k]
                    matches EffectView::ToWriter { to, writer, msg: sent } && sent == msg@ && to
                    != me && others.contains(to) && writers@.contains_key(to) && writer
                    < writers@[to]),
            forall|k: int, l: int|
                0 <= k < l < sends@.len() ==> (#[trigger] effects_view(sends@)[k])->ToWriter_to
                    != (#[trigger] effects_view(sends@)[l])->ToWriter_to,
            forall|k: int|
                0 <= k < i && (#[trigger] destinations@[k]) != me ==> writers@.contains_key(
                    destinations@[k],
                ) && writers@[destinations@[k]] > 0,
        decreases destinations.len() - i,
    {
        let destination = destinations[i];
        let ghost before = destinations@.subrange(0, i as int);
        let ghost after = destinations@.subrange(0, i + 1);
        proof {
            crate::seq_lemmas::lemma_prefix_to_set_step(destinations@, i as int);
            assert(after =~= before.push(destination));
            assert(!before.contains(destination)) by {
                if before.contains(destination) {
                    let k = choose|k: int| 0 <= k < before.len() && before[k] == destination;
                    assert(destinations@[k] == destinations@[i as int]);
                }
            }
        }
        if destination == me {
            to_self = true;
            proof {
                assert(after.to_set().remove(me) =~= others);
            }
        } else {
            // send message to correct writer
            match send_to_writer(destination, msg.clone(), writers) {
                Ok(effect) => {
                    assert(writers@.contains_key(destination) && writers@[destination] > 0);
                    let ghost sent = effects_view(sends@);
                    sends.push(effect);
                    proof {
                        let now = effects_view(sends@);
                        assert(now =~= sent.push(effect@));
                        assert(!others.contains(destination));
                        assert(after.to_set().remove(me) =~= others.insert(destination));
                        others = others.insert(destination);
                        assert forall|k: int, l: int| 0 <= k < l < now.len() implies (
                        #[trigger] now[k])->ToWriter_to != (#[trigger] now[l])->ToWriter_to by {
                            if l == now.len() - 1 {
                                assert(now[k] == sent[k]);
                            } else {
                                assert(now[k] == sent[k]);
                                assert(now[l] == sent[l]);
                            }
                        }
                    }
                },
                Err(error) => {
                    proof {
                        assert(destinations@.contains(destination));
                        assert(target@.contains(destination));
                    }
                    return Err(error);
                },
            }
        }
        proof {
            assert(after.contains(me) == (before.contains(me) || destination == me)) by {
                if before.contains(me) {
                    let k = choose|k: int| 0 <= k < before.len() && before[k] == me;
                    assert(after[k] == me);
                }
                if destination == me {
                    assert(after[i as int] == me);
                }
                if after.contains(me) {
                    let k = choose|k: int| 0 <= k < after.len() && after[k] == me;
                    if k < i {
                        assert(before[k] == me);
                    }
                }
            }
        }
        i = i + 1;
    }
    proof {
        crate::seq_lemmas::lemma_full_prefix(destinations@);
        assert forall|to: ProcessId| target@.contains(to) && to != me implies #[trigger]
            writers@.contains_key(to) && writers@[to] > 0 by {
            let k = choose|k: int| 0 <= k < destinations@.len() && destinations@[k] == to;
            assert(writers@.contains_key(destinations@[k]));
        }
    }
    Ok((sends, to_self))
}

/// How many more messages the handling of what an action carries can lead
/// to at the process that asked for it.
pub open spec fn action_rank(action: ActionView) -> nat {
    match action {
        ActionView::ToSend { msg, .. } => msg.rank() + 1,
        _ => 0,
    }
}

/// What a worker does with an action of its protocol. The worker `worker`,
/// among `workers`, of a process in state `pre` is asked for `action`: the
/// process ends in state `post`, `effects` are to be carried out in their
/// order, and `outcome` says whether the worker gave up.
///
/// Nothing is done for no action. A message to forward is handed to the
/// local workers. A message to send is handed to a writer of each process
/// it is for; if it is also for this process, the worker handles it at once
/// if it is its own to handle, and does with what the protocol then asks
/// for as it does with any action; else it hands it to the local workers.
/// The worker gives up, before it has done anything with the message, when
/// the message is for a process without writer, and when the protocol does
/// not handle a message of its own.
pub open spec fn dispatched<KC: KeyClocks>(
    pre: EPaxosView<KC>,
    worker: usize,
    workers: usize,
    writers: Map<ProcessId, usize>,
    action: ActionView,
    post: EPaxosView<KC>,
    effects: Seq<EffectView>,
    outcome: Result<(), DispatchError>,
) -> bool
    decreases action_rank(action),
{
    let me = pre.bp.process_id;
    match action {
        ActionView::Nothing => post == pre && effects.len() == 0 && outcome is Ok,
        ActionView::ToForward { msg } => post == pre && effects == seq![
            EffectView::ToWorkers { msg },
        ] && outcome is Ok,
        ActionView::ToSend { target, msg } => {
            if !reachable(me, target, writers) {
                &&& post == pre
                &&& effects.len() == 0
                &&& outcome matches Err(DispatchError::NoWriter(to))
                &&& target.contains(to)
                &&& to != me
                &&& !(writers.contains_key(to) && writers[to] > 0)
            } else {
                let fan = target.remove(me).len() as int;
                &&& fan <= effects.len()
                &&& fanned_out(me, target, msg, writers, effects.subrange(0, fan))
                &&& {
                    let rest = effects.subrange(fan, effects.len() as int);
                    if !target.contains(me) {
                        post == pre && rest.len() == 0 && outcome is Ok
                    } else if !spec_only_to_self(msg.index(), worker, workers) {
                        post == pre && rest == seq![EffectView::ToWorkers { msg }] && outcome is Ok
                    } else if !pre.handles(me, msg) {
                        post == pre && rest.len() == 0 && outcome == Err::<(), DispatchError>(
                            DispatchError::NotHandled,
                        )
                    } else {
                        exists|mid: EPaxosView<KC>, next: ActionView|
                            {
                                &&& #[trigger] pre.handled(me, msg, mid, next)
                                &&& action_rank(next) < action_rank(action)
                                &&& dispatched(
                                    mid,
                                    worker,
                                    workers,
                                    writers,
                                    next,
                                    post,
                                    rest,
                                    outcome,
                                )
                            }
                    }
                }
            }
        },
    }
}

/// Does what the protocol asks for with `action`: see `dispatched`.
pub fn handle_to_send<KC: KeyClocks>(
    worker: usize,
    workers: usize,
    process: &mut EPaxos<KC>,
    action: Action<Message>,
    writers: &HashMap<ProcessId, usize>,
) -> (res: (Vec<Effect>, Result<(), DispatchError>))
    requires
        old(process).wf(),
        workers > 0,
    ensures
        final(process).wf(),
        dispatched(
            old(process)@,
            worker,
            workers,
            writers@,
            action_view(action),
            final(process)@,
            effects_view(res.0@),
            res.1,
        ),
    decreases action_rank(action_view(action)),
{
    let process_id = process.id();
    match action {
        Action::Nothing => (Vec::new(), Ok(())),
        Action::ToForward { msg } => {
            let mut effects: Vec<Effect> = Vec::new();
            effects.push(Effect::ToWorkers { msg });
            assert(effects_view(effects@) =~= seq![EffectView::ToWorkers { msg: msg@ }]);
            (effects, Ok(()))
        },
        Action::ToSend { target, msg } => {
            // send to each process in target, except to self
            match fan_out(process_id, &target, &msg, writers) {
                Err(error) => (Vec::new(), Err(error)),
                Ok((sends, msg_to_self)) => {
                    let mut effects = sends;
                    let ghost fanned = effects_view(effects@);
                    let ghost fan = fanned.len() as int;
                    if !msg_to_self {
                        proof {
                            assert(fanned.subrange(0, fan) =~= fanned);
                        }
                        (effects, Ok(()))
                    } else if !only_to_self(&msg, worker, workers) {
                        // only handle message from self in this worker if the
                        // destination worker is us; this means that "messages
                        // to self are delivered immediately" is only true for
                        // self messages to the same worker
                        effects.push(Effect::ToWorkers { msg });
                        proof {
                            let all = effects_view(effects@);
                            assert(all =~= fanned.push(EffectView::ToWorkers { msg: msg@ }));
                            assert(all.subrange(0, fan) =~= fanned);
                            assert(all.subrange(fan, all.len() as int) =~= seq![
                                EffectView::ToWorkers { msg: msg@ },
                            ]);
                        }
                        (effects, Ok(()))
                    } else if !process.handles(process_id, &msg) {
                        proof {
                            assert(fanned.subrange(0, fan) =~= fanned);
                        }
                        (effects, Err(DispatchError::NotHandled))
                    } else {
                        // handle msg locally if self in `target`
                        let ghost handled = msg@;
                        let next = process.handle(process_id, msg);
                        let ghost mid = process@;
                        proof {
                            crate::protocol::laws::law_replies_come_to_an_end(
                                old(process)@,
                                process_id,
                                handled,
                                mid,
                                action_view(next),
                            );
                        }
                        let (rest, outcome) = handle_to_send(
                            worker,
                            workers,
                            process,
                            next,
                            writers,
                        );
                        let ghost rest_view = effects_view(rest@);
                        let mut rest = rest;
                        effects.append(&mut rest);
                        proof {
                            let all = effects_view(effects@);
                            assert(all =~= fanned + rest_view);
                            assert(all.subrange(0, fan) =~= fanned);
                            assert(all.subrange(fan, all.len() as int) =~= rest_view);
                            assert(old(process)@.handled(
                                process_id,
                                handled,
                                mid,
                                action_view(next),
                            ));
                        }
                        (effects, outcome)
                    }
                },
            }
        },
    }
}

/// What a worker is to do after a message of another process: the effects
/// to carry out, what is to be handed to the executors, and whether the
/// worker gave up.
pub struct Dispatch {
    /// What is to be written and forwarded, in this order.
    pub effects: Vec<Effect>,
    /// What is to be handed to the executors, and to the logger of
    /// executions if there is one, in this order.
    pub to_executors: Vec<GraphExecutionInfo>,
    /// Whether the worker gave up, and why.
    pub outcome: Result<(), DispatchError>,
}

/// Handles a message that a reader got from process `from`: the protocol
/// handles it, the worker does what the protocol asks for, and what the
/// protocol has for the executor is collected.
pub fn handle_from_processes<KC: KeyClocks>(
    worker: usize,
    workers: usize,
    from: ProcessId,
    msg: Message,
    process: &mut EPaxos<KC>,
    writers: &HashMap<ProcessId, usize>,
) -> (res: Dispatch)
    requires
        old(process).wf(),
        workers > 0,
    ensures
        final(process).wf(),
        final(process)@.to_executor.len() == 0,
        !old(process)@.handles(from, msg@) ==> {
            &&& res.outcome == Err::<(), DispatchError>(DispatchError::NotHandled)
            &&& res.effects@.len() == 0
            &&& queue_view(res.to_executors@) == old(process)@.to_executor
            &&& final(process)@ == (EPaxosView {
                to_executor: Seq::<GraphExecutionInfoView>::empty(),
                ..old(process)@
            })
        },
        old(process)@.handles(from, msg@) ==> exists|
            mid: EPaxosView<KC>,
            next: ActionView,
            last: EPaxosView<KC>,
        |
            {
                &&& #[trigger] old(process)@.handled(from, msg@, mid, next)
                &&& #[trigger] dispatched(
                    mid,
                    worker,
                    workers,
                    writers@,
                    next,
                    last,
                    effects_view(res.effects@),
                    res.outcome,
                )
                &&& queue_view(res.to_executors@) == last.to_executor
                &&& final(process)@ == (EPaxosView {
                    to_executor: Seq::<GraphExecutionInfoView>::empty(),
                    ..last
                })
            },
{
    if !process.handles(from, &msg) {
        let to_executors = process.to_executor();
        return Dispatch {
            effects: Vec::new(),
            to_executors,
            outcome: Err(DispatchError::NotHandled),
        };
    }
    // handle message in process

    let ghost received = msg@;
    let action = process.handle(from, msg);
    let ghost mid = process@;
    let ghost next = action_view(action);
    let (effects, outcome) = handle_to_send(worker, workers, process, action, writers);
    let ghost last = process@;

    // check if there's new execution info for the executor
    let to_executors = process.to_executor();
    proof {
        assert(old(process)@.handled(from, received, mid, next));
        assert(dispatched(
            mid,
            worker,
            workers,
            writers@,
            next,
            last,
            effects_view(effects@),
            outcome,
        ));
        assert(queue_view(to_executors@) == last.to_executor);
        assert(process@ == (EPaxosView {
            to_executor: Seq::<GraphExecutionInfoView>::empty(),
            ..last
        }));
    }
    let res = Dispatch { effects, to_executors, outcome };
    proof {
        assert(dispatched(
            mid,
            worker,
            workers,
            writers@,
            next,
            last,
            effects_view(res.effects@),
            res.outcome,
        ));
    }
    res
}

/// Handles a command that a client submitted: the protocol is told, and the
/// worker does what the protocol asks for. The worker gives up at once if
/// the process does not know the processes of the system, or has no dot
/// left for the command.
pub fn handle_from_client<KC: KeyClocks>(
    worker: usize,
    workers: usize,
    dot: Option<Dot>,
    cmd: ClientCommand,
    process: &mut EPaxos<KC>,
    writers: &HashMap<ProcessId, usize>,
) -> (res: (Vec<Effect>, Result<(), DispatchError>))
    requires
        old(process).wf(),
        workers > 0,
    ensures
        final(process).wf(),
        !old(process)@.submits(dot) ==> {
            &&& res.1 == Err::<(), DispatchError>(DispatchError::NotHandled)
            &&& res.0@.len() == 0
            &&& final(process)@ == old(process)@
        },
        old(process)@.submits(dot) ==> exists|mid: EPaxosView<KC>, next: ActionView|
            {
                &&& #[trigger] old(process)@.submitted(dot, cmd@, mid, next)
                &&& dispatched(
                    mid,
                    worker,
                    workers,
                    writers@,
                    next,
                    final(process)@,
                    effects_view(res.0@),
                    res.1,
                )
            },
{
    if !process.submits(&dot) {
        return (Vec::new(), Err(DispatchError::NotHandled));
    }
    // submit command in process

    let ghost submitted = cmd@;
    let action = process.submit(dot, cmd);
    let ghost mid = process@;
    let ghost next = action_view(action);
    let res = handle_to_send(worker, workers, process, action, writers);
    proof {
        assert(old(process)@.submitted(dot, submitted, mid, next));
    }
    res
}

} // verus!
