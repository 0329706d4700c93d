//! What holds of every run of the leaderless protocol at one process,
//! stated over the model of the process and proved from its transitions.

use crate::clock::frontier_of;
use crate::id::is_process;
use crate::id::Dot;
use crate::id::ProcessId;
use crate::protocol::clocks::lemma_join_of_equal_clocks;
use crate::protocol::clocks::KeyClocks;
use crate::protocol::epaxos::ActionView;
use crate::protocol::epaxos::ConsensusValueView;
use crate::protocol::epaxos::EPaxosView;
use crate::protocol::epaxos::MessageView;
use crate::protocol::epaxos::Status;
use crate::protocol::gc::lemma_stable_is_committed_everywhere;
use crate::protocol::gc::GCTrackView;
use crate::protocol::info::in_ranges;
use vstd::prelude::*;

verus! {

/// Whatever a process handles, its invariant is kept. In particular, for
/// every dot, the acks gathered are never more than the fast quorum has
/// members besides the coordinator, and never hold an ack of the process
/// itself.
pub proof fn law_invariant_is_kept<KC: KeyClocks>(
    pre: EPaxosView<KC>,
    from: ProcessId,
    msg: MessageView,
    post: EPaxosView<KC>,
    action: ActionView,
    dot: Dot,
)
    requires
        pre.wf(),
        pre.handled(from, msg, post, action),
    ensures
        post.wf(),
        post.info_at(dot).quorum_clocks.participants.len() <= post.bp.fast_quorum_size - 1,
        !post.info_at(dot).quorum_clocks.participants.contains(post.bp.process_id),
{
    match msg {
        MessageView::MCollectAck { dot: acked, clock } => {
            let info = pre.info_at(acked);
            if from != pre.bp.process_id && info.status == Status::COLLECT {
                let gathered = info.quorum_clocks.reported(from, clock);
                assert(gathered.participants.finite());
            }
        },
        _ => {},
    }
    assert forall|d: Dot| #[trigger] post.infos.contains_key(d) implies {
        &&& post.infos[d].wf()
        &&& post.infos[d].synod.process_id == post.bp.process_id
        &&& post.infos[d].synod.f == post.f()
        &&& post.infos[d].quorum_clocks.size == post.bp.fast_quorum_size - 1
    } by {
        if pre.infos.contains_key(d) {
            assert(pre.infos[d].wf());
        }
    }
}

/// The status of a command never goes back: whatever a process handles but
/// the list of stable dots, which makes it forget commands, every command
/// is afterwards at least as far as it was.
pub proof fn law_status_never_decreases<KC: KeyClocks>(
    pre: EPaxosView<KC>,
    from: ProcessId,
    msg: MessageView,
    post: EPaxosView<KC>,
    action: ActionView,
    dot: Dot,
)
    requires
        pre.wf(),
        pre.handled(from, msg, post, action),
        !(msg is MStable),
    ensures
        pre.info_at(dot).status.rank() <= post.info_at(dot).status.rank(),
{
}

/// The list of stable dots makes a process forget commands and changes
/// nothing of what it keeps about the others.
pub proof fn law_stable_only_forgets<KC: KeyClocks>(
    pre: EPaxosView<KC>,
    from: ProcessId,
    stable: Seq<(ProcessId, u64, u64)>,
    post: EPaxosView<KC>,
    action: ActionView,
    dot: Dot,
)
    requires
        pre.wf(),
        pre.handled(from, MessageView::MStable { stable }, post, action),
    ensures
        post.infos.contains_key(dot) <==> pre.infos.contains_key(dot) && !in_ranges(stable, dot),
        post.infos.contains_key(dot) ==> post.infos[dot] == pre.infos[dot],
{
}

/// Submitting a command and collecting garbage change nothing of what is
/// kept about the commands.
pub proof fn law_only_messages_move_commands<KC: KeyClocks>(
    pre: EPaxosView<KC>,
    dot: Option<Dot>,
    cmd: crate::command::ClientCommandView,
    submitted: EPaxosView<KC>,
    action: ActionView,
    collected: EPaxosView<KC>,
    actions: Seq<ActionView>,
)
    requires
        pre.submitted(dot, cmd, submitted, action),
        pre.garbage_collected(collected, actions),
    ensures
        submitted.infos == pre.infos,
        collected.infos == pre.infos,
{
}

/// Once a command is committed, its value is final: whatever the process
/// handles next but the list of stable dots, the command stays committed
/// with the same value.
pub proof fn law_committed_value_is_final<KC: KeyClocks>(
    pre: EPaxosView<KC>,
    from: ProcessId,
    msg: MessageView,
    post: EPaxosView<KC>,
    action: ActionView,
    dot: Dot,
)
    requires
        pre.wf(),
        pre.handled(from, msg, post, action),
        !(msg is MStable),
        pre.info_at(dot).status == Status::COMMIT,
    ensures
        post.info_at(dot).status == Status::COMMIT,
        post.info_at(dot).synod.accepted.1 == pre.info_at(dot).synod.accepted.1,
{
    assert(pre.infos.contains_key(dot));
    assert(pre.infos[dot].wf());
}

/// Committing is idempotent. A process that has handled the commit of a dot
/// handles a second commit of the dot, whatever value it carries, as a
/// no-op: nothing is asked for, nothing more is queued for the executor, and
/// the state is what it was after the first commit.
pub proof fn law_second_commit_is_a_no_op<KC: KeyClocks>(
    pre: EPaxosView<KC>,
    from: ProcessId,
    dot: Dot,
    value: ConsensusValueView,
    once: EPaxosView<KC>,
    first: ActionView,
    from_again: ProcessId,
    value_again: ConsensusValueView,
    twice: EPaxosView<KC>,
    second: ActionView,
)
    requires
        pre.wf(),
        pre.handled(from, MessageView::MCommit { dot, value }, once, first),
        once.handled(from_again, MessageView::MCommit { dot, value: value_again }, twice, second),
    ensures
        twice == once,
        second == ActionView::Nothing,
        once.info_at(dot).status == Status::COMMIT,
        pre.info_at(dot).status != Status::COMMIT ==> once.info_at(dot).synod.accepted.1 == value,
{
    assert(once.infos.contains_key(dot));
    assert(once.infos.insert(dot, once.infos[dot]) =~= once.infos);
}

/// On the fast path, the clock that is committed is the clock that every
/// member of the fast quorum other than the coordinator has reported.
pub proof fn law_fast_path_commits_what_all_reported<KC: KeyClocks>(
    pre: EPaxosView<KC>,
    from: ProcessId,
    dot: Dot,
    clock: Map<ProcessId, u64>,
    post: EPaxosView<KC>,
    action: ActionView,
)
    requires
        pre.wf(),
        pre.handled(from, MessageView::MCollectAck { dot, clock }, post, action),
        action matches ActionView::ToSend { msg: MessageView::MCommit { .. }, .. },
    ensures
        action matches ActionView::ToSend { target, msg: MessageView::MCommit { dot: sent, value } }
            && {
            let gathered = pre.info_at(dot).quorum_clocks.reported(from, clock);
            &&& sent == dot
            &&& target == pre.bp.all()
            &&& value.clock == clock
            &&& gathered.clocks.len() == pre.bp.fast_quorum_size - 1
            &&& gathered.participants.contains(from)
            &&& !gathered.participants.contains(pre.bp.process_id)
            &&& forall|i: int|
                0 <= i < gathered.clocks.len() ==> #[trigger] gathered.clocks[i] == value.clock
        },
{
    let info = pre.info_at(dot);
    if pre.infos.contains_key(dot) {
        assert(pre.infos[dot].wf());
    }
    let gathered = info.quorum_clocks.reported(from, clock);
    assert(gathered.clocks.len() > 0);
    lemma_join_of_equal_clocks(gathered.clocks);
    assert(gathered.clocks.last() == clock);
}

/// A range of new stable dots holds only dots that are known to be
/// committed at every process.
proof fn lemma_new_stable_is_stable(track: GCTrackView, count: int, dot: Dot)
    requires
        track.wf(),
        0 <= count,
        in_ranges(track.new_stable_among(count), dot),
    ensures
        1 <= dot.sequence <= track.stable_frontier(dot.source),
    decreases count,
{
    let ranges = track.new_stable_among(count);
    let k = choose|k: int|
        0 <= k < ranges.len() && (#[trigger] ranges[k]).0 == dot.source && ranges[k].1
            <= dot.sequence <= ranges[k].2;
    if count > 0 {
        let before = track.new_stable_among(count - 1);
        if k < before.len() {
            assert(before[k] == ranges[k]);
            lemma_new_stable_is_stable(track, count - 1, dot);
        }
    }
}

/// Garbage collection is safe. A process forgets a command only when told
/// that its dot is stable; and a dot that a process declares stable is
/// committed at that process and was reported as committed by every other
/// process.
pub proof fn law_garbage_collection_is_safe<KC: KeyClocks>(
    pre: EPaxosView<KC>,
    post: EPaxosView<KC>,
    actions: Seq<ActionView>,
    dot: Dot,
    process: ProcessId,
)
    requires
        pre.wf(),
        pre.garbage_collected(post, actions),
        actions[1] matches ActionView::ToForward { msg: MessageView::MStable { stable } }
            && in_ranges(stable, dot),
        is_process(pre.n(), process),
    ensures
        pre.track.is_committed(dot),
        process != pre.bp.process_id ==> pre.track.reports.contains_key(process) && frontier_of(
            pre.track.reports[process],
            dot.source,
        ) >= dot.sequence,
{
    lemma_new_stable_is_stable(pre.track, pre.track.n as int, dot);
    lemma_stable_is_committed_everywhere(pre.track, dot.source, dot.sequence, process);
}

/// What a handler asks to send is nearer to the end of the life of a
/// command than what it handled: a process that handles its own messages
/// one after the other comes to an end.
pub proof fn law_replies_come_to_an_end<KC: KeyClocks>(
    pre: EPaxosView<KC>,
    from: ProcessId,
    msg: MessageView,
    post: EPaxosView<KC>,
    action: ActionView,
)
    requires
        pre.handled(from, msg, post, action),
    ensures
        action matches ActionView::ToSend { msg: reply, .. } ==> reply.rank() < msg.rank(),
        !(action is ToForward),
{
}

} // verus!
