//! The decisions of the tasks that run beside the workers: which
//! connections write to which process, what a writer does with what reaches
//! it, what a reader does with what it reads, and how a worker chooses
//! between the messages of other processes and the commands of clients.

use crate::id::ProcessId;
use std::collections::HashMap;
use vstd::prelude::*;

verus! {

broadcast use vstd::std_specs::hash::group_hash_axioms;

/// The positions, among the first `count` of `peers`, of the connections to
/// process `to`, in increasing order.
pub open spec fn positions_of(peers: Seq<ProcessId>, to: ProcessId, count: int) -> Seq<usize>
    decreases count,
{
    if count <= 0 {
        Seq::empty()
    } else if peers[count - 1] == to {
        positions_of(peers, to, count - 1).push((count - 1) as usize)
    } else {
        positions_of(peers, to, count - 1)
    }
}

/// The connections of each process among the first `count` of `peers`.
pub open spec fn writers_among(peers: Seq<ProcessId>, count: int) -> Map<ProcessId, Seq<usize>> {
    Map::new(
        |to: ProcessId| peers.subrange(0, count).contains(to),
        |to: ProcessId| positions_of(peers, to, count),
    )
}

/// The model of the writers of each process.
pub open spec fn writers_view(writers: Map<ProcessId, Vec<usize>>) -> Map<ProcessId, Seq<usize>> {
    Map::new(|to: ProcessId| writers.contains_key(to), |to: ProcessId| writers[to]@)
}

/// Groups the outgoing connections by the process they lead to. The
/// connection at position `i` leads to process `peers[i]`; each process gets
/// the positions of its connections, in increasing order. There must be
/// connections to exactly `n` processes: if not, there is no result.
pub fn start_writers(n: usize, peers: &Vec<ProcessId>) -> (res: Option<
    HashMap<ProcessId, Vec<usize>>,
>)
    ensures
        match res {
            Some(writers) => {
                &&& peers@.to_set().len() == n
                &&& writers_view(writers@) == writers_among(peers@, peers@.len() as int)
            },
            None => peers@.to_set().len() != n,
        },
{
    // mapping from process id to the connections that write to it
    let mut writers: HashMap<ProcessId, Vec<usize>> = HashMap::new();
    let mut i: usize = 0;
    assert(writers_view(writers@) =~= writers_among(peers@, 0));
    while i < peers.len()
        invariant
            i <= peers.len(),
            writers_view(writers@) == writers_among(peers@, i as int),
        decreases peers.len() - i,
    {
        let to = peers[i];
        let ghost before = writers@;
        let mut connections = match writers.remove(&to) {
            Some(connections) => connections,
            None => Vec::new(),
        };
        proof {
            assert(writers_view(before).contains_key(to) == before.contains_key(to));
            if before.contains_key(to) {
                assert(writers_view(before)[to] == before[to]@);
            } else {
                assert(!peers@.subrange(0, i as int).contains(to));
                lemma_no_position(peers@, to, i as int);
            }
            assert(connections@ == positions_of(peers@, to, i as int));
        }
        connections.push(i);
        writers.insert(to, connections);
        proof {
            let shorter = peers@.subrange(0, i as int);
            let longer = peers@.subrange(0, i + 1);
            assert(longer =~= shorter.push(to));
            assert forall|p: ProcessId| longer.contains(p) == (shorter.contains(p) || p == to) by {
                if shorter.contains(p) {
                    let k = choose|k: int| 0 <= k < shorter.len() && shorter[k] == p;
                    assert(longer[k] == p);
                }
                if p == to {
                    assert(longer[i as int] == p);
                }
                if longer.contains(p) {
                    let k = choose|k: int| 0 <= k < longer.len() && longer[k] == p;
                    if k < i {
                        assert(shorter[k] == p);
                    }
                }
            }
            assert(writers_view(writers@) =~= writers_among(peers@, i + 1)) by {
                assert forall|p: ProcessId| #[trigger]
                    writers_view(writers@).contains_key(p) implies writers_view(writers@)[p]
                    == writers_among(peers@, i + 1)[p] by {
                    assert(peers@[i as int] == to);
                    if p != to {
                        assert(before.contains_key(p));
                        assert(writers_view(before).contains_key(p));
                        assert(writers_view(before)[p] == before[p]@);
                        assert(writers_among(peers@, i as int)[p] == positions_of(
                            peers@,
                            p,
                            i as int,
                        ));
                        assert(positions_of(peers@, p, i + 1) == positions_of(peers@, p, i as int));
                    } else {
                        assert(positions_of(peers@, to, i + 1) == positions_of(
                            peers@,
                            to,
                            i as int,
                        ).push(i));
                    }
                    assert(longer.contains(p));
                }
                assert forall|p: ProcessId|
                    writers_view(writers@).contains_key(p) == writers_among(
                        peers@,
                        i + 1,
                    ).contains_key(p) by {
                    if p != to {
                        assert(writers_view(before).contains_key(p) == shorter.contains(p));
                    }
                }
            }
        }
        i = i + 1;
    }
    proof {
        crate::seq_lemmas::lemma_full_prefix(peers@);
        assert(writers@.dom() =~= peers@.to_set());
    }
    // check `writers` size
    if writers.len() == n {
        Some(writers)
    } else {
        None
    }
}

/// A process that is not among the first `count` peers has no connection
/// there.
proof fn lemma_no_position(peers: Seq<ProcessId>, to: ProcessId, count: int)
    requires
        0 <= count <= peers.len(),
        !peers.subrange(0, count).contains(to),
    ensures
        positions_of(peers, to, count) == Seq::<usize>::empty(),
    decreases count,
{
    if count > 0 {
        let shorter = peers.subrange(0, count - 1);
        let longer = peers.subrange(0, count);
        assert(longer[count - 1] != to);
        if shorter.contains(to) {
            let k = choose|k: int| 0 <= k < shorter.len() && shorter[k] == to;
            assert(longer[k] == to);
        }
        lemma_no_position(peers, to, count - 1);
    }
}

/// The number of connections of each process.
pub fn writer_counts(writers: &HashMap<ProcessId, Vec<usize>>, peers: &Vec<ProcessId>) -> (counts:
    HashMap<ProcessId, usize>)
    ensures
        forall|to: ProcessId|
            #[trigger] counts@.contains_key(to) <==> peers@.contains(to) && writers@.contains_key(
                to,
            ),
        forall|to: ProcessId| #[trigger]
            counts@.contains_key(to) ==> counts@[to] == writers@[to]@.len(),
{
    let mut counts: HashMap<ProcessId, usize> = HashMap::new();
    let mut i: usize = 0;
    while i < peers.len()
        invariant
            i <= peers.len(),
            forall|to: ProcessId|
                #[trigger] counts@.contains_key(to) <==> peers@.subrange(0, i as int).contains(to)
                    && writers@.contains_key(to),
            forall|to: ProcessId| #[trigger]
                counts@.contains_key(to) ==> counts@[to] == writers@[to]@.len(),
        decreases peers.len() - i,
    {
        let to = peers[i];
        proof {
            let shorter = peers@.subrange(0, i as int);
            let longer = peers@.subrange(0, i + 1);
            assert(longer =~= shorter.push(to));
            assert forall|p: ProcessId| longer.contains(p) == (shorter.contains(p) || p == to) by {
                if shorter.contains(p) {
                    let k = choose|k: int| 0 <= k < shorter.len() && shorter[k] == p;
                    assert(longer[k] == p);
                }
                if p == to {
                    assert(longer[i as int] == p);
                }
                if longer.contains(p) {
                    let k = choose|k: int| 0 <= k < longer.len() && longer[k] == p;
                    if k < i {
                        assert(shorter[k] == p);
                    }
                }
            }
        }
        match writers.get(&to) {
            Some(connections) => {
                counts.insert(to, connections.len());
            },
            None => {},
        }
        i = i + 1;
    }
    proof {
        crate::seq_lemmas::lemma_full_prefix(peers@);
    }
    counts
}

/// The number of connections that a process opens to, and gets from, `n`
/// processes with `multiplexing` connections to each; none if that is more
/// than can be counted.
pub fn connections_expected(n: usize, multiplexing: usize) -> (count: Option<usize>)
    ensures
        match count {
            Some(count) => count == n * multiplexing,
            None => n * multiplexing > usize::MAX,
        },
{
    n.checked_mul(multiplexing)
}

/// What is done after an attempt to connect has failed.
#[derive(Debug, Clone, Copy, PartialEq, Eq, Structural)]
pub enum ConnectAction {
    /// Wait and try again.
    Retry,
    /// Give up: the process cannot start.
    GiveUp,
}

/// What is done after the attempt number `failed` to connect to a process
/// has failed, when `connect_retries` attempts are allowed: another attempt
/// is made while some are left.
pub fn after_failed_connect(failed: usize, connect_retries: usize) -> (action: ConnectAction)
    ensures
        action == if failed < connect_retries {
            ConnectAction::Retry
        } else {
            ConnectAction::GiveUp
        },
{
    if failed < connect_retries {
        ConnectAction::Retry
    } else {
        ConnectAction::GiveUp
    }
}

/// What reaches a writer.
#[derive(Debug, Clone, Copy, PartialEq, Eq, Structural)]
pub enum WriterEvent {
    /// A message to write.
    Message,
    /// The flush timer ticked.
    Tick,
    /// The channel from the workers is closed.
    Closed,
}

/// What a writer does.
#[derive(Debug, Clone, Copy, PartialEq, Eq, Structural)]
pub enum WriterAction {
    /// Write the message and leave it in the buffers.
    Write,
    /// Write the message and flush the connection.
    Send,
    /// Flush the connection.
    Flush,
    /// Report that the channel is closed, and end.
    Stop,
}

/// What a writer does with what reaches it. With a flush interval, writes
/// stay in the buffers until the timer ticks; without, each write is
/// flushed, and there is no timer. A writer ends when nothing can reach it
/// any more.
pub open spec fn spec_writer_step(tcp_flush_interval: Option<usize>, event: WriterEvent)
    -> WriterAction {
    match event {
        WriterEvent::Message => if tcp_flush_interval.is_some() {
            WriterAction::Write
        } else {
            WriterAction::Send
        },
        WriterEvent::Tick => WriterAction::Flush,
        WriterEvent::Closed => WriterAction::Stop,
    }
}

/// What a writer does with what reaches it.
#[verifier::when_used_as_spec(spec_writer_step)]
pub fn writer_step(tcp_flush_interval: Option<usize>, event: WriterEvent) -> (action: WriterAction)
    ensures
        action == spec_writer_step(tcp_flush_interval, event),
{
    match event {
        WriterEvent::Message => {
            if tcp_flush_interval.is_some() {
                // connection write *doesn't* flush
                WriterAction::Write
            } else {
                // connection write *does* flush
                WriterAction::Send
            }
        },
        WriterEvent::Tick => {
            // flush socket
            WriterAction::Flush
        },
        WriterEvent::Closed => WriterAction::Stop,
    }
}

/// What reaches a reader.
#[derive(Debug, Clone, Copy, PartialEq, Eq, Structural)]
pub enum ReaderEvent {
    /// A message was read and decoded.
    Message,
    /// Nothing could be read, or what was read could not be decoded.
    Failed,
    /// The channel to the workers is closed.
    Closed,
}

/// What a reader does.
#[derive(Debug, Clone, Copy, PartialEq, Eq, Structural)]
pub enum ReaderAction {
    /// Hand the message, with the process it came from, to the worker it
    /// belongs to.
    Forward,
    /// Report the failure and go on reading.
    Report,
    /// Report that the channel is closed, and end.
    Stop,
}

/// What a reader does with what reaches it: a message that is lost does not
/// stop it, a closed channel does.
pub fn reader_step(event: ReaderEvent) -> (action: ReaderAction)
    ensures
        action == match event {
            ReaderEvent::Message => ReaderAction::Forward,
            ReaderEvent::Failed => ReaderAction::Report,
            ReaderEvent::Closed => ReaderAction::Stop,
        },
{
    match event {
        ReaderEvent::Message => ReaderAction::Forward,
        ReaderEvent::Failed => ReaderAction::Report,
        ReaderEvent::Closed => ReaderAction::Stop,
    }
}

/// How a worker chooses between what its readers and what its clients have
/// for it.
#[derive(Debug, Clone, Copy, PartialEq, Eq, Structural)]
pub enum Selection {
    /// The messages of other processes come first: commands under way are
    /// brought to an end before new ones are let in.
    Biased,
    /// Neither comes first.
    Fair,
}

/// How the worker of a protocol chooses: a protocol without leader has its
/// workers favour the messages of other processes.
pub fn selection(leaderless: bool) -> (selection: Selection)
    ensures
        selection == if leaderless {
            Selection::Biased
        } else {
            Selection::Fair
        },
{
    // start a biased loop if protocol leaderless, and unbiased otherwise
    if leaderless {
        Selection::Biased
    } else {
        Selection::Fair
    }
}

/// Where what a worker handles comes from.
#[derive(Debug, Clone, Copy, PartialEq, Eq, Structural)]
pub enum Source {
    Readers,
    Clients,
}

/// Which source a worker serves next, given which have something for it
/// and which was served last; none if neither has anything. A biased
/// worker serves its readers whenever they have something. A fair worker
/// serves the source that was not served last when both have something.
pub fn next_source(selection: Selection, readers: bool, clients: bool, last: Source) -> (next:
    Option<Source>)
    ensures
        next == if readers && clients {
            match selection {
                Selection::Biased => Some(Source::Readers),
                Selection::Fair => match last {
                    Source::Readers => Some(Source::Clients),
                    Source::Clients => Some(Source::Readers),
                },
            }
        } else if readers {
            Some(Source::Readers)
        } else if clients {
            Some(Source::Clients)
        } else {
            None
        },
{
    if readers && clients {
        match selection {
            // prioritize messages about ongoing commands
            Selection::Biased => Some(Source::Readers),
            Selection::Fair => match last {
                Source::Readers => Some(Source::Clients),
                Source::Clients => Some(Source::Readers),
            },
        }
    } else if readers {
        Some(Source::Readers)
    } else if clients {
        Some(Source::Clients)
    } else {
        None
    }
}

} // verus!
