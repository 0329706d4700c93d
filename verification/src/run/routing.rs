//! Routing of messages to the workers of a process. A message carries an
//! index made of a number of reserved workers and a number that picks a
//! worker among those that are not reserved.

use crate::id::Dot;
use vstd::prelude::*;

verus! {

/// The worker that handles garbage collection.
pub const GC_WORKER_INDEX: usize = 0;

/// The worker that handles what only a leader does.
pub const LEADER_WORKER_INDEX: usize = 1;

/// The number of workers kept for special purposes; the dots are spread
/// over the others.
pub const WORKERS_INDEXES_RESERVED: usize = 2;

/// The index of a message that goes to the worker `index`, among all
/// workers.
pub open spec fn spec_no_worker_index_reserve(index: usize) -> Option<(usize, usize)> {
    Some((0usize, index))
}

/// The index of a message that is about `dot`: the dots are spread, by
/// their sequence number, over the workers that are not reserved.
pub open spec fn spec_dot_worker_index_reserve(dot: Dot) -> Option<(usize, usize)> {
    Some((WORKERS_INDEXES_RESERVED, dot.sequence as usize))
}

/// The worker, among `workers`, that an index leads to. With no more
/// workers than are reserved, nothing is reserved.
pub open spec fn spec_worker_index(reserve: usize, index: usize, workers: usize) -> int
    recommends
        workers > 0,
{
    if reserve < workers {
        reserve + (index as int) % ((workers - reserve) as int)
    } else {
        (index as int) % (workers as int)
    }
}

/// The index of a message that goes to the worker `index`, among all
/// workers.
#[verifier::when_used_as_spec(spec_no_worker_index_reserve)]
pub fn no_worker_index_reserve(index: usize) -> (res: Option<(usize, usize)>)
    ensures
        res == spec_no_worker_index_reserve(index),
{
    Some((0, index))
}

/// The index of a message that is about `dot`. It depends on the dot
/// alone: whoever computes it, and whenever, a dot leads to the same
/// worker.
pub fn dot_worker_index_reserve(dot: &Dot) -> (res: Option<(usize, usize)>)
    ensures
        res == spec_dot_worker_index_reserve(*dot),
{
    let index = #[verifier::truncate] (dot.sequence as usize);
    Some((WORKERS_INDEXES_RESERVED, index))
}

/// The worker, among `workers`, that an index leads to.
pub fn worker_index(reserve: usize, index: usize, workers: usize) -> (worker: usize)
    requires
        workers > 0,
    ensures
        worker == spec_worker_index(reserve, index, workers),
        worker < workers,
        reserve < workers ==> worker >= reserve,
{
    if reserve < workers {
        reserve + index % (workers - reserve)
    } else {
        index % workers
    }
}

/// The worker that handles what is about `dot`, among `workers`.
pub open spec fn spec_dot_worker(dot: Dot, workers: usize) -> int
    recommends
        workers > 0,
{
    spec_worker_index(WORKERS_INDEXES_RESERVED, dot.sequence as usize, workers)
}

/// Routing is a function of the dot: two messages about the same dot lead
/// to the same worker, one of the workers there are, whatever the messages
/// and whichever is routed first.
pub proof fn law_dot_is_pinned_to_one_worker(a: Dot, b: Dot, workers: usize)
    requires
        workers > 0,
        a == b,
    ensures
        spec_dot_worker(a, workers) == spec_dot_worker(b, workers),
        0 <= spec_dot_worker(a, workers) < workers,
        spec_dot_worker_index_reserve(a).is_some(),
{
}

} // verus!
