//! Votes: the clock values that processes spend on the keys of a command.

use crate::command::Key;
use crate::id::ProcessId;
use vstd::prelude::*;

verus! {

/// The votes of one process on one key: every clock value from `start` to
/// `end`, both included.
#[derive(Debug, Clone, Copy, PartialEq, Eq, Structural)]
pub struct VoteRange {
    /// The process that votes.
    pub by: ProcessId,
    /// The first clock value voted for.
    pub start: u64,
    /// The last clock value voted for.
    pub end: u64,
}

impl VoteRange {
    /// Whether the range holds a vote at least, and not the last value of
    /// `u64`, which no clock reaches.
    pub open spec fn wf(self) -> bool {
        self.start <= self.end < u64::MAX
    }

    /// The clock values voted for.
    pub open spec fn values(self) -> Set<u64> {
        Set::new(|value: u64| self.start <= value <= self.end)
    }

    /// The votes of process `by` from `start` to `end`.
    pub fn new(by: ProcessId, start: u64, end: u64) -> (range: VoteRange)
        requires
            start <= end,
        ensures
            range == (VoteRange { by, start, end }),
    {
        VoteRange { by, start, end }
    }

    /// The process that votes.
    pub fn voter(&self) -> (by: ProcessId)
        ensures
            by == self.by,
    {
        self.by
    }

    /// The first clock value voted for.
    pub fn start(&self) -> (start: u64)
        ensures
            start == self.start,
    {
        self.start
    }

    /// The last clock value voted for.
    pub fn end(&self) -> (end: u64)
        ensures
            end == self.end,
    {
        self.end
    }
}

/// The votes on a command: for each of its keys, in the order of the
/// command, the ranges voted on the key.
pub type Votes = Vec<(Key, Vec<VoteRange>)>;

/// Votes of one process that belong to no command: for each key, a range.
pub type ProcessVotes = Vec<(Key, VoteRange)>;

} // verus!
