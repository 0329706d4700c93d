//! Flexible Paxos: phase 1 waits for `n - f` promises, phase 2 for `f + 1`
//! accepts.

pub mod multi;
pub mod single;
