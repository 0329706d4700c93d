//! The decisions of the runtime that drives a protocol: to which worker a
//! message goes, what a worker does with what its protocol asks for, and
//! how messages are framed on a connection.

pub mod frame;
pub mod routing;
pub mod task;
pub mod worker;
