//! Replicated state-machine protocols: a leaderless, dependency-tracking
//! commit protocol, the Flexible Paxos building blocks it relies on, the
//! decision logic of the worker runtime that drives them, the votes table
//! that orders committed commands for execution, and the search for the
//! sets of regions in which a leaderless protocol pays off.
//!
//! Every type comes with a mathematical model, its view, and every function
//! with a contract over these models. What holds of every run is stated as
//! proof functions whose names begin with `law_`.

pub mod bote;
pub mod clock;
pub mod command;
pub mod config;
pub mod executor;
pub mod id;
pub mod protocol;
pub mod run;
pub mod seq_lemmas;
mod std_ext;
