//! The replication protocols and their building blocks.

pub mod action;
pub mod base;
pub mod clocks;
pub mod epaxos;
pub mod gc;
pub mod info;
pub mod laws;
pub mod synod;
pub mod votes;
