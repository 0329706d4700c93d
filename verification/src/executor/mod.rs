//! Executors: they are told about committed commands and run them once
//! their order is final.

pub mod graph;
pub mod table;

use crate::command::ClientCommand;
use crate::command::CommandResult;
use crate::config::Config;
use vstd::prelude::*;

verus! {

/// What the runtime asks of an executor.
pub trait Executor: Sized {
    /// What the executor is told about a committed command.
    type ExecutionInfo;

    /// The invariant of the executor.
    spec fn wf(&self) -> bool;

    /// Whether the executor takes `infos` in its state.
    spec fn takes(&self, infos: Seq<Self::ExecutionInfo>) -> bool;

    /// Creates the executor of a process with configuration `config`.
    fn new(config: &Config) -> (executor: Self)
        ensures
            executor.wf(),
    ;

    /// Announces a command that a client of this process has submitted: its
    /// result is to be handed out once it has run.
    fn register(&mut self, cmd: &ClientCommand)
        requires
            old(self).wf(),
            cmd.wf(),
        ensures
            final(self).wf(),
    ;

    /// Tells the executor about committed commands; returns the results of
    /// the registered commands that have run by now.
    fn handle(&mut self, infos: Vec<Self::ExecutionInfo>) -> (results: Vec<CommandResult>)
        requires
            old(self).wf(),
            old(self).takes(infos@),
        ensures
            final(self).wf(),
    ;

    /// Shows what the executor has measured. By default, nothing.
    fn show_metrics(&mut self)
        requires
            old(self).wf(),
        ensures
            final(self).wf(),
    {
    }
}

} // verus!
