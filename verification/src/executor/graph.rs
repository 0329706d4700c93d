//! What a dependency-graph executor is told about a committed command.

use crate::clock::VClock;
use crate::command::ClientCommand;
use crate::command::ClientCommandView;
use crate::id::Dot;
use crate::id::ProcessId;
use vstd::prelude::*;

verus! {

/// A committed command, with its dot and the clock of what it depends on.
#[derive(Debug, PartialEq, Eq)]
pub struct GraphExecutionInfo {
    pub dot: Dot,
    pub cmd: ClientCommand,
    pub clock: VClock,
}

/// Mathematical model of a `GraphExecutionInfo`.
pub struct GraphExecutionInfoView {
    pub dot: Dot,
    pub cmd: ClientCommandView,
    pub clock: Map<ProcessId, u64>,
}

impl View for GraphExecutionInfo {
    type V = GraphExecutionInfoView;

    open spec fn view(&self) -> GraphExecutionInfoView {
        GraphExecutionInfoView { dot: self.dot, cmd: self.cmd@, clock: self.clock@ }
    }
}

impl Clone for GraphExecutionInfo {
    fn clone(&self) -> (copy: Self)
        ensures
            copy@ == self@,
    {
        GraphExecutionInfo { dot: self.dot, cmd: self.cmd.clone(), clock: self.clock.clone() }
    }
}

impl GraphExecutionInfo {
    /// What the executor is told about the command `cmd` committed under
    /// `dot` with dependencies `clock`.
    pub fn new(dot: Dot, cmd: ClientCommand, clock: VClock) -> (info: Self)
        ensures
            info@ == (GraphExecutionInfoView { dot, cmd: cmd@, clock: clock@ }),
    {
        GraphExecutionInfo { dot, cmd, clock }
    }
}

} // verus!
