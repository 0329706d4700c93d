//! What a protocol asks its runtime to do.

use crate::id::ProcessId;
use crate::std_ext::clone_process_set;
use std::collections::HashSet;
use vstd::prelude::*;

verus! {

/// What a process asks for after a submission, a message or an event.
#[derive(Debug, PartialEq, Eq)]
pub enum Action<M> {
    /// Send `msg` to each process in `target`. A process that is its own
    /// target handles the message itself.
    ToSend { target: HashSet<ProcessId>, msg: M },
    /// Hand `msg` to the local workers, without going over the wire.
    ToForward { msg: M },
    /// Nothing to do.
    Nothing,
}

impl<M: Clone> Clone for Action<M> {
    fn clone(&self) -> (copy: Self)
        ensures
            match (*self, copy) {
                (
                    Action::ToSend { target, msg },
                    Action::ToSend { target: target_copy, msg: msg_copy },
                ) => target_copy@ == target@ && cloned(msg, msg_copy),
                (Action::ToForward { msg }, Action::ToForward { msg: msg_copy }) => cloned(
                    msg,
                    msg_copy,
                ),
                (Action::Nothing, Action::Nothing) => true,
                _ => false,
            },
    {
        match self {
            Action::ToSend { target, msg } => Action::ToSend {
                target: clone_process_set(target),
                msg: msg.clone(),
            },
            Action::ToForward { msg } => Action::ToForward { msg: msg.clone() },
            Action::Nothing => Action::Nothing,
        }
    }
}

} // verus!
