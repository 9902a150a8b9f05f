//! The life of the task that runs a node, as seen by the handles that wait
//! for it to end.

use vstd::prelude::*;

use crate::errors::{same_fatal, Fatal};

verus! {

/// Where the task that runs a node is in its life. The task never returns
/// anything but an error, so a finished task holds the error it ended with.
#[derive(Debug)]
pub enum CoreState {
    /// The task is still running.
    Running,
    /// A handle is waiting for the task to end; others wait for that handle.
    Joining,
    /// The task has ended with this error.
    Done(Fatal),
}

/// What a handle that wants the task to end does next.
#[derive(Debug, PartialEq, Eq)]
pub enum JoinStep {
    /// Wait for the task itself, then record how it ended.
    Join,
    /// Another handle is joining: wait until it has recorded the end.
    Wait,
    /// The task has ended already.
    Finished,
}

/// How the task that ran a node ended.
#[derive(Debug)]
pub enum CoreTaskEnd {
    /// It returned this error.
    Returned(Fatal),
    /// It panicked.
    Panicked,
    /// It was cancelled.
    Cancelled,
}

/// The error a node's task ended with: what it returned, or `Panicked` for a
/// panic, or `Stopped` for a cancellation.
pub fn core_task_result(end: CoreTaskEnd) -> (r: Fatal)
    ensures
        match end {
            CoreTaskEnd::Returned(e) => r == e,
            CoreTaskEnd::Panicked => r == Fatal::Panicked,
            CoreTaskEnd::Cancelled => r == Fatal::Stopped,
        },
{
    match end {
        CoreTaskEnd::Returned(e) => e,
        CoreTaskEnd::Panicked => Fatal::Panicked,
        CoreTaskEnd::Cancelled => Fatal::Stopped,
    }
}

impl CoreState {
    /// Whether the task is still running.
    pub fn is_running(&self) -> (r: bool)
        ensures
            r <==> *self is Running,
    {
        match self {
            CoreState::Running => true,
            _ => false,
        }
    }

    /// The first step of waiting for the task to end: the first handle to
    /// come joins the task itself, later ones wait for it, and once the task
    /// has ended there is nothing to wait for.
    pub fn begin_join(&mut self) -> (r: JoinStep)
        ensures
            match *old(self) {
                CoreState::Running => *final(self) is Joining && r == JoinStep::Join,
                CoreState::Joining => *final(self) is Joining && r == JoinStep::Wait,
                CoreState::Done(e) => *final(self) == *old(self) && r == JoinStep::Finished,
            },
    {
        match self {
            CoreState::Running => {
                *self = CoreState::Joining;
                JoinStep::Join
            },
            CoreState::Joining => JoinStep::Wait,
            CoreState::Done(_) => JoinStep::Finished,
        }
    }

    /// Records how the joined task ended.
    pub fn finish_join(&mut self, end: CoreTaskEnd)
        requires
            *old(self) is Joining,
        ensures
            match end {
                CoreTaskEnd::Returned(e) => *final(self) == CoreState::Done(e),
                CoreTaskEnd::Panicked => *final(self) == CoreState::Done(Fatal::Panicked),
                CoreTaskEnd::Cancelled => *final(self) == CoreState::Done(Fatal::Stopped),
            },
    {
        *self = CoreState::Done(core_task_result(end));
    }

    /// The error the task ended with, once it has ended.
    pub fn stopped_error(&self) -> (r: Option<Fatal>)
        ensures
            match *self {
                CoreState::Done(e) => r matches Some(x) && same_fatal(x, e),
                _ => r is None,
            },
    {
        match self {
            CoreState::Done(e) => Some(e.duplicate()),
            _ => None,
        }
    }
}

} // verus!
