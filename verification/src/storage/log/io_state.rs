//! The progress of a leader's log writes: what was submitted to the storage
//! and what the storage has confirmed.

use vstd::prelude::*;

use crate::storage::log::log_id::{option_log_id_le, LogId};

verus! {

/// The last submitted and the last flushed log id of a leader.
#[derive(Clone, Copy, Debug, PartialEq, Eq, Structural)]
pub struct IOState {
    pub(crate) submitted: Option<LogId>,
    pub(crate) flushed: Option<LogId>,
}

impl IOState {
    /// Nothing submitted and nothing flushed.
    pub fn new() -> (r: IOState)
        ensures
            r.submitted_id() is None,
            r.flushed_id() is None,
    {
        IOState { submitted: None, flushed: None }
    }

    /// The last submitted log id.
    pub closed spec fn submitted_id(&self) -> Option<LogId> {
        self.submitted
    }

    /// The last flushed log id.
    pub closed spec fn flushed_id(&self) -> Option<LogId> {
        self.flushed
    }

    /// Records that the write of `log_id` was submitted; submissions only move
    /// forward.
    pub fn submit(&mut self, log_id: LogId)
        requires
            option_log_id_le(old(self).submitted_id(), Some(log_id)),
        ensures
            final(self).submitted_id() == Some(log_id),
            final(self).flushed_id() == old(self).flushed_id(),
    {
        self.submitted = Some(log_id);
    }

    /// Records that `log_id` is flushed; flushes only move forward.
    pub fn flush(&mut self, log_id: LogId)
        requires
            option_log_id_le(old(self).flushed_id(), Some(log_id)),
        ensures
            final(self).flushed_id() == Some(log_id),
            final(self).submitted_id() == old(self).submitted_id(),
    {
        self.flushed = Some(log_id);
    }

    pub fn submitted(&self) -> (r: Option<&LogId>)
        ensures
            match r {
                Some(x) => self.submitted_id() == Some(*x),
                None => self.submitted_id() is None,
            },
    {
        match &self.submitted {
            Some(x) => Some(x),
            None => None,
        }
    }

    pub fn flushed(&self) -> (r: Option<&LogId>)
        ensures
            match r {
                Some(x) => self.flushed_id() == Some(*x),
                None => self.flushed_id() is None,
            },
    {
        match &self.flushed {
            Some(x) => Some(x),
            None => None,
        }
    }

    /// The last flushed log id, by value.
    pub fn last_flushed(&self) -> (r: Option<LogId>)
        ensures
            r == self.flushed_id(),
    {
        self.flushed
    }

    /// Whether every submitted write is flushed.
    pub fn is_idle(&self) -> (r: bool)
        ensures
            r == (self.submitted_id() == self.flushed_id()),
    {
        match (self.submitted, self.flushed) {
            (None, None) => true,
            (Some(a), Some(b)) => a.term == b.term && a.index == b.index,
            _ => false,
        }
    }
}

impl Default for IOState {
    fn default() -> (r: IOState)
        ensures
            r.submitted_id() is None,
            r.flushed_id() is None,
    {
        IOState::new()
    }
}

} // verus!
