//! A log entry.

use vstd::prelude::*;

use crate::storage::log::log_id::LogId;

verus! {

/// A log entry: its id and the application commands it carries.
#[derive(Debug, Clone, PartialEq, Eq)]
pub struct Entry<D> {
    pub log_id: LogId,
    /// This entry's payload.
    pub payload: Vec<D>,
}

impl<D> Entry<D> {
    /// An entry with no payload.
    pub fn new_blank(log_id: LogId) -> (r: Entry<D>)
        ensures
            r.log_id == log_id,
            r.payload@ == Seq::<D>::empty(),
    {
        Entry { log_id, payload: Vec::new() }
    }

    pub fn get_log_id(&self) -> (r: &LogId)
        ensures
            *r == self.log_id,
    {
        &self.log_id
    }

    pub fn set_log_id(&mut self, log_id: &LogId)
        ensures
            final(self).log_id == *log_id,
            final(self).payload == old(self).payload,
    {
        self.log_id = *log_id;
    }
}

impl<D> Default for Entry<D> {
    fn default() -> (r: Entry<D>)
        ensures
            r.log_id == (LogId { term: 0, index: 0 }),
            r.payload@ == Seq::<D>::empty(),
    {
        Entry { log_id: LogId { term: 0, index: 0 }, payload: Vec::new() }
    }
}

} // verus!
