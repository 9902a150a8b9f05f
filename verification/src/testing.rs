//! Builders of values for tests.

use vstd::prelude::*;

use crate::base::text::{decimal, decimal_string};
use crate::storage::log::entry::Entry;
use crate::storage::log::log_id::LogId;
use crate::storage::membership::NodeId;

verus! {

/// The log id of `index` in `term`.
pub fn log_id(term: u64, index: u64) -> (r: LogId)
    ensures
        r == (LogId { term, index }),
{
    LogId { term, index }
}

/// A blank entry at `index` in `term`.
pub fn blank_ent<D>(term: u64, index: u64) -> (r: Entry<D>)
    ensures
        r.log_id == (LogId { term, index }),
        r.payload@ == Seq::<D>::empty(),
{
    Entry::new_blank(LogId::new(term, index))
}

/// The node id that is the decimal rendering of `x`.
pub fn nid(x: u64) -> (r: NodeId)
    ensures
        r@ == decimal(x as nat),
{
    decimal_string(x)
}

} // verus!
