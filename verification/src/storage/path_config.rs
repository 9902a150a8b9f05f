//! Where each piece of state lives in the shared storage.

use vstd::prelude::*;

use crate::base::text::{
    has_prefix, lemma_seq_lt_append_at_difference, lemma_seq_lt_asymmetric,
    lemma_seq_lt_irreflexive, lemma_seq_lt_prepend, push_str, seq_lt,
};
use crate::storage::log::log_index::{
    lemma_encoding_difference, lemma_ordered_encoding_order, ordered_encoding, LogIndex,
};

verus! {

/// The names of the storage objects.
pub struct PathConfig;

/// The directory of log entries.
pub open spec fn log_prefix_path() -> Seq<char> {
    "/log/"@
}

/// The suffix of the name of a log entry.
pub open spec fn log_entry_suffix() -> Seq<char> {
    ".entry"@
}

/// The name of the entry at `index`.
pub open spec fn log_entry_path(index: u64) -> Seq<char> {
    log_prefix_path() + ordered_encoding(index) + log_entry_suffix()
}

impl PathConfig {
    /// The directory under which log entries are stored.
    pub fn log_prefix() -> (r: &'static str)
        ensures
            r@ == log_prefix_path(),
    {
        "/log/"
    }

    /// The name of the entry at `index`: `/log/<ordered encoding>.entry`.
    pub fn log_entry(index: u64) -> (r: String)
        ensures
            r@ == log_entry_path(index),
    {
        let mut s = String::from_str("/log/");
        let enc = LogIndex(index).ordered_encode();
        push_str(&mut s, enc.as_str());
        push_str(&mut s, ".entry");
        s
    }

    /// The name under which the membership config is stored.
    pub fn membership_config() -> (r: String)
        ensures
            r@ == "/meta/membership_config.json"@,
    {
        String::from_str("/meta/membership_config.json")
    }

    /// The name under which the last log path is recorded.
    pub fn last_log_path() -> (r: String)
        ensures
            r@ == "/meta/last_log_path.json"@,
    {
        String::from_str("/meta/last_log_path.json")
    }

    /// The name under which the last purged log path is recorded.
    pub fn last_purged_log_path() -> (r: String)
        ensures
            r@ == "/meta/last_purged_log_path.json"@,
    {
        String::from_str("/meta/last_purged_log_path.json")
    }
}

/// Every entry name lies under the log directory, and entry names are in the
/// order of their indexes: listing the log directory in name order lists the
/// entries in index order.
pub proof fn lemma_log_entry_path_order(i: u64, j: u64)
    ensures
        has_prefix(log_entry_path(i), log_prefix_path()),
        seq_lt(log_entry_path(i), log_entry_path(j)) <==> i < j,
{
    let p = log_prefix_path();
    let s = log_entry_suffix();
    let ei = ordered_encoding(i);
    let ej = ordered_encoding(j);
    assert(log_entry_path(i) =~= p + (ei + s));
    assert(log_entry_path(j) =~= p + (ej + s));
    assert(log_entry_path(i).subrange(0, p.len() as int) =~= p);
    lemma_seq_lt_prepend(p, ei + s, ej + s);
    lemma_ordered_encoding_order(i, j);
    if i == j {
        lemma_seq_lt_irreflexive(ei + s);
    } else {
        let k = lemma_encoding_difference(i, j);
        lemma_seq_lt_append_at_difference(ei, ej, s, s, k);
        if j < i {
            lemma_ordered_encoding_order(j, i);
            lemma_seq_lt_asymmetric(ej, ei);
        }
    }
}

} // verus!
