//! The identity of a log entry and the order of log ids.

use vstd::prelude::*;

verus! {

/// The identity of a log entry: the term of the leader that proposed it and
/// its index in the storage. Log indexes are consecutive.
#[derive(Clone, Copy, Debug, Default, PartialEq, Eq, Structural, PartialOrd, Ord, Hash)]
pub struct LogId {
    pub term: u64,
    pub index: u64,
}

/// Log ids are ordered by term, then by index.
pub open spec fn log_id_le(a: LogId, b: LogId) -> bool {
    a.term < b.term || (a.term == b.term && a.index <= b.index)
}

pub open spec fn log_id_lt(a: LogId, b: LogId) -> bool {
    log_id_le(a, b) && a != b
}

/// The order of optional log ids: `None` comes before every log id.
pub open spec fn option_log_id_le(a: Option<LogId>, b: Option<LogId>) -> bool {
    match a {
        None => true,
        Some(x) => match b {
            None => false,
            Some(y) => log_id_le(x, y),
        },
    }
}

/// The greater of two optional log ids.
pub open spec fn option_log_id_max(a: Option<LogId>, b: Option<LogId>) -> Option<LogId> {
    if option_log_id_le(a, b) {
        b
    } else {
        a
    }
}

/// The order of log ids is a total order.
pub proof fn lemma_option_log_id_order(a: Option<LogId>, b: Option<LogId>, c: Option<LogId>)
    ensures
        option_log_id_le(a, a),
        option_log_id_le(a, b) || option_log_id_le(b, a),
        option_log_id_le(a, b) && option_log_id_le(b, a) ==> a == b,
        option_log_id_le(a, b) && option_log_id_le(b, c) ==> option_log_id_le(a, c),
{
}

impl LogId {
    /// Creates the id of the entry at `index` proposed in `term`.
    pub fn new(term: u64, index: u64) -> (r: LogId)
        ensures
            r == (LogId { term, index }),
    {
        LogId { term, index }
    }

    pub fn term(&self) -> (r: u64)
        ensures
            r == self.term,
    {
        self.term
    }

    /// The id rendered as `term.index`.
    pub fn display(&self) -> (s: String)
        ensures
            s@ == log_id_text(*self),
    {
        let mut s = crate::base::text::decimal_string(self.term);
        crate::base::text::push_char(&mut s, '.');
        crate::base::text::push_decimal(&mut s, self.index);
        s
    }
}

/// A log id rendered as `term.index`.
pub open spec fn log_id_text(l: LogId) -> Seq<char> {
    crate::base::text::decimal(l.term as nat) + seq!['.'] + crate::base::text::decimal(
        l.index as nat,
    )
}

/// An optional log id rendered as the id, or `None`.
pub open spec fn option_log_id_text(l: Option<LogId>) -> Seq<char> {
    match l {
        Some(x) => log_id_text(x),
        None => "None"@,
    }
}

/// An optional log id rendered as the id, or `None`.
pub fn display_option_log_id(l: &Option<LogId>) -> (s: String)
    ensures
        s@ == option_log_id_text(*l),
{
    match l {
        Some(x) => x.display(),
        None => String::from_str("None"),
    }
}

/// Whether `a` comes no later than `b`.
pub fn option_le(a: &Option<LogId>, b: &Option<LogId>) -> (r: bool)
    ensures
        r == option_log_id_le(*a, *b),
{
    match a {
        None => true,
        Some(x) => match b {
            None => false,
            Some(y) => x.term < y.term || (x.term == y.term && x.index <= y.index),
        },
    }
}

/// The greater of `a` and `b`.
pub fn option_max(a: Option<LogId>, b: Option<LogId>) -> (r: Option<LogId>)
    ensures
        r == option_log_id_max(a, b),
{
    if option_le(&a, &b) {
        b
    } else {
        a
    }
}

/// Information extracted from a log id or an optional log id.
pub trait LogIdOptionExt {
    /// The log index, if any.
    spec fn index_spec(&self) -> Option<u64>;

    /// The index that follows: 0 where there is no log id.
    spec fn next_index_spec(&self) -> int;

    /// The term that follows: 0 where there is no log id.
    spec fn next_term_spec(&self) -> int;

    /// Returns the log index if it is not a `None`.
    fn index(&self) -> (r: Option<u64>)
        ensures
            r == self.index_spec(),
    ;

    /// Returns the next log index. If self is `None`, it returns 0.
    fn next_index(&self) -> (r: u64)
        requires
            self.next_index_spec() <= u64::MAX,
        ensures
            r == self.next_index_spec(),
    ;

    /// Returns the next term. If self is `None`, it returns 0.
    fn next_term(&self) -> (r: u64)
        requires
            self.next_term_spec() <= u64::MAX,
        ensures
            r == self.next_term_spec(),
    ;
}

impl LogIdOptionExt for LogId {
    open spec fn index_spec(&self) -> Option<u64> {
        Some(self.index)
    }

    open spec fn next_index_spec(&self) -> int {
        self.index + 1
    }

    open spec fn next_term_spec(&self) -> int {
        self.term + 1
    }

    fn index(&self) -> (r: Option<u64>) {
        Some(self.index)
    }

    fn next_index(&self) -> (r: u64) {
        self.index + 1
    }

    fn next_term(&self) -> (r: u64) {
        self.term + 1
    }
}

impl LogIdOptionExt for Option<LogId> {
    open spec fn index_spec(&self) -> Option<u64> {
        match self {
            Some(x) => Some(x.index),
            None => None,
        }
    }

    open spec fn next_index_spec(&self) -> int {
        match self {
            Some(x) => x.index + 1,
            None => 0,
        }
    }

    open spec fn next_term_spec(&self) -> int {
        match self {
            Some(x) => x.term + 1,
            None => 0,
        }
    }

    fn index(&self) -> (r: Option<u64>) {
        match self {
            Some(x) => Some(x.index),
            None => None,
        }
    }

    fn next_index(&self) -> (r: u64) {
        match self {
            None => 0,
            Some(x) => x.index + 1,
        }
    }

    fn next_term(&self) -> (r: u64) {
        match self {
            None => 0,
            Some(x) => x.term + 1,
        }
    }
}

} // verus!
