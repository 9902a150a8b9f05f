//! A single metric to observe, and how the metrics compare with it.

use vstd::prelude::*;

use crate::base::text::{decimal, decimal_string, Relation};
use crate::metrics::metrics::Metrics;
use crate::storage::vote::{option_vote_ge, option_vote_text, relate_option, vote_opt_view, Vote};

verus! {

/// A metric entry of a node, used to specify which metric to observe.
#[derive(Debug)]
pub enum Metric {
    Term(u64),
    Vote(Option<Vote>),
    LastLogIndex(Option<u64>),
}

/// The order of optional numbers: none is below every number.
pub open spec fn option_u64_ge(a: Option<u64>, b: Option<u64>) -> bool {
    match b {
        None => true,
        Some(y) => match a {
            Some(x) => x >= y,
            None => false,
        },
    }
}

/// The term of the vote in the metrics, if any.
pub open spec fn metrics_term(m: Metrics) -> Option<u64> {
    match m.vote {
        Some(v) => Some(v.term),
        None => None,
    }
}

/// The index of the committed log id in the metrics, if any.
pub open spec fn metrics_log_index(m: Metrics) -> Option<u64> {
    match m.committed {
        Some(l) => Some(l.index),
        None => None,
    }
}

/// The metrics show exactly the value of `metric`.
pub open spec fn metrics_eq(m: Metrics, metric: Metric) -> bool {
    match metric {
        Metric::Term(v) => metrics_term(m) == Some(v),
        Metric::Vote(v) => vote_opt_view(m.vote) == vote_opt_view(v),
        Metric::LastLogIndex(v) => metrics_log_index(m) == v,
    }
}

/// The metrics show at least the value of `metric`.
pub open spec fn metrics_ge(m: Metrics, metric: Metric) -> bool {
    match metric {
        Metric::Term(v) => option_u64_ge(metrics_term(m), Some(v)),
        Metric::Vote(v) => option_vote_ge(vote_opt_view(m.vote), vote_opt_view(v)),
        Metric::LastLogIndex(v) => option_u64_ge(metrics_log_index(m), v),
    }
}

/// The name of a metric.
pub open spec fn metric_name_text(m: Metric) -> Seq<char> {
    match m {
        Metric::Term(_) => "term"@,
        Metric::Vote(_) => "vote"@,
        Metric::LastLogIndex(_) => "last_log_index"@,
    }
}

/// The value of a metric as text; an absent value is `None`.
pub open spec fn metric_value_text(m: Metric) -> Seq<char> {
    match m {
        Metric::Term(v) => decimal(v as nat),
        Metric::Vote(v) => option_vote_text(vote_opt_view(v)),
        Metric::LastLogIndex(Some(i)) => decimal(i as nat),
        Metric::LastLogIndex(None) => "None"@,
    }
}

/// A condition "at least" on a metric is met exactly when the metrics show
/// a value not below the awaited one, the bound included: a term at least
/// `v`, a last log index at least `i` (any metrics for `None`), a vote at
/// least the awaited vote. Metrics that show exactly the awaited value meet
/// it, and meeting a bound meets every lower bound.
pub proof fn lemma_at_least_is_inclusive(m: Metrics, metric: Metric, w: u64)
    ensures
        metrics_eq(m, metric) ==> metrics_ge(m, metric),
        metrics_ge(m, Metric::Term(w)) <==> (m.vote matches Some(x) && x.term >= w),
        metrics_ge(m, Metric::LastLogIndex(Some(w))) <==> (m.committed matches Some(l) && l.index
            >= w),
        metrics_ge(m, Metric::LastLogIndex(None)),
        match metric {
            Metric::Term(v) => metrics_ge(m, metric) && w <= v ==> metrics_ge(m, Metric::Term(w)),
            Metric::LastLogIndex(Some(i)) => metrics_ge(m, metric) && w <= i ==> metrics_ge(
                m,
                Metric::LastLogIndex(Some(w)),
            ),
            _ => true,
        },
{
    match metric {
        Metric::Vote(v) => {
            crate::storage::vote::lemma_option_vote_order(
                vote_opt_view(m.vote),
                vote_opt_view(v),
                vote_opt_view(v),
            );
        },
        _ => {},
    }
}

/// Whether `a` is at least `b`, where `None` is below every number.
pub fn option_u64_is_ge(a: Option<u64>, b: Option<u64>) -> (r: bool)
    ensures
        r == option_u64_ge(a, b),
{
    match b {
        None => true,
        Some(y) => match a {
            Some(x) => x >= y,
            None => false,
        },
    }
}

impl Metric {
    /// The name of the metric.
    pub fn name(&self) -> (r: &'static str)
        ensures
            r@ == metric_name_text(*self),
    {
        match self {
            Metric::Term(_) => "term",
            Metric::Vote(_) => "vote",
            Metric::LastLogIndex(_) => "last_log_index",
        }
    }

    /// The value of the metric as text; an absent value is `None`.
    pub fn value(&self) -> (r: String)
        ensures
            r@ == metric_value_text(*self),
    {
        match self {
            Metric::Term(v) => decimal_string(*v),
            Metric::Vote(v) => crate::storage::vote::display_option_vote(v),
            Metric::LastLogIndex(Some(i)) => decimal_string(*i),
            Metric::LastLogIndex(None) => String::from_str("None"),
        }
    }
}

impl Metrics {
    /// Whether the metrics show exactly the value of `metric`.
    pub fn metric_eq(&self, metric: &Metric) -> (r: bool)
        ensures
            r == metrics_eq(*self, *metric),
    {
        match metric {
            Metric::Term(v) => match &self.vote {
                Some(x) => x.term == *v,
                None => false,
            },
            Metric::Vote(v) => match relate_option(&self.vote, v) {
                Some(Relation::Equal) => true,
                _ => false,
            },
            Metric::LastLogIndex(v) => match &self.committed {
                Some(l) => match v {
                    Some(i) => l.index == *i,
                    None => false,
                },
                None => v.is_none(),
            },
        }
    }

    /// Whether the metrics show at least the value of `metric`.
    pub fn metric_ge(&self, metric: &Metric) -> (r: bool)
        ensures
            r == metrics_ge(*self, *metric),
    {
        match metric {
            Metric::Term(v) => match &self.vote {
                Some(x) => x.term >= *v,
                None => false,
            },
            Metric::Vote(v) => match relate_option(&self.vote, v) {
                Some(Relation::Equal) => true,
                Some(Relation::Greater) => true,
                _ => false,
            },
            Metric::LastLogIndex(v) => {
                let idx = match &self.committed {
                    Some(l) => Some(l.index),
                    None => None,
                };
                option_u64_is_ge(idx, *v)
            },
        }
    }
}

} // verus!
