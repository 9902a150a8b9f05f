//! A condition on the metrics that an application waits for.

use vstd::prelude::*;

use crate::base::text::push_str;
use crate::metrics::metric::{metric_name_text, metric_value_text, metrics_eq, metrics_ge, Metric};
use crate::metrics::metrics::Metrics;

verus! {

/// A condition that the application waits for.
#[derive(Debug)]
pub enum Condition {
    GE(Metric),
    EQ(Metric),
}

/// The metric a condition is on.
pub open spec fn condition_metric(c: Condition) -> Metric {
    match c {
        Condition::GE(m) => m,
        Condition::EQ(m) => m,
    }
}

impl Condition {
    /// The metric is to reach at least the value.
    pub fn ge(v: Metric) -> (r: Condition)
        ensures
            r == Condition::GE(v),
    {
        Condition::GE(v)
    }

    /// The metric is to reach exactly the value.
    pub fn eq(v: Metric) -> (r: Condition)
        ensures
            r == Condition::EQ(v),
    {
        Condition::EQ(v)
    }

    /// The name of the metric.
    pub fn name(&self) -> (r: &'static str)
        ensures
            r@ == metric_name_text(condition_metric(*self)),
    {
        match self {
            Condition::GE(v) => v.name(),
            Condition::EQ(v) => v.name(),
        }
    }

    /// The comparison operator.
    pub fn op(&self) -> (r: &'static str)
        ensures
            r@ == match self {
                Condition::GE(_) => ">="@,
                Condition::EQ(_) => "=="@,
            },
    {
        match self {
            Condition::GE(_) => ">=",
            Condition::EQ(_) => "==",
        }
    }

    /// The awaited value as text.
    pub fn value(&self) -> (r: String)
        ensures
            r@ == metric_value_text(condition_metric(*self)),
    {
        match self {
            Condition::GE(v) => v.value(),
            Condition::EQ(v) => v.value(),
        }
    }

    /// The condition as text: name, operator, value.
    pub fn display(&self) -> (r: String)
        ensures
            r@ == metric_name_text(condition_metric(*self)) + match self {
                Condition::GE(_) => ">="@,
                Condition::EQ(_) => "=="@,
            } + metric_value_text(condition_metric(*self)),
    {
        let mut s = String::from_str(self.name());
        push_str(&mut s, self.op());
        let v = self.value();
        push_str(&mut s, v.as_str());
        s
    }

    /// Whether the metrics meet the condition.
    pub fn is_met(&self, metrics: &Metrics) -> (r: bool)
        ensures
            r == match self {
                Condition::GE(m) => metrics_ge(*metrics, *m),
                Condition::EQ(m) => metrics_eq(*metrics, *m),
            },
    {
        match self {
            Condition::GE(m) => metrics.metric_ge(m),
            Condition::EQ(m) => metrics.metric_eq(m),
        }
    }
}

} // verus!
