//! A snapshot of the state of a node.

use vstd::prelude::*;

use crate::base::leased::saturating_sub;
use crate::base::text::{decimal, duration_text, push_char, push_decimal, push_duration, push_str};
use crate::errors::Fatal;
use crate::metrics::server_state::{server_state_text, ServerState};
use crate::storage::log::log_id::{display_option_log_id, option_log_id_text, LogId};
use crate::storage::membership::NodeId;
use crate::storage::vote::{display_option_vote, option_vote_text, vote_opt_view, Vote};

verus! {

/// The state of a node, as reported to the application. Times are in
/// milliseconds.
#[derive(Debug, PartialEq, Eq)]
pub struct Metrics {
    pub running_state: Result<(), Fatal>,
    /// The id of the node.
    pub id: NodeId,
    /// The last flushed vote.
    pub vote: Option<Vote>,
    /// The last log id known to be stored.
    pub committed: Option<LogId>,
    /// The role of the node.
    pub server_state: ServerState,
    /// The current cluster leader.
    pub current_leader: Option<NodeId>,
    /// For a leader, the latest time acknowledged by a quorum.
    pub last_quorum_acked: Option<u64>,
    /// For a leader, the last acknowledged heartbeat time of each member, in
    /// ascending order of member ids.
    pub heartbeat: Option<Vec<(NodeId, Option<u64>)>>,
}

/// A time in milliseconds, or `None`.
pub open spec fn option_time_text(t: Option<u64>) -> Seq<char> {
    match t {
        Some(x) => decimal(x as nat),
        None => "None"@,
    }
}

/// The heartbeat times rendered as `id:time` separated by commas.
pub open spec fn heartbeat_text(es: Seq<(NodeId, Option<u64>)>) -> Seq<char>
    decreases es.len(),
{
    if es.len() == 0 {
        Seq::empty()
    } else {
        let last = es.last();
        let item = last.0@ + seq![':'] + option_time_text(last.1);
        if es.len() == 1 {
            item
        } else {
            heartbeat_text(es.drop_last()) + seq![','] + item
        }
    }
}

/// The metrics rendered for the log at `now`.
pub open spec fn metrics_text(m: Metrics, now: u64) -> Seq<char> {
    "Metrics{id:"@ + m.id@ + ", "@ + server_state_text(m.server_state) + ", vote:"@
        + option_vote_text(vote_opt_view(m.vote)) + ", last_log:"@ + option_log_id_text(
        m.committed,
    ) + ", leader:"@ + match m.current_leader {
        Some(l) => l@,
        None => "None"@,
    } + match m.last_quorum_acked {
        Some(t) => "(quorum_acked_time:"@ + decimal(t as nat) + ", "@ + duration_text(
            saturating_sub(now, t),
        ) + " ago)"@,
        None => "(quorum_acked_time:None)"@,
    } + ", heartbeat:{"@ + match m.heartbeat {
        Some(h) => heartbeat_text(h@),
        None => "None"@,
    } + "}}"@
}

/// Appends the heartbeat times to `s`.
fn push_heartbeat(s: &mut String, es: &Vec<(NodeId, Option<u64>)>)
    ensures
        final(s)@ == old(s)@ + heartbeat_text(es@),
{
    let n = es.len();
    let mut i: usize = 0;
    while i < n
        invariant
            n == es@.len(),
            i <= n,
            s@ == old(s)@ + heartbeat_text(es@.subrange(0, i as int)),
        decreases n - i,
    {
        if i > 0 {
            push_char(s, ',');
        }
        push_str(s, es[i].0.as_str());
        push_char(s, ':');
        match es[i].1 {
            Some(t) => push_decimal(s, t),
            None => push_str(s, "None"),
        }
        proof {
            let sub = es@.subrange(0, i + 1);
            assert(sub.drop_last() =~= es@.subrange(0, i as int));
            assert(sub.last() == es@[i as int]);
            assert(s@ =~= old(s)@ + heartbeat_text(sub));
        }
        i = i + 1;
    }
    proof {
        assert(es@.subrange(0, n as int) =~= es@);
    }
}

impl Metrics {
    /// The metrics of a node that has just started.
    pub fn new_initial(id: NodeId) -> (r: Metrics)
        ensures
            r.running_state == Ok::<(), Fatal>(()),
            r.id == id,
            r.vote is None,
            r.committed is None,
            r.server_state == ServerState::Follower,
            r.current_leader is None,
            r.last_quorum_acked is None,
            r.heartbeat is None,
    {
        Metrics {
            running_state: Ok(()),
            id,
            vote: None,
            committed: None,
            server_state: ServerState::Follower,
            current_leader: None,
            last_quorum_acked: None,
            heartbeat: None,
        }
    }

    /// The metrics rendered for the log; the time acknowledged by a quorum is
    /// shown with how long before `now` it was.
    pub fn display(&self, now: u64) -> (s: String)
        ensures
            s@ == metrics_text(*self, now),
    {
        let mut s = String::from_str("Metrics{id:");
        push_str(&mut s, self.id.as_str());
        push_str(&mut s, ", ");
        push_str(&mut s, self.server_state.name());
        push_str(&mut s, ", vote:");
        let v = display_option_vote(&self.vote);
        push_str(&mut s, v.as_str());
        push_str(&mut s, ", last_log:");
        let l = display_option_log_id(&self.committed);
        push_str(&mut s, l.as_str());
        push_str(&mut s, ", leader:");
        match &self.current_leader {
            Some(x) => push_str(&mut s, x.as_str()),
            None => push_str(&mut s, "None"),
        }
        match self.last_quorum_acked {
            Some(t) => {
                push_str(&mut s, "(quorum_acked_time:");
                push_decimal(&mut s, t);
                push_str(&mut s, ", ");
                push_duration(
                    &mut s,
                    if now >= t {
                        now - t
                    } else {
                        0
                    },
                );
                push_str(&mut s, " ago)");
            },
            None => push_str(&mut s, "(quorum_acked_time:None)"),
        }
        push_str(&mut s, ", heartbeat:{");
        match &self.heartbeat {
            Some(h) => push_heartbeat(&mut s, h),
            None => push_str(&mut s, "None"),
        }
        push_str(&mut s, "}}");
        s
    }
}

} // verus!
