//! The vote request a candidate or leader sends, and its reply.

use vstd::prelude::*;

use crate::base::text::{duration_text, push_char, push_duration, push_str};
use crate::storage::log::log_id::{display_option_log_id, log_id_text, option_log_id_text, LogId};
use crate::storage::vote::{
    display_option_vote, duplicate_option, option_vote_text, vote_opt_view, vote_text, Vote,
    VoteView,
};

verus! {

/// An RPC sent by candidates to gather votes, and by leaders to renew their
/// lease.
#[derive(Debug, PartialEq, Eq)]
pub struct RequestVote {
    pub vote: Vote,
    pub last_log_id: Option<LogId>,
    /// The lease the sender asks for, in milliseconds.
    pub lease_ms: u64,
}

/// A request rendered as `{vote:V, last_log:L, lease:D}`.
pub open spec fn request_vote_text(r: RequestVote) -> Seq<char> {
    "{vote:"@ + vote_text(r.vote@) + ", last_log:"@ + option_log_id_text(r.last_log_id)
        + ", lease:"@ + duration_text(r.lease_ms as nat) + seq!['}']
}

/// A reply rendered as `{V, last_log:L}`, where `L` is `None` or
/// `Some("term.index")`.
pub open spec fn vote_reply_text(r: VoteReply) -> Seq<char> {
    seq!['{'] + option_vote_text(vote_opt_view(r.vote)) + ", last_log:"@ + match r.last_log_id {
        Some(l) => "Some(\""@ + log_id_text(l) + "\")"@,
        None => "None"@,
    } + seq!['}']
}

impl RequestVote {
    /// A request for `vote` by a node whose last log id is `last_log_id`,
    /// asking for a lease of `lease_ms` milliseconds.
    pub fn new(vote: Vote, last_log_id: Option<LogId>, lease_ms: u64) -> (r: RequestVote)
        ensures
            r.vote == vote,
            r.last_log_id == last_log_id,
            r.lease_ms == lease_ms,
    {
        RequestVote { vote, last_log_id, lease_ms }
    }

    /// The request rendered as `{vote:V, last_log:L, lease:D}`.
    pub fn display(&self) -> (s: String)
        ensures
            s@ == request_vote_text(*self),
    {
        let mut s = String::from_str("{vote:");
        let v = self.vote.display();
        push_str(&mut s, v.as_str());
        push_str(&mut s, ", last_log:");
        let l = display_option_log_id(&self.last_log_id);
        push_str(&mut s, l.as_str());
        push_str(&mut s, ", lease:");
        push_duration(&mut s, self.lease_ms);
        push_char(&mut s, '}');
        s
    }

    /// A copy of the request.
    pub fn duplicate(&self) -> (r: RequestVote)
        ensures
            r == *self,
    {
        RequestVote {
            vote: self.vote.duplicate(),
            last_log_id: self.last_log_id,
            lease_ms: self.lease_ms,
        }
    }
}

/// The reply to a [`RequestVote`].
#[derive(Debug, PartialEq, Eq)]
pub struct VoteReply {
    /// The vote of the replying node after it handled the request, never
    /// below the requested vote: where the node holds no vote at least the
    /// requested one, the reply carries the requested vote. A vote equal to
    /// the candidate's does not mean the vote was granted.
    pub vote: Option<Vote>,
    /// Whether the node accepted and saved the requested vote.
    pub vote_granted: bool,
    /// The last log id stored on the replying node.
    pub last_log_id: Option<LogId>,
}

impl VoteReply {
    pub fn new(vote: Option<Vote>, last_log_id: Option<LogId>, granted: bool) -> (r: VoteReply)
        ensures
            r.vote == vote,
            r.last_log_id == last_log_id,
            r.vote_granted == granted,
    {
        VoteReply { vote, vote_granted: granted, last_log_id }
    }

    /// Whether the reply grants `candidate_vote`: the node granted the
    /// request and holds that vote. A reply that carries the candidate's vote
    /// without granting it does not.
    pub fn is_granted_to(&self, candidate_vote: &Vote) -> (r: bool)
        ensures
            r == (self.vote_granted && vote_opt_view(self.vote) == Some(candidate_vote@)),
    {
        if !self.vote_granted {
            return false;
        }
        match &self.vote {
            Some(v) => v.same_as(candidate_vote),
            None => false,
        }
    }

    /// The reply rendered as `{V, last_log:L}`, where `L` is `None` or
    /// `Some("term.index")`.
    pub fn display(&self) -> (s: String)
        ensures
            s@ == vote_reply_text(*self),
    {
        let mut s = String::new();
        push_char(&mut s, '{');
        let v = display_option_vote(&self.vote);
        push_str(&mut s, v.as_str());
        push_str(&mut s, ", last_log:");
        match &self.last_log_id {
            Some(l) => {
                push_str(&mut s, "Some(\"");
                let t = l.display();
                push_str(&mut s, t.as_str());
                push_str(&mut s, "\")");
            },
            None => {
                push_str(&mut s, "None");
            },
        }
        push_char(&mut s, '}');
        s
    }

    /// A copy of the reply.
    pub fn duplicate(&self) -> (r: VoteReply)
        ensures
            r == *self,
    {
        VoteReply {
            vote: duplicate_option(&self.vote),
            vote_granted: self.vote_granted,
            last_log_id: self.last_log_id,
        }
    }
}

} // verus!
