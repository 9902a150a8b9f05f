//! The state of a node and how each event changes it.
//!
//! Every handler takes the current time `now` in milliseconds and returns what
//! has to be done outside: replies to send, writes to submit, requests to
//! broadcast. Running those actions and feeding back their outcomes is the
//! caller's part.

use vstd::prelude::*;

use crate::base::leased::{lease_expired, Leased};
use crate::base::str_map::DeepClone;
use crate::base::text::Relation;
use crate::config::config::Config;
use crate::errors::{Fatal, ForwardToLeader, RejectVoteRequest};
use crate::metrics::metrics::Metrics;
use crate::metrics::server_state::ServerState;
use crate::raft_core::progress::{clock_max, count_true, quorum_value};
use crate::raft_core::roles::{Candidate, Leader};
use crate::storage::log::entry::Entry;
use crate::storage::log::log_id::{
    option_le, option_log_id_le, option_log_id_max, option_max, LogId, LogIdOptionExt,
};
use crate::storage::membership::membership::Membership;
use crate::storage::membership::node::{Node, NodeView};
use crate::storage::membership::NodeId;
use crate::storage::vote::vote_ext::VoteExt;
use crate::storage::vote::{
    duplicate_option, option_vote_ge, option_vote_gt, relate_option, vote_gt, vote_opt_view, Vote,
    VoteView,
};
use crate::suraft::request_vote::{RequestVote, VoteReply};

verus! {

/// The view of `v` once a quorum has granted it.
pub open spec fn committed_view(v: VoteView) -> VoteView {
    VoteView { committed: true, ..v }
}

/// The vote a node puts in its reply to a request for `req`: the vote it
/// holds where that is at least `req`, else `req` itself, so that the reply's
/// vote is never below the requested one. A reply that carries the requested
/// vote does not grant it by that alone.
pub open spec fn reply_vote(held: Option<Vote>, req: Vote) -> Option<Vote> {
    if option_vote_ge(vote_opt_view(held), Some(req@)) {
        held
    } else {
        Some(req)
    }
}

/// The vote to put in a reply to a request for `req`, where the node holds
/// `held`.
pub fn reply_vote_of(held: &Option<Vote>, req: &Vote) -> (r: Option<Vote>)
    ensures
        r == reply_vote(*held, *req),
        option_vote_ge(vote_opt_view(r), Some(req@)),
{
    proof {
        crate::storage::vote::lemma_option_vote_order(Some(req@), Some(req@), Some(req@));
    }
    let held_ge = match relate_option(held, &Some(req.duplicate())) {
        Some(Relation::Greater) => true,
        Some(Relation::Equal) => true,
        _ => false,
    };
    if held_ge {
        duplicate_option(held)
    } else {
        Some(req.duplicate())
    }
}

/// The state of a node that its decisions read and change.
#[derive(Debug)]
pub struct Core<D, R> {
    /// This node's id.
    pub id: NodeId,
    /// This node's config.
    pub config: Config,
    /// The election timeout this node drew, in milliseconds.
    pub election_timeout: u64,
    /// The vote this node holds, with its lease.
    pub vote: Leased<Option<Vote>>,
    /// The last log id known to be stored.
    pub committed: Option<LogId>,
    /// The leader state, where this node leads.
    pub leader: Option<Leader<D, R>>,
    /// The candidate state, where this node is asking for votes.
    pub candidate: Option<Candidate>,
}

/// A leader works in a committed vote of its own node, and proposes log ids
/// in its term after every log id it has proposed or submitted.
pub open spec fn leader_wf<D, R>(l: Leader<D, R>, id: Seq<char>) -> bool {
    &&& l.vote.committed
    &&& l.vote.voted_for@ == id
    &&& option_log_id_le(l.io_state.submitted_id(), l.last_log_id)
    &&& match l.last_log_id {
        Some(x) => x.term <= l.vote.term,
        None => true,
    }
}

/// A candidate asks for an uncommitted vote for its own node, in a term after
/// its last log, and tracks exactly its members.
pub open spec fn candidate_wf(c: Candidate, id: Seq<char>) -> bool {
    &&& !c.vote.committed
    &&& c.vote.voted_for@ == id
    &&& match c.last_log_id {
        Some(x) => x.term < c.vote.term,
        None => true,
    }
    &&& c.progress.ids() == c.membership.ids()
}

impl<D, R> Core<D, R> {
    /// The vote this node holds.
    pub open spec fn my_vote(&self) -> Option<VoteView> {
        vote_opt_view(self.vote.data())
    }

    /// The invariant every handler keeps.
    pub open spec fn wf(&self) -> bool {
        &&& self.vote.lease_enabled()
        &&& match self.leader {
            Some(l) => leader_wf(l, self.id@),
            None => true,
        }
        &&& match self.candidate {
            Some(c) => candidate_wf(c, self.id@),
            None => true,
        }
    }

    /// `now` is not before the last update of the vote.
    pub open spec fn clock_ok(&self, now: u64) -> bool {
        match self.vote.last_modified() {
            Some(u) => u <= now,
            None => true,
        }
    }

    /// The last log id this node knows of: the leader's last proposed one, or
    /// the last one known to be stored.
    pub open spec fn last_log_id_spec(&self) -> Option<LogId> {
        match self.leader {
            Some(l) => l.last_log_id,
            None => self.committed,
        }
    }

    /// The leader this node knows of: the node its vote is for, once that
    /// vote is committed.
    pub open spec fn known_leader(&self) -> Option<Seq<char>> {
        match self.vote.data() {
            Some(v) => if v.committed {
                Some(v.voted_for@)
            } else {
                None
            },
            None => None,
        }
    }

    /// The fields that vote handling leaves alone are unchanged.
    pub open spec fn same_settings(old: Self, new: Self) -> bool {
        &&& new.id == old.id
        &&& new.config == old.config
        &&& new.election_timeout == old.election_timeout
    }

    /// `new` is `old` after it handled vote `v` with a lease of `lease` at
    /// `now`: a vote below its own is rejected and changes nothing; a greater
    /// vote replaces its own and, where it is for another node, ends its
    /// leading and candidacy; an equal vote renews the lease.
    pub open spec fn vote_updated(old: Self, new: Self, v: Vote, lease: u64, now: u64) -> bool {
        let my = old.my_vote();
        &&& Self::same_settings(old, new)
        &&& if !option_vote_ge(Some(v@), my) {
            &&& new.vote == old.vote
            &&& new.leader == old.leader
            &&& new.candidate == old.candidate
        } else if option_vote_gt(Some(v@), my) {
            &&& new.vote.data() == Some(v)
            &&& new.vote.last_modified() == Some(now)
            &&& new.vote.lease() == lease
            &&& new.vote.lease_enabled()
            &&& if v.voted_for@ == old.id@ {
                new.leader == old.leader && new.candidate == old.candidate
            } else {
                new.leader is None && new.candidate is None
            }
        } else {
            &&& new.vote.data() == old.vote.data()
            &&& new.vote.last_modified() == Some(now)
            &&& new.vote.lease() == if old.vote.lease_enabled() {
                lease
            } else {
                old.vote.lease()
            }
            &&& new.vote.lease_enabled() == old.vote.lease_enabled()
            &&& new.leader == old.leader
            &&& new.candidate == old.candidate
        }
    }

    /// A node that has just started: no vote (updated now with no lease),
    /// nothing committed, neither leading nor a candidate.
    pub fn new(id: NodeId, config: Config, election_timeout: u64, now: u64) -> (r: Self)
        ensures
            r.wf(),
            r.id == id,
            r.config == config,
            r.election_timeout == election_timeout,
            r.vote.data() is None,
            r.vote.last_modified() == Some(now),
            r.vote.lease() == 0,
            r.committed is None,
            r.leader is None,
            r.candidate is None,
    {
        Core {
            id,
            config,
            election_timeout,
            vote: Leased::new(now, 0, None),
            committed: None,
            leader: None,
            candidate: None,
        }
    }

    /// The leader this node knows of.
    pub fn current_leader(&self) -> (r: Option<NodeId>)
        ensures
            match r {
                Some(x) => self.known_leader() == Some(x@),
                None => self.known_leader() is None,
            },
    {
        match self.vote.get() {
            Some(v) => if v.committed {
                Some(v.voted_for.clone())
            } else {
                None
            },
            None => None,
        }
    }

    /// The error that sends a request to the leader this node knows of.
    pub fn forward_to_leader(&self) -> (r: ForwardToLeader)
        ensures
            match r.leader_id {
                Some(x) => self.known_leader() == Some(x@),
                None => self.known_leader() is None,
            },
    {
        match self.current_leader() {
            Some(id) => ForwardToLeader::new(id),
            None => ForwardToLeader::empty(),
        }
    }

    /// The last log id known to be stored.
    pub fn get_committed(&self) -> (r: Option<LogId>)
        ensures
            r == self.committed,
    {
        self.committed
    }

    /// The last log id this node knows of.
    pub fn get_last_log_id(&self) -> (r: Option<LogId>)
        ensures
            r == self.last_log_id_spec(),
    {
        match &self.leader {
            Some(l) => l.last_log_id,
            None => self.committed,
        }
    }

    /// Raises the last log id known to be stored to `log_id`; it never goes
    /// back.
    pub fn update_committed(&mut self, log_id: Option<LogId>)
        ensures
            final(self).committed == option_log_id_max(old(self).committed, log_id),
            final(self).id == old(self).id,
            final(self).config == old(self).config,
            final(self).election_timeout == old(self).election_timeout,
            final(self).vote == old(self).vote,
            final(self).leader == old(self).leader,
            final(self).candidate == old(self).candidate,
    {
        self.committed = option_max(self.committed, log_id);
    }

    /// Whether this node leads.
    pub fn is_leader(&self) -> (r: bool)
        ensures
            r == self.leader is Some,
    {
        self.leader.is_some()
    }

    /// Ends leading and candidacy where the vote is no longer for this node.
    fn update_server_state(&mut self)
        requires
            old(self).vote.data() is Some,
        ensures
            final(self).id == old(self).id,
            final(self).config == old(self).config,
            final(self).election_timeout == old(self).election_timeout,
            final(self).vote == old(self).vote,
            final(self).committed == old(self).committed,
            old(self).vote.data()->0.voted_for@ == old(self).id@ ==> final(self).leader == old(self).leader && final(self).candidate == old(self).candidate,
            old(self).vote.data()->0.voted_for@ != old(self).id@ ==> final(self).leader is None
                && final(self).candidate is None,
    {
        let mine = match self.vote.get() {
            Some(v) => v.voted_for == self.id,
            None => true,
        };
        if !mine {
            self.candidate = None;
            self.leader = None;
        }
    }

    /// Checks `vote` against this node's vote and takes it where it is not
    /// below: a greater vote is stored with a lease of `lease` from `now`, an
    /// equal vote renews the lease. A vote below is rejected by this node's
    /// vote.
    pub fn update_vote(&mut self, vote: &Vote, lease: u64, now: u64) -> (r: Result<
        (),
        RejectVoteRequest,
    >)
        requires
            old(self).clock_ok(now),
        ensures
            Self::vote_updated(*old(self), *final(self), *vote, lease, now),
            final(self).committed == old(self).committed,
            r is Ok <==> option_vote_ge(Some(vote@), old(self).my_vote()),
            match r {
                Err(RejectVoteRequest::ByVote(x)) => old(self).vote.data() == Some(x),
                Err(RejectVoteRequest::ByLastLogId(_)) => false,
                Ok(_) => true,
            },
    {
        let rel = match self.vote.get() {
            Some(m) => vote.relate(m),
            None => Some(Relation::Greater),
        };
        match rel {
            Some(Relation::Greater) => {
                self.vote.update(now, lease, Some(vote.duplicate()));
                self.update_server_state();
                Ok(())
            },
            Some(Relation::Equal) => {
                self.vote.touch(now, lease);
                Ok(())
            },
            _ => {
                let mine = duplicate_option(self.vote.get());
                match mine {
                    Some(m) => Err(RejectVoteRequest::ByVote(m)),
                    None => Err(RejectVoteRequest::ByLastLogId(None)),
                }
            },
        }
    }

    /// Whether an unexpired committed vote holds this node: it then refuses
    /// every vote request.
    pub open spec fn leader_lease_held(&self, now: u64) -> bool {
        &&& self.vote.data() matches Some(v) && v.committed
        &&& !lease_expired(self.vote.last_modified(), self.vote.lease(), now, 0)
    }

    /// `new` and the reply `r` are `old` after it handled the vote request
    /// `req` at `now`: an unexpired committed vote, or a request with less log
    /// than this node, is refused and changes nothing; otherwise the vote is
    /// handled and the requested last log id is taken as stored. The reply's
    /// vote is never below the requested one (see [`reply_vote`]).
    pub open spec fn request_vote_handled(
        old: Self,
        new: Self,
        req: RequestVote,
        now: u64,
        r: VoteReply,
    ) -> bool {
        let my_last = old.last_log_id_spec();
        if old.leader_lease_held(now) || !option_log_id_le(my_last, req.last_log_id) {
            &&& new == old
            &&& r == VoteReply {
                vote: reply_vote(old.vote.data(), req.vote),
                vote_granted: false,
                last_log_id: my_last,
            }
        } else {
            &&& Self::vote_updated(old, new, req.vote, req.lease_ms, now)
            &&& new.committed == option_log_id_max(old.committed, req.last_log_id)
            &&& r == VoteReply {
                vote: reply_vote(new.vote.data(), req.vote),
                vote_granted: option_vote_ge(Some(req.vote@), old.my_vote()),
                last_log_id: my_last,
            }
        }
    }

    /// Handles a vote request (or a leader's heartbeat) from another node.
    pub fn handle_request_vote(&mut self, req: RequestVote, now: u64) -> (r: VoteReply)
        requires
            old(self).clock_ok(now),
        ensures
            Self::request_vote_handled(*old(self), *final(self), req, now, r),
    {
        let my_last_log_id = self.get_last_log_id();
        let committed_vote = match self.vote.get() {
            Some(v) => v.committed,
            None => false,
        };
        if committed_vote {
            if !self.vote.is_expired(now, 0) {
                return VoteReply::new(
                    reply_vote_of(self.vote.get(), &req.vote),
                    my_last_log_id,
                    false,
                );
            }
        }
        if !option_le(&my_last_log_id, &req.last_log_id) {
            return VoteReply::new(reply_vote_of(self.vote.get(), &req.vote), my_last_log_id, false);
        }
        let res = self.update_vote(&req.vote, req.lease_ms, now);
        self.update_committed(req.last_log_id);
        VoteReply::new(reply_vote_of(self.vote.get(), &req.vote), my_last_log_id, res.is_ok())
    }

    /// `new` and `r` are `old` after a write of `cmd` answered through
    /// `resp`: a node that does not lead forwards the request; a leader with
    /// a write in flight buffers it; otherwise the buffered commands and this
    /// one are submitted as the next entry of its term.
    pub open spec fn write_handled(
        old: Self,
        new: Self,
        cmd: D,
        resp: Option<R>,
        r: WriteOutcome<D, R>,
    ) -> bool {
        match old.leader {
            None => {
                &&& new == old
                &&& r matches WriteOutcome::Forward { responder, error } && responder == resp
                    && match error.leader_id {
                    Some(x) => old.known_leader() == Some(x@),
                    None => old.known_leader() is None,
                }
            },
            Some(l) => {
                let buf = l.app_cmd_buf@.push(cmd);
                let txs = l.tx_buf@.push(resp);
                &&& Self::same_settings(old, new)
                &&& new.vote == old.vote
                &&& new.committed == old.committed
                &&& new.candidate == old.candidate
                &&& new.leader matches Some(nl) && {
                    &&& nl.vote == l.vote
                    &&& nl.membership == l.membership
                    &&& nl.next_heartbeat == l.next_heartbeat
                    &&& nl.clock_progress == l.clock_progress
                    &&& if l.io_state.submitted_id() != l.io_state.flushed_id() {
                        &&& nl.app_cmd_buf@ == buf
                        &&& nl.tx_buf@ == txs
                        &&& nl.last_log_id == l.last_log_id
                        &&& nl.io_state == l.io_state
                        &&& r is Buffered
                    } else {
                        let log_id = LogId {
                            term: l.vote.term,
                            index: l.last_log_id.next_index_spec() as u64,
                        };
                        &&& nl.last_log_id == Some(log_id)
                        &&& nl.io_state.submitted_id() == Some(log_id)
                        &&& nl.io_state.flushed_id() == l.io_state.flushed_id()
                        &&& nl.app_cmd_buf@ == Seq::<D>::empty()
                        &&& nl.tx_buf@ == Seq::<Option<R>>::empty()
                        &&& r matches WriteOutcome::Submit { entry, responders } && entry.log_id
                            == log_id && entry.payload@ == buf && responders@ == txs
                    }
                }
            },
        }
    }

    /// Handles a write of the application command `app_cmd`, answered through
    /// `resp_tx`.
    pub fn write_entry(&mut self, app_cmd: D, resp_tx: Option<R>) -> (r: WriteOutcome<D, R>)
        requires
            old(self).wf(),
            match old(self).leader {
                Some(l) => l.last_log_id.next_index_spec() <= u64::MAX,
                None => true,
            },
        ensures
            Self::write_handled(*old(self), *final(self), app_cmd, resp_tx, r),
            final(self).wf(),
    {
        if self.leader.is_none() {
            let error = self.forward_to_leader();
            return WriteOutcome::Forward { responder: resp_tx, error };
        }
        let mut leader = self.leader.take().unwrap();
        leader.app_cmd_buf.push(app_cmd);
        leader.tx_buf.push(resp_tx);
        if !leader.io_state.is_idle() {
            self.leader = Some(leader);
            return WriteOutcome::Buffered;
        }
        let (entry, responders) = Self::submit_buffered(&mut leader);
        self.leader = Some(leader);
        WriteOutcome::Submit { entry, responders }
    }

    /// Submits the buffered commands of `leader` as its next entry, in its
    /// term after its last proposed log id; returns the entry and the
    /// responders of its commands.
    fn submit_buffered(leader: &mut Leader<D, R>) -> (r: (Entry<D>, Vec<Option<R>>))
        requires
            old(leader).last_log_id.next_index_spec() <= u64::MAX,
            option_log_id_le(old(leader).io_state.submitted_id(), old(leader).last_log_id),
            match old(leader).last_log_id {
                Some(x) => x.term <= old(leader).vote.term,
                None => true,
            },
        ensures
            ({
                let log_id = LogId {
                    term: old(leader).vote.term,
                    index: old(leader).last_log_id.next_index_spec() as u64,
                };
                &&& final(leader).vote == old(leader).vote
                &&& final(leader).membership == old(leader).membership
                &&& final(leader).next_heartbeat == old(leader).next_heartbeat
                &&& final(leader).clock_progress == old(leader).clock_progress
                &&& final(leader).last_log_id == Some(log_id)
                &&& final(leader).io_state.submitted_id() == Some(log_id)
                &&& final(leader).io_state.flushed_id() == old(leader).io_state.flushed_id()
                &&& final(leader).app_cmd_buf@ == Seq::<D>::empty()
                &&& final(leader).tx_buf@ == Seq::<Option<R>>::empty()
                &&& r.0.log_id == log_id
                &&& r.0.payload@ == old(leader).app_cmd_buf@
                &&& r.1@ == old(leader).tx_buf@
            }),
    {
        let log_index = leader.last_log_id.next_index();
        let log_id = LogId::new(leader.vote.term(), log_index);
        leader.last_log_id = Some(log_id);
        let mut payload: Vec<D> = Vec::new();
        std::mem::swap(&mut payload, &mut leader.app_cmd_buf);
        let entry = Entry { log_id, payload };
        leader.io_state.submit(log_id);
        let mut responders: Vec<Option<R>> = Vec::new();
        std::mem::swap(&mut responders, &mut leader.tx_buf);
        (entry, responders)
    }

    /// `new`, `r` and `next` are `old` after the completion of the write of
    /// `log_id` with the `responders` it carried: a completed write raises
    /// the stored log id, marks it flushed for a leader, and answers the
    /// responders; a leader with no other write in flight then submits the
    /// commands buffered meanwhile as its next entry (`next`, with their
    /// responders), so that no write waits for a later one. An incomplete
    /// write changes nothing.
    pub open spec fn io_completed(
        old: Self,
        new: Self,
        log_id: LogId,
        responders: Seq<Option<R>>,
        done: bool,
        r: Seq<R>,
        next: Option<(Entry<D>, Vec<Option<R>>)>,
    ) -> bool {
        if done {
            &&& Self::same_settings(old, new)
            &&& new.vote == old.vote
            &&& new.candidate == old.candidate
            &&& new.committed == option_log_id_max(old.committed, Some(log_id))
            &&& match old.leader {
                None => new.leader is None && next is None,
                Some(l) => new.leader matches Some(nl) && {
                    &&& nl.vote == l.vote
                    &&& nl.membership == l.membership
                    &&& nl.next_heartbeat == l.next_heartbeat
                    &&& nl.clock_progress == l.clock_progress
                    &&& nl.io_state.flushed_id() == Some(log_id)
                    &&& if Self::resubmits(l, log_id) {
                        let next_id = LogId {
                            term: l.vote.term,
                            index: l.last_log_id.next_index_spec() as u64,
                        };
                        &&& nl.last_log_id == Some(next_id)
                        &&& nl.io_state.submitted_id() == Some(next_id)
                        &&& nl.app_cmd_buf@ == Seq::<D>::empty()
                        &&& nl.tx_buf@ == Seq::<Option<R>>::empty()
                        &&& next matches Some(x) && x.0.log_id == next_id && x.0.payload@
                            == l.app_cmd_buf@ && x.1@ == l.tx_buf@
                    } else {
                        &&& nl.last_log_id == l.last_log_id
                        &&& nl.io_state.submitted_id() == l.io_state.submitted_id()
                        &&& nl.app_cmd_buf == l.app_cmd_buf
                        &&& nl.tx_buf == l.tx_buf
                        &&& next is None
                    }
                },
            }
            &&& r == present(responders)
        } else {
            &&& new == old
            &&& r == Seq::<R>::empty()
            &&& next is None
        }
    }

    /// Once the write of `log_id` completes, leader `l` has no write in
    /// flight and commands waiting: it submits them.
    pub open spec fn resubmits(l: Leader<D, R>, log_id: LogId) -> bool {
        &&& l.io_state.submitted_id() == Some(log_id)
        &&& l.app_cmd_buf@.len() > 0
    }

    /// Handles the completion of the write of `log_id`; returns the
    /// responders to answer with `log_id`, and the next entry to write with
    /// its responders, where buffered commands are now due.
    pub fn handle_io_completed(&mut self, log_id: LogId, responders: Vec<Option<R>>, done: bool) -> (r:
        (Vec<R>, Option<(Entry<D>, Vec<Option<R>>)>))
        requires
            old(self).wf(),
            done ==> match old(self).leader {
                Some(l) => {
                    &&& option_log_id_le(l.io_state.flushed_id(), Some(log_id))
                    &&& Self::resubmits(l, log_id) ==> l.last_log_id.next_index_spec() <= u64::MAX
                },
                None => true,
            },
        ensures
            Self::io_completed(*old(self), *final(self), log_id, responders@, done, r.0@, r.1),
            final(self).wf(),
    {
        if !done {
            return (Vec::new(), None);
        }
        self.update_committed(Some(log_id));
        let mut next = None;
        if self.leader.is_some() {
            let mut leader = self.leader.take().unwrap();
            let idle = match leader.io_state.submitted() {
                Some(x) => *x == log_id,
                None => false,
            };
            leader.io_state.flush(log_id);
            if idle && leader.app_cmd_buf.len() > 0 {
                next = Some(Self::submit_buffered(&mut leader));
            }
            self.leader = Some(leader);
        }
        (take_present(responders), next)
    }

    /// `new` is `old` after a heartbeat reply from `target`, sent at
    /// `sending_time` for `leader_vote`: a leader of that vote records the
    /// time for `target`; otherwise nothing changes.
    pub open spec fn heartbeat_reply_handled(
        old: Self,
        new: Self,
        leader_vote: Vote,
        sending_time: u64,
        target: Seq<char>,
    ) -> bool {
        match old.leader {
            Some(l) => if leader_vote@ == l.vote@ {
                let pos = l.clock_progress.position(target);
                &&& Self::same_settings(old, new)
                &&& new.vote == old.vote
                &&& new.committed == old.committed
                &&& new.candidate == old.candidate
                &&& new.leader matches Some(nl) && {
                    &&& nl.vote == l.vote
                    &&& nl.last_log_id == l.last_log_id
                    &&& nl.membership == l.membership
                    &&& nl.app_cmd_buf == l.app_cmd_buf
                    &&& nl.tx_buf == l.tx_buf
                    &&& nl.io_state == l.io_state
                    &&& nl.next_heartbeat == l.next_heartbeat
                    &&& nl.clock_progress.ids() == l.clock_progress.ids()
                    &&& nl.clock_progress.values() == l.clock_progress.values().update(
                        pos,
                        clock_max(l.clock_progress.values()[pos], Some(sending_time)),
                    )
                }
            } else {
                new == old
            },
            None => new == old,
        }
    }

    /// Handles a heartbeat reply: member `target` acknowledged the leader's
    /// vote at `sending_time`.
    pub fn handle_heartbeat_reply(&mut self, leader_vote: &Vote, sending_time: u64, target: &str)
        requires
            old(self).wf(),
            match old(self).leader {
                Some(l) => leader_vote@ == l.vote@ ==> l.clock_progress.ids().contains(target@),
                None => true,
            },
        ensures
            Self::heartbeat_reply_handled(*old(self), *final(self), *leader_vote, sending_time, target@),
            final(self).wf(),
    {
        if self.leader.is_none() {
            return;
        }
        let mut leader = self.leader.take().unwrap();
        if leader_vote.same_as(&leader.vote) {
            let _ = leader.clock_progress.increase_to(target, Some(sending_time));
        }
        self.leader = Some(leader);
    }

    /// Replaces the leader's membership, where this node leads.
    pub fn change_membership(&mut self, membership: &Membership)
        requires
            old(self).wf(),
        ensures
            final(self).wf(),
            Self::same_settings(*old(self), *final(self)),
            final(self).vote == old(self).vote,
            final(self).committed == old(self).committed,
            final(self).candidate == old(self).candidate,
            match old(self).leader {
                None => final(self).leader is None,
                Some(l) => final(self).leader matches Some(nl) && {
                    &&& nl.vote == l.vote
                    &&& nl.last_log_id == l.last_log_id
                    &&& nl.membership@ == membership@
                    &&& nl.membership.ids() == membership.ids()
                    &&& nl.app_cmd_buf == l.app_cmd_buf
                    &&& nl.tx_buf == l.tx_buf
                    &&& nl.io_state == l.io_state
                    &&& nl.next_heartbeat == l.next_heartbeat
                    &&& nl.clock_progress == l.clock_progress
                },
            },
    {
        if self.leader.is_some() {
            let mut leader = self.leader.take().unwrap();
            leader.membership = membership.duplicate();
            self.leader = Some(leader);
        }
    }
    /// `new` and the sends `r` are `old` after a leader broadcast a heartbeat
    /// at `now`: the next heartbeat is due one interval later, and each
    /// member, in ascending order of ids, gets one send.
    pub open spec fn heartbeat_broadcast(old: Self, new: Self, now: u64, r: Seq<HeartbeatSend>) -> bool {
        match old.leader {
            None => new == old && r.len() == 0,
            Some(l) => {
                &&& Self::same_settings(old, new)
                &&& new.vote == old.vote
                &&& new.committed == old.committed
                &&& new.candidate == old.candidate
                &&& new.leader matches Some(nl) && {
                    &&& nl.vote == l.vote
                    &&& nl.last_log_id == l.last_log_id
                    &&& nl.membership == l.membership
                    &&& nl.app_cmd_buf == l.app_cmd_buf
                    &&& nl.tx_buf == l.tx_buf
                    &&& nl.io_state == l.io_state
                    &&& nl.clock_progress == l.clock_progress
                    &&& nl.next_heartbeat == now + old.config.heartbeat_interval
                }
                &&& r.len() == l.membership.ids().len()
                &&& forall|i: int|
                    0 <= i < r.len() ==> heartbeat_send_ok(#[trigger] r[i], l, old.config, now, i)
            },
        }
    }

    /// Sends a heartbeat to every member, where this node leads.
    pub fn broadcast_heartbeat(&mut self, now: u64) -> (r: Vec<HeartbeatSend>)
        requires
            old(self).wf(),
            now + old(self).config.heartbeat_interval <= u64::MAX,
        ensures
            Self::heartbeat_broadcast(*old(self), *final(self), now, r@),
            final(self).wf(),
    {
        let mut sends: Vec<HeartbeatSend> = Vec::new();
        if self.leader.is_none() {
            return sends;
        }
        let mut leader = self.leader.take().unwrap();
        leader.next_heartbeat = now + self.config.heartbeat_interval;
        let n = leader.membership.len();
        let mut i: usize = 0;
        while i < n
            invariant
                n == leader.membership.ids().len(),
                i <= n,
                sends@.len() == i,
                forall|j: int|
                    0 <= j < i ==> heartbeat_send_ok(#[trigger] sends@[j], leader, self.config, now, j),
            decreases n - i,
        {
            let (target, node) = leader.membership.entry_at(i);
            if *target == leader.vote.voted_for {
                sends.push(
                    HeartbeatSend::Local {
                        leader_vote: leader.vote.duplicate(),
                        sending_time: now,
                        target: target.clone(),
                    },
                );
            } else {
                let request = RequestVote::new(
                    leader.vote.duplicate(),
                    leader.io_state.last_flushed(),
                    self.config.election_timeout_max,
                );
                sends.push(
                    HeartbeatSend::Remote {
                        target: target.clone(),
                        node: node.clone(),
                        request,
                        timeout_ms: self.config.heartbeat_interval,
                        leader_vote: leader.vote.duplicate(),
                        sending_time: now,
                    },
                );
            }
            i = i + 1;
        }
        self.leader = Some(leader);
        sends
    }

    /// This node is due to elect itself at `now`: it does not lead, election
    /// is enabled, and its vote's lease has expired by its election timeout.
    pub open spec fn should_elect(&self, now: u64, enable_elect: bool) -> bool {
        &&& self.leader is None
        &&& enable_elect
        &&& lease_expired(self.vote.last_modified(), self.vote.lease(), now, self.election_timeout)
    }

    /// This node is due to send a heartbeat at `now`.
    pub open spec fn should_heartbeat(&self, now: u64, enable_heartbeat: bool) -> bool {
        &&& enable_heartbeat
        &&& self.leader matches Some(l) && now >= l.next_heartbeat
    }

    /// `new` and `r` are `old` after a tick at `now`.
    pub open spec fn ticked(
        old: Self,
        new: Self,
        now: u64,
        enable_elect: bool,
        enable_heartbeat: bool,
        r: TickAction,
    ) -> bool {
        if old.should_elect(now, enable_elect) {
            new == old && r is Elect
        } else if old.should_heartbeat(now, enable_heartbeat) {
            r matches TickAction::Heartbeat(sends) && Self::heartbeat_broadcast(old, new, now, sends@)
        } else {
            new == old && r is Idle
        }
    }

    /// Handles a tick: checks whether to elect itself, then whether to send a
    /// heartbeat.
    pub fn on_tick(&mut self, now: u64, enable_elect: bool, enable_heartbeat: bool) -> (r: TickAction)
        requires
            old(self).wf(),
            old(self).should_heartbeat(now, enable_heartbeat) ==> now + old(self).config.heartbeat_interval <= u64::MAX,
        ensures
            Self::ticked(*old(self), *final(self), now, enable_elect, enable_heartbeat, r),
            final(self).wf(),
    {
        if self.leader.is_none() && enable_elect && self.vote.is_expired(now, self.election_timeout) {
            return TickAction::Elect;
        }
        if !enable_heartbeat {
            return TickAction::Idle;
        }
        let due = match &self.leader {
            Some(l) => now >= l.next_heartbeat,
            None => false,
        };
        if !due {
            return TickAction::Idle;
        }
        TickAction::Heartbeat(self.broadcast_heartbeat(now))
    }
    /// The term of the election this node starts after learning that
    /// `stored_last` is stored: past both its last log term and its vote's
    /// term.
    pub open spec fn election_term(old: Self, stored_last: Option<LogId>) -> int {
        let last = option_log_id_max(old.committed, stored_last);
        let t1 = last.next_term_spec();
        let t2 = old.vote.data().next_term_spec();
        if t1 >= t2 {
            t1
        } else {
            t2
        }
    }

    /// `new` and `r` are `old` after it started an election at `now`, having
    /// read `stored_last` and `membership` from the storage: the stored log
    /// id is taken; without a membership the election fails; otherwise the
    /// node becomes a candidate for a new vote in the next term, grants it
    /// itself with a lease of its election timeout, and asks every member.
    pub open spec fn elected(
        old: Self,
        new: Self,
        now: u64,
        stored_last: Option<LogId>,
        membership: Option<Membership>,
        r: Result<VoteBroadcast, Fatal>,
    ) -> bool {
        let last = option_log_id_max(old.committed, stored_last);
        let v = VoteView {
            term: Self::election_term(old, stored_last) as u64,
            committed: false,
            voted_for: old.id@,
        };
        &&& Self::same_settings(old, new)
        &&& new.committed == last
        &&& new.leader == old.leader
        &&& match membership {
            None => {
                &&& new.vote == old.vote
                &&& new.candidate == old.candidate
                &&& r matches Err(Fatal::StorageError(msg)) && msg@ == "Membership is not found"@
            },
            Some(m) => {
                &&& new.candidate matches Some(c) && {
                    &&& c.starting_time == now
                    &&& c.vote@ == v
                    &&& c.last_log_id == last
                    &&& c.membership == m
                    &&& c.progress.ids() == m.ids()
                    &&& c.progress.values() == Seq::new(m.ids().len(), |i: int| false)
                }
                &&& vote_opt_view(new.vote.data()) == Some(v)
                &&& new.vote.last_modified() == Some(now)
                &&& new.vote.lease() == old.election_timeout
                &&& new.vote.lease_enabled()
                &&& r matches Ok(b) && {
                    &&& b.request.vote@ == v
                    &&& b.request.last_log_id == last
                    &&& b.request.lease_ms == 0
                    &&& b.ttl_ms == old.config.election_timeout_min
                    &&& b.sends@.len() == m.ids().len()
                    &&& forall|i: int|
                        0 <= i < b.sends@.len() ==> vote_send_ok(#[trigger] b.sends@[i], m, old.id@, v, i)
                }
            },
        }
    }

    /// Starts an election at `now`, with the last stored log id and the
    /// membership read from the storage.
    pub fn elect(&mut self, now: u64, stored_last: Option<LogId>, membership: Option<Membership>) -> (r:
        Result<VoteBroadcast, Fatal>)
        requires
            old(self).wf(),
            old(self).clock_ok(now),
            option_log_id_max(old(self).committed, stored_last).next_term_spec() <= u64::MAX,
            old(self).vote.data().next_term_spec() <= u64::MAX,
        ensures
            Self::elected(*old(self), *final(self), now, stored_last, membership, r),
            final(self).wf(),
    {
        self.update_committed(stored_last);
        let last = self.get_committed();
        let t1 = last.next_term();
        let t2 = self.vote.get().next_term();
        let term = if t1 >= t2 {
            t1
        } else {
            t2
        };
        let new_vote = Vote::new(term, self.id.clone());
        let m = match membership {
            Some(m) => m,
            None => {
                return Err(Fatal::StorageError(String::from_str("Membership is not found")));
            },
        };
        self.candidate = Some(Candidate::new(now, new_vote.duplicate(), last, m));
        let _ = self.update_vote(&new_vote, self.election_timeout, now);
        let request = RequestVote::new(new_vote.duplicate(), last, 0);
        let ghost v = new_vote@;
        let mut sends: Vec<VoteSend> = Vec::new();
        let cand = self.candidate.take().unwrap();
        let n = cand.membership.len();
        let mut i: usize = 0;
        while i < n
            invariant
                n == cand.membership.ids().len(),
                v == new_vote@,
                v.voted_for == self.id@,
                i <= n,
                sends@.len() == i,
                forall|j: int|
                    0 <= j < i ==> vote_send_ok(#[trigger] sends@[j], cand.membership, self.id@, v, j),
            decreases n - i,
        {
            let (target, node) = cand.membership.entry_at(i);
            if *target == self.id {
                let reply = VoteReply::new(Some(new_vote.duplicate()), None, true);
                sends.push(
                    VoteSend::Local {
                        target: self.id.clone(),
                        reply,
                        sender_vote: new_vote.duplicate(),
                    },
                );
            } else {
                sends.push(VoteSend::Remote { target: target.clone(), node: node.clone() });
            }
            i = i + 1;
        }
        self.candidate = Some(cand);
        Ok(VoteBroadcast { request, ttl_ms: self.config.election_timeout_min, sends })
    }

    /// A quorum granting candidate `c` does not make this node a leader: it
    /// leads already in a vote that `c`'s vote is not above.
    pub open spec fn blocked_by_leader(&self, c: Candidate) -> bool {
        match self.leader {
            Some(l) => !vote_gt(c.vote@, l.vote@),
            None => false,
        }
    }

    /// The reply grants the vote of candidate `c`, which sent the request.
    pub open spec fn grants_candidate(c: Candidate, reply: VoteReply, sender_vote: Vote) -> bool {
        &&& sender_vote@ == c.vote@
        &&& reply.vote_granted
        &&& vote_opt_view(reply.vote) == Some(c.vote@)
    }

    /// With this grant from `target`, a majority has granted `c`'s vote.
    pub open spec fn grant_completes_quorum(c: Candidate, target: Seq<char>) -> bool {
        let vals = c.progress.values().update(c.progress.position(target), true);
        count_true(vals) * 2 > vals.len()
    }

    /// The inputs on which handling the vote reply goes through: a granting
    /// reply comes from a member, and a leader that a quorum establishes can
    /// take its committed vote.
    pub open spec fn vote_reply_admissible(
        &self,
        target: Seq<char>,
        reply: VoteReply,
        sender_vote: Vote,
    ) -> bool {
        match self.candidate {
            Some(c) => Self::grants_candidate(c, reply, sender_vote) ==> {
                &&& c.progress.ids().contains(target)
                &&& (Self::grant_completes_quorum(c, target) && !self.blocked_by_leader(c))
                    ==> option_vote_ge(Some(committed_view(c.vote@)), self.my_vote())
            },
            None => true,
        }
    }

    /// `new` is `old` after the vote reply from `target` to the request
    /// for `sender_vote`: a reply for another vote than the current
    /// candidate's changes nothing; a grant is recorded, and a grant that
    /// completes a quorum makes the node a leader in the committed vote
    /// (unless it leads already in a vote not below); a refusal is handled
    /// as a vote.
    pub open spec fn vote_reply_handled(
        old: Self,
        new: Self,
        target: Seq<char>,
        reply: VoteReply,
        sender_vote: Vote,
        now: u64,
    ) -> bool {
        match old.candidate {
            None => new == old,
            Some(c) => if sender_vote@ != c.vote@ {
                new == old
            } else if Self::grants_candidate(c, reply, sender_vote) {
                let vals = c.progress.values().update(c.progress.position(target), true);
                &&& Self::same_settings(old, new)
                &&& new.committed == old.committed
                &&& if !Self::grant_completes_quorum(c, target) {
                    &&& new.vote == old.vote
                    &&& new.leader == old.leader
                    &&& new.candidate matches Some(nc) && {
                        &&& nc.starting_time == c.starting_time
                        &&& nc.vote == c.vote
                        &&& nc.last_log_id == c.last_log_id
                        &&& nc.membership == c.membership
                        &&& nc.progress.ids() == c.progress.ids()
                        &&& nc.progress.values() == vals
                    }
                } else if old.blocked_by_leader(c) {
                    &&& new.vote == old.vote
                    &&& new.leader == old.leader
                    &&& new.candidate is None
                } else {
                    &&& new.candidate is None
                    &&& new.leader matches Some(nl) && {
                        &&& nl.vote@ == committed_view(c.vote@)
                        &&& nl.last_log_id == c.last_log_id
                        &&& nl.membership@ == c.membership@
                        &&& nl.membership.ids() == c.membership.ids()
                        &&& nl.app_cmd_buf@ == Seq::<D>::empty()
                        &&& nl.tx_buf@ == Seq::<Option<R>>::empty()
                        &&& nl.io_state.submitted_id() is None
                        &&& nl.io_state.flushed_id() is None
                        &&& nl.next_heartbeat == now
                        &&& nl.clock_progress.ids() == c.membership.ids()
                        &&& nl.clock_progress.values() == Seq::new(
                            c.membership.ids().len(),
                            |i: int| None::<u64>,
                        )
                    }
                    &&& vote_opt_view(new.vote.data()) == Some(committed_view(c.vote@))
                    &&& new.vote.last_modified() == Some(now)
                    &&& new.vote.lease() == 0
                    &&& new.vote.lease_enabled()
                }
            } else {
                match reply.vote {
                    Some(v) => Self::vote_updated(old, new, v, 0, now) && new.committed
                        == old.committed,
                    None => new == old,
                }
            },
        }
    }

    /// Handles the reply of `target` to the vote request for `sender_vote`.
    pub fn handle_vote_reply(&mut self, target: &str, reply: VoteReply, sender_vote: &Vote, now: u64)
        requires
            old(self).wf(),
            old(self).clock_ok(now),
            old(self).vote_reply_admissible(target@, reply, *sender_vote),
        ensures
            Self::vote_reply_handled(*old(self), *final(self), target@, reply, *sender_vote, now),
            final(self).wf(),
    {
        let is_current = match &self.candidate {
            Some(c) => sender_vote.same_as(&c.vote),
            None => false,
        };
        if !is_current {
            return;
        }
        let granted = match &self.candidate {
            Some(c) => reply.is_granted_to(&c.vote),
            None => false,
        };
        if granted {
            let mut cand = self.candidate.take().unwrap();
            let quorum = cand.grant_by(target);
            if quorum {
                self.establish(cand, now);
            } else {
                self.candidate = Some(cand);
            }
            return;
        }
        match &reply.vote {
            Some(v) => {
                let _ = self.update_vote(v, 0, now);
            },
            None => {},
        }
    }

    /// Makes this node the leader of candidate `cand`'s committed vote,
    /// unless it leads already in a vote that `cand`'s is not above.
    fn establish(&mut self, cand: Candidate, now: u64)
        requires
            old(self).wf(),
            old(self).clock_ok(now),
            old(self).candidate is None,
            candidate_wf(cand, old(self).id@),
            !old(self).blocked_by_leader(cand) ==> option_vote_ge(
                Some(committed_view(cand.vote@)),
                old(self).my_vote(),
            ),
        ensures
            final(self).wf(),
            Self::same_settings(*old(self), *final(self)),
            final(self).committed == old(self).committed,
            final(self).candidate is None,
            old(self).blocked_by_leader(cand) ==> final(self).vote == old(self).vote && final(self).leader == old(self).leader,
            !old(self).blocked_by_leader(cand) ==> {
                &&& final(self).leader matches Some(nl) && {
                    &&& nl.vote@ == committed_view(cand.vote@)
                    &&& nl.last_log_id == cand.last_log_id
                    &&& nl.membership@ == cand.membership@
                    &&& nl.membership.ids() == cand.membership.ids()
                    &&& nl.app_cmd_buf@ == Seq::<D>::empty()
                    &&& nl.tx_buf@ == Seq::<Option<R>>::empty()
                    &&& nl.io_state.submitted_id() is None
                    &&& nl.io_state.flushed_id() is None
                    &&& nl.next_heartbeat == now
                    &&& nl.clock_progress.ids() == cand.membership.ids()
                    &&& nl.clock_progress.values() == Seq::new(
                        cand.membership.ids().len(),
                        |i: int| None::<u64>,
                    )
                }
                &&& vote_opt_view(final(self).vote.data()) == Some(committed_view(cand.vote@))
                &&& final(self).vote.last_modified() == Some(now)
                &&& final(self).vote.lease() == 0
                &&& final(self).vote.lease_enabled()
            },
    {
        let blocked = match &self.leader {
            Some(l) => match cand.vote.relate(&l.vote) {
                Some(Relation::Greater) => false,
                _ => true,
            },
            None => false,
        };
        if blocked {
            return;
        }
        let vote = cand.vote.commit();
        let leader = Leader::new(vote.duplicate(), cand.membership, cand.last_log_id, now);
        self.leader = Some(leader);
        let _ = self.update_vote(&vote, 0, now);
    }

    /// `new` and `r` are `old` after it reported its metrics at `now`: a
    /// leader first counts itself as acknowledging `now`.
    pub open spec fn metrics_reported(old: Self, new: Self, now: u64, r: Metrics) -> bool {
        &&& Self::same_settings(old, new)
        &&& new.vote == old.vote
        &&& new.committed == old.committed
        &&& new.candidate == old.candidate
        &&& match old.leader {
            None => new.leader is None,
            Some(l) => new.leader matches Some(nl) && {
                let ids = l.clock_progress.ids();
                let pos = l.clock_progress.position(l.vote.voted_for@);
                &&& nl.vote == l.vote
                &&& nl.last_log_id == l.last_log_id
                &&& nl.membership == l.membership
                &&& nl.app_cmd_buf == l.app_cmd_buf
                &&& nl.tx_buf == l.tx_buf
                &&& nl.io_state == l.io_state
                &&& nl.next_heartbeat == l.next_heartbeat
                &&& nl.clock_progress.ids() == ids
                &&& nl.clock_progress.values() == if ids.contains(l.vote.voted_for@) {
                    l.clock_progress.values().update(
                        pos,
                        clock_max(l.clock_progress.values()[pos], Some(now)),
                    )
                } else {
                    l.clock_progress.values()
                }
            },
        }
        &&& r.running_state == Ok::<(), Fatal>(())
        &&& r.id == old.id
        &&& r.vote == old.vote.data()
        &&& r.committed == match old.leader {
            Some(l) => l.io_state.flushed_id(),
            None => old.committed,
        }
        &&& r.server_state == if old.leader is Some {
            ServerState::Leader
        } else if old.candidate is Some {
            ServerState::Candidate
        } else {
            ServerState::Follower
        }
        &&& match r.current_leader {
            Some(x) => old.known_leader() == Some(x@),
            None => old.known_leader() is None,
        }
        &&& r.last_quorum_acked == match new.leader {
            Some(nl) => quorum_value(nl.clock_progress.values()),
            None => None,
        }
        &&& match old.leader {
            None => r.heartbeat is None,
            Some(l) => r.heartbeat matches Some(hb) && hb@.len() == l.clock_progress.ids().len()
                && forall|i: int|
                0 <= i < hb@.len() ==> (#[trigger] hb@[i]).0@ == l.clock_progress.ids()[i] && hb@[i].1
                    == l.clock_progress.values()[i],
        }
    }

    /// Reports the metrics of this node at `now`.
    pub fn report_metrics(&mut self, now: u64) -> (r: Metrics)
        requires
            old(self).wf(),
        ensures
            Self::metrics_reported(*old(self), *final(self), now, r),
            final(self).wf(),
    {
        let mut heartbeat: Option<Vec<(NodeId, Option<u64>)>> = None;
        let mut last_quorum_acked: Option<u64> = None;
        let mut committed = self.committed;
        if self.leader.is_some() {
            let mut leader = self.leader.take().unwrap();
            let n = leader.clock_progress.len();
            let mut hb: Vec<(NodeId, Option<u64>)> = Vec::new();
            let mut i: usize = 0;
            while i < n
                invariant
                    n == leader.clock_progress.ids().len(),
                    n == leader.clock_progress.values().len(),
                    i <= n,
                    hb@.len() == i,
                    forall|j: int|
                        0 <= j < i ==> (#[trigger] hb@[j]).0@ == leader.clock_progress.ids()[j]
                            && hb@[j].1 == leader.clock_progress.values()[j],
                decreases n - i,
            {
                hb.push((leader.clock_progress.id_at(i).clone(), leader.clock_progress.value_at(i)));
                i = i + 1;
            }
            heartbeat = Some(hb);
            last_quorum_acked = leader.last_quorum_acked_time(now);
            committed = leader.io_state.last_flushed();
            self.leader = Some(leader);
        }
        let server_state = if self.leader.is_some() {
            ServerState::Leader
        } else if self.candidate.is_some() {
            ServerState::Candidate
        } else {
            ServerState::Follower
        };
        Metrics {
            running_state: Ok(()),
            id: self.id.clone(),
            vote: duplicate_option(self.vote.get()),
            committed,
            server_state,
            current_leader: self.current_leader(),
            last_quorum_acked,
            heartbeat,
        }
    }
}

/// The send to member `i` of a heartbeat broadcast by leader `l` at `now`:
/// the leader acknowledges itself at once; every other member gets the
/// leader's vote, its flushed log id and a lease of the max election timeout.
pub open spec fn heartbeat_send_ok<D, R>(
    s: HeartbeatSend,
    l: Leader<D, R>,
    config: Config,
    now: u64,
    i: int,
) -> bool {
    let id = l.membership.ids()[i];
    if id == l.vote.voted_for@ {
        s matches HeartbeatSend::Local { leader_vote, sending_time, target } && leader_vote == l.vote
            && sending_time == now && target@ == id
    } else {
        s matches HeartbeatSend::Remote {
            target,
            node,
            request,
            timeout_ms,
            leader_vote,
            sending_time,
        } && target@ == id && node@ == l.membership@[id] && request == (RequestVote {
            vote: l.vote,
            last_log_id: l.io_state.flushed_id(),
            lease_ms: config.election_timeout_max,
        }) && timeout_ms == config.heartbeat_interval && leader_vote == l.vote && sending_time
            == now
    }
}

/// A heartbeat to send.
#[derive(Debug)]
pub enum HeartbeatSend {
    /// The leader's own acknowledgement: deliver at once a heartbeat reply of
    /// `leader_vote` from `target`, sent at `sending_time`.
    Local { leader_vote: Vote, sending_time: u64, target: NodeId },
    /// Send `request` to `target` at `node` within `timeout_ms`; once that
    /// succeeds, deliver a heartbeat reply of `leader_vote` from `target`,
    /// sent at `sending_time`.
    Remote {
        target: NodeId,
        node: Node,
        request: RequestVote,
        timeout_ms: u64,
        leader_vote: Vote,
        sending_time: u64,
    },
}

/// The send to member `i` of `m` in an election of `v` by node `id`: the
/// node grants its own vote at once; every other member is asked.
pub open spec fn vote_send_ok(s: VoteSend, m: Membership, id: Seq<char>, v: VoteView, i: int) -> bool {
    let target_id = m.ids()[i];
    if target_id == id {
        s matches VoteSend::Local { target, reply, sender_vote } && target@ == id && vote_opt_view(
            reply.vote,
        ) == Some(v) && reply.vote_granted && reply.last_log_id is None && sender_vote@ == v
    } else {
        s matches VoteSend::Remote { target, node } && target@ == target_id && node@ == m@[target_id]
    }
}

/// What an election asks to be sent.
#[derive(Debug)]
pub struct VoteBroadcast {
    /// The request to send.
    pub request: RequestVote,
    /// How long to wait for each reply, in milliseconds.
    pub ttl_ms: u64,
    /// One send per member, in ascending order of ids.
    pub sends: Vec<VoteSend>,
}

/// One send of an election.
#[derive(Debug)]
pub enum VoteSend {
    /// The node grants its own vote: deliver at once the reply of `target`
    /// for `sender_vote`.
    Local { target: NodeId, reply: VoteReply, sender_vote: Vote },
    /// Send the request to `target` at `node`; deliver its reply.
    Remote { target: NodeId, node: Node },
}

/// What a tick leads to.
#[derive(Debug)]
pub enum TickAction {
    /// Nothing to do.
    Idle,
    /// Elect this node: read the last log id and the membership from the
    /// storage, then call [`Core::elect`].
    Elect,
    /// Send these heartbeats.
    Heartbeat(Vec<HeartbeatSend>),
}

/// The values that are present, in order.
pub open spec fn present<R>(s: Seq<Option<R>>) -> Seq<R>
    decreases s.len(),
{
    if s.len() == 0 {
        Seq::empty()
    } else {
        match s.last() {
            Some(x) => present(s.drop_last()).push(x),
            None => present(s.drop_last()),
        }
    }
}

/// The values that are present, in order.
pub fn take_present<R>(s: Vec<Option<R>>) -> (r: Vec<R>)
    ensures
        r@ == present(s@),
{
    let ghost orig = s@;
    let mut s = s;
    let mut rev: Vec<R> = Vec::new();
    let mut out: Vec<R> = Vec::new();
    while s.len() > 0
        invariant
            present(orig) == present(s@) + rev@.reverse(),
        decreases s@.len(),
    {
        let ghost before = s@;
        let x = s.pop().unwrap();
        proof {
            assert(s@ == before.drop_last());
        }
        match x {
            Some(v) => {
                let ghost rv = rev@;
                rev.push(v);
                proof {
                    assert(rev@.reverse() =~= seq![v] + rv.reverse());
                    assert(present(before) == present(s@).push(v));
                    assert(present(s@).push(v) + rv.reverse() =~= present(s@) + (seq![v]
                        + rv.reverse()));
                }
            },
            None => {},
        }
    }
    assert(present(s@) =~= Seq::<R>::empty()) by {
        assert(s@.len() == 0);
    }
    while rev.len() > 0
        invariant
            present(orig) == out@ + rev@.reverse(),
        decreases rev@.len(),
    {
        let ghost before = rev@;
        let v = rev.pop().unwrap();
        proof {
            assert(rev@ == before.drop_last());
            assert(before.reverse() =~= seq![v] + rev@.reverse());
        }
        out.push(v);
        proof {
            assert(out@ + rev@.reverse() =~= out@.drop_last() + before.reverse());
        }
    }
    assert(rev@.reverse() =~= Seq::<R>::empty());
    assert(out@ + rev@.reverse() =~= out@);
    out
}

/// What a write request leads to.
#[derive(Debug)]
pub enum WriteOutcome<D, R> {
    /// This node does not lead: answer the responder, if any, with the error.
    Forward { responder: Option<R>, error: ForwardToLeader },
    /// The command waits for the write in flight to complete.
    Buffered,
    /// Write the entry; once the write completes, answer the responders.
    Submit { entry: Entry<D>, responders: Vec<Option<R>> },
}

} // verus!
