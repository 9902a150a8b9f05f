//! The two roles a node takes besides following: candidate and leader.

use vstd::prelude::*;

use crate::raft_core::progress::{clock_max, count_true, quorum_value, Progress};
use crate::storage::log::io_state::IOState;
use crate::storage::log::log_id::LogId;
use crate::storage::membership::membership::Membership;
use crate::storage::vote::Vote;

verus! {

/// A node asking the members for votes.
#[derive(Debug)]
pub struct Candidate {
    /// When the voting started.
    pub starting_time: u64,
    /// The vote asked for.
    pub vote: Vote,
    /// The last log id known when the voting started.
    pub last_log_id: Option<LogId>,
    /// Which members have granted the vote.
    pub progress: Progress<bool>,
    /// The members asked.
    pub membership: Membership,
}

impl Candidate {
    /// A candidate for `vote`, which no member has granted yet.
    pub fn new(starting_time: u64, vote: Vote, last_log_id: Option<LogId>, membership: Membership) -> (r:
        Candidate)
        ensures
            r.starting_time == starting_time,
            r.vote == vote,
            r.last_log_id == last_log_id,
            r.membership == membership,
            r.progress.ids() == membership.ids(),
            r.progress.values() == Seq::new(membership.ids().len(), |i: int| false),
    {
        let progress = Progress::new(&membership, false);
        Candidate { starting_time, vote, last_log_id, progress, membership }
    }

    pub fn membership(&self) -> (r: &Membership)
        ensures
            *r == self.membership,
    {
        &self.membership
    }

    pub fn vote_ref(&self) -> (r: &Vote)
        ensures
            *r == self.vote,
    {
        &self.vote
    }

    /// Records that member `target` granted the vote; returns whether a
    /// majority of the members has granted it.
    pub fn grant_by(&mut self, target: &str) -> (r: bool)
        requires
            old(self).progress.ids().contains(target@),
        ensures
            final(self).starting_time == old(self).starting_time,
            final(self).vote == old(self).vote,
            final(self).last_log_id == old(self).last_log_id,
            final(self).membership == old(self).membership,
            final(self).progress.ids() == old(self).progress.ids(),
            final(self).progress.values() == old(self).progress.values().update(
                old(self).progress.position(target@),
                true,
            ),
            r == (count_true(final(self).progress.values()) * 2 > final(self).progress.values().len()),
    {
        match self.progress.update(target, true) {
            Ok(g) => g,
            Err(g) => g,
        }
    }
}

/// A node whose vote a quorum has granted: it proposes log entries.
#[derive(Debug)]
pub struct Leader<D, R> {
    /// The vote this leader works in.
    pub vote: Vote,
    /// The last log id proposed; it may not be flushed yet.
    pub last_log_id: Option<LogId>,
    /// The members.
    pub membership: Membership,
    /// Commands waiting for the next write.
    pub app_cmd_buf: Vec<D>,
    /// The responders of the waiting commands.
    pub tx_buf: Vec<Option<R>>,
    /// The progress of the log writes.
    pub io_state: IOState,
    /// When to send the next heartbeat.
    pub next_heartbeat: u64,
    /// The latest time each member acknowledged.
    pub clock_progress: Progress<Option<u64>>,
}

impl<D, R> Leader<D, R> {
    /// A leader of `vote` over `membership`, whose last proposed log id is
    /// `last_log_id`, created at `now`.
    pub fn new(vote: Vote, membership: Membership, last_log_id: Option<LogId>, now: u64) -> (r: Leader<
        D,
        R,
    >)
        ensures
            r.vote == vote,
            r.last_log_id == last_log_id,
            r.membership@ == membership@,
            r.membership.ids() == membership.ids(),
            r.app_cmd_buf@ == Seq::<D>::empty(),
            r.tx_buf@ == Seq::<Option<R>>::empty(),
            r.io_state.submitted_id() is None,
            r.io_state.flushed_id() is None,
            r.next_heartbeat == now,
            r.clock_progress.ids() == membership.ids(),
            r.clock_progress.values() == Seq::new(membership.ids().len(), |i: int| None::<u64>),
    {
        let clock_progress = Progress::new(&membership, None);
        Leader {
            vote,
            last_log_id,
            membership: membership.duplicate(),
            app_cmd_buf: Vec::new(),
            tx_buf: Vec::new(),
            io_state: IOState::new(),
            next_heartbeat: now,
            clock_progress,
        }
    }

    pub fn committed_vote_ref(&self) -> (r: &Vote)
        ensures
            *r == self.vote,
    {
        &self.vote
    }

    /// The latest time acknowledged by a quorum, after counting the leader
    /// itself as acknowledging `now` (where it is a member).
    pub fn last_quorum_acked_time(&mut self, now: u64) -> (r: Option<u64>)
        ensures
            final(self).vote == old(self).vote,
            final(self).last_log_id == old(self).last_log_id,
            final(self).membership == old(self).membership,
            final(self).app_cmd_buf == old(self).app_cmd_buf,
            final(self).tx_buf == old(self).tx_buf,
            final(self).io_state == old(self).io_state,
            final(self).next_heartbeat == old(self).next_heartbeat,
            final(self).clock_progress.ids() == old(self).clock_progress.ids(),
            old(self).clock_progress.ids().contains(old(self).vote.voted_for@) ==> final(self).clock_progress.values() == old(self).clock_progress.values().update(
                old(self).clock_progress.position(old(self).vote.voted_for@),
                clock_max(
                    old(self).clock_progress.values()[old(self).clock_progress.position(
                        old(self).vote.voted_for@,
                    )],
                    Some(now),
                ),
            ),
            !old(self).clock_progress.ids().contains(old(self).vote.voted_for@) ==> final(self).clock_progress.values() == old(self).clock_progress.values(),
            r == quorum_value(final(self).clock_progress.values()),
    {
        let res = self.clock_progress.increase_to(self.vote.voted_for.as_str(), Some(now));
        match res {
            Ok(x) => x,
            Err(x) => x,
        }
    }
}

} // verus!
