//! The events a node handles, and the dispatch of each to its handler.

use vstd::prelude::*;

use crate::base::text::{decimal, push_decimal, push_str};
use crate::errors::Fatal;
use crate::raft_core::engine::{Core, HeartbeatSend, TickAction, WriteOutcome};
use crate::storage::log::entry::Entry;
use crate::storage::log::log_id::{log_id_text, option_log_id_le, LogId, LogIdOptionExt};
use crate::storage::membership::membership::{ids_text, Membership};
use crate::storage::membership::NodeId;
use crate::storage::vote::{vote_text, Vote};
use crate::suraft::request_vote::{request_vote_text, vote_reply_text, RequestVote, VoteReply};

verus! {

/// A message to the node from its own components.
#[derive(Debug)]
pub enum Notification<R> {
    /// The reply of `target` to the vote request for `sender_vote`.
    RequestVoteReply { target: NodeId, reply: VoteReply, sender_vote: Vote },
    /// The local storage failed, as `error` describes; the node shuts down.
    StorageError { error: String },
    /// The write of `log_id` completed (`done`) or was refused.
    IOCompleted { log_id: LogId, responders: Vec<Option<R>>, done: bool },
    /// Member `target` acknowledged `leader_vote` at `sending_time`.
    HeartbeatReply { leader_vote: Vote, sending_time: u64, target: NodeId },
    /// The `i`th tick.
    Tick { i: u64 },
}

impl<R> Notification<R> {
    /// Records whether the write of an `IOCompleted` notification completed.
    pub fn set_io_result(&mut self, done: bool)
        requires
            *old(self) is IOCompleted,
        ensures
            match (*old(self), *final(self)) {
                (
                    Notification::IOCompleted { log_id: a, responders: b, done: _ },
                    Notification::IOCompleted { log_id: x, responders: y, done: z },
                ) => a == x && b == y && z == done,
                _ => false,
            },
    {
        match self {
            Notification::IOCompleted { done: d, .. } => {
                *d = done;
            },
            _ => {},
        }
    }

    /// The notification that reports how the write of an `IOCompleted`
    /// notification ended: a storage failure as `StorageError`, otherwise the
    /// notification with the outcome recorded.
    pub fn io_flushed(self, result: Result<bool, String>) -> (r: Notification<R>)
        requires
            self is IOCompleted,
        ensures
            match result {
                Err(e) => r == Notification::<R>::StorageError { error: e },
                Ok(done) => match (self, r) {
                    (
                        Notification::IOCompleted { log_id: a, responders: b, done: _ },
                        Notification::IOCompleted { log_id: x, responders: y, done: z },
                    ) => a == x && b == y && z == done,
                    _ => false,
                },
            },
    {
        match result {
            Err(e) => Notification::StorageError { error: e },
            Ok(done) => {
                let mut n = self;
                n.set_io_result(done);
                n
            },
        }
    }
}

/// A notification rendered for the log; times are in milliseconds.
pub open spec fn notification_text<R>(n: Notification<R>) -> Seq<char> {
    match n {
        Notification::RequestVoteReply { target, reply, sender_vote } => "VoteResponse: from target="@
            + target@ + ", to candidate_vote: "@ + vote_text(sender_vote@) + ", "@
            + vote_reply_text(reply),
        Notification::StorageError { error } => "StorageError: "@ + error@,
        Notification::IOCompleted { log_id, responders, done } => "IOFlushed: "@ + log_id_text(
            log_id,
        ) + "; done: "@ + if done {
            "true"@
        } else {
            "false"@
        },
        Notification::HeartbeatReply { leader_vote, sending_time, target } =>
            "HeartbeatProgress: target="@ + target@ + ", leader_vote: "@ + vote_text(leader_vote@)
            + ", sending_time: "@ + decimal(sending_time as nat),
        Notification::Tick { i } => "Tick "@ + decimal(i as nat),
    }
}

impl<R> Notification<R> {
    /// The notification rendered for the log.
    pub fn display(&self) -> (s: String)
        ensures
            s@ == notification_text(*self),
    {
        match self {
            Notification::RequestVoteReply { target, reply, sender_vote } => {
                let mut s = String::from_str("VoteResponse: from target=");
                push_str(&mut s, target.as_str());
                push_str(&mut s, ", to candidate_vote: ");
                let v = sender_vote.display();
                push_str(&mut s, v.as_str());
                push_str(&mut s, ", ");
                let r = reply.display();
                push_str(&mut s, r.as_str());
                s
            },
            Notification::StorageError { error } => {
                let mut s = String::from_str("StorageError: ");
                push_str(&mut s, error.as_str());
                s
            },
            Notification::IOCompleted { log_id, responders, done } => {
                let mut s = String::from_str("IOFlushed: ");
                let l = log_id.display();
                push_str(&mut s, l.as_str());
                push_str(&mut s, "; done: ");
                if *done {
                    push_str(&mut s, "true");
                } else {
                    push_str(&mut s, "false");
                }
                s
            },
            Notification::HeartbeatReply { leader_vote, sending_time, target } => {
                let mut s = String::from_str("HeartbeatProgress: target=");
                push_str(&mut s, target.as_str());
                push_str(&mut s, ", leader_vote: ");
                let v = leader_vote.display();
                push_str(&mut s, v.as_str());
                push_str(&mut s, ", sending_time: ");
                push_decimal(&mut s, *sending_time);
                s
            },
            Notification::Tick { i } => {
                let mut s = String::from_str("Tick ");
                push_decimal(&mut s, *i);
                s
            },
        }
    }
}

/// What a notification leads to.
#[derive(Debug)]
pub enum NotifyAction<D, R> {
    /// Nothing to do.
    Nothing,
    /// Answer each responder with `log_id`; then write `next`, where
    /// commands were waiting, and answer its responders once that completes.
    Respond { log_id: LogId, responders: Vec<R>, next: Option<(Entry<D>, Vec<Option<R>>)> },
    /// Do what the tick asks.
    Tick(TickAction),
}

/// A request of the application to the node.
#[derive(Debug)]
pub enum ApiMessage<D, R> {
    /// A vote request from another node.
    RequestVote { rpc: RequestVote },
    /// Write `app_data`, answering through `responder`.
    Write { app_data: D, responder: R },
    /// Use `membership` from now on.
    ChangeMembership { membership: Membership },
    /// Elect this node now.
    Elect,
    /// Send a heartbeat now.
    BroadcastHeartbeat,
}

/// A request of the application rendered for the log.
pub open spec fn api_message_text<D, R>(m: ApiMessage<D, R>) -> Seq<char> {
    match m {
        ApiMessage::RequestVote { rpc } => "RequestVote: "@ + request_vote_text(rpc),
        ApiMessage::Write { app_data, responder } => "Write"@,
        ApiMessage::ChangeMembership { membership } => "ChangeMembership to: "@ + seq!['{']
            + ids_text(membership.ids()) + seq!['}'],
        ApiMessage::Elect => "Elect"@,
        ApiMessage::BroadcastHeartbeat => "BroadcastHeartbeat"@,
    }
}

impl<D, R> ApiMessage<D, R> {
    /// The request rendered for the log.
    pub fn display(&self) -> (s: String)
        ensures
            s@ == api_message_text(*self),
    {
        match self {
            ApiMessage::RequestVote { rpc } => {
                let mut s = String::from_str("RequestVote: ");
                let r = rpc.display();
                push_str(&mut s, r.as_str());
                s
            },
            ApiMessage::Write { .. } => String::from_str("Write"),
            ApiMessage::ChangeMembership { membership } => {
                let mut s = String::from_str("ChangeMembership to: ");
                let m = membership.summary();
                push_str(&mut s, m.as_str());
                s
            },
            ApiMessage::Elect => String::from_str("Elect"),
            ApiMessage::BroadcastHeartbeat => String::from_str("BroadcastHeartbeat"),
        }
    }
}

/// What a request of the application leads to.
#[derive(Debug)]
pub enum ApiAction<D, R> {
    /// Send this reply to the requester.
    Reply(VoteReply),
    /// Do what the write asks.
    Write(WriteOutcome<D, R>),
    /// Store this membership, then answer the requester.
    PersistMembership(Membership),
    /// Elect this node: read the storage, then call [`Core::elect`].
    Elect,
    /// Send these heartbeats.
    Heartbeat(Vec<HeartbeatSend>),
    /// Nothing to do.
    Nothing,
}

impl<D, R> Core<D, R> {
    /// The inputs on which handling the notification goes through.
    pub open spec fn notification_admissible(
        &self,
        n: Notification<R>,
        now: u64,
        enable_heartbeat: bool,
    ) -> bool {
        match n {
            Notification::RequestVoteReply { target, reply, sender_vote } => self.vote_reply_admissible(
                target@,
                reply,
                sender_vote,
            ),
            Notification::IOCompleted { log_id, responders, done } => done ==> match self.leader {
                Some(l) => {
                    &&& option_log_id_le(l.io_state.flushed_id(), Some(log_id))
                    &&& Self::resubmits(l, log_id) ==> l.last_log_id.next_index_spec() <= u64::MAX
                },
                None => true,
            },
            Notification::HeartbeatReply { leader_vote, sending_time, target } => match self.leader {
                Some(l) => leader_vote@ == l.vote@ ==> l.clock_progress.ids().contains(target@),
                None => true,
            },
            Notification::Tick { i } => self.should_heartbeat(now, enable_heartbeat) ==> now
                + self.config.heartbeat_interval <= u64::MAX,
            Notification::StorageError { error } => true,
        }
    }

    /// `new` and `r` are `old` after it handled notification `n` at `now`.
    pub open spec fn notification_handled(
        old: Self,
        new: Self,
        n: Notification<R>,
        now: u64,
        enable_elect: bool,
        enable_heartbeat: bool,
        r: Result<NotifyAction<D, R>, Fatal>,
    ) -> bool {
        match n {
            Notification::RequestVoteReply { target, reply, sender_vote } => {
                &&& Self::vote_reply_handled(old, new, target@, reply, sender_vote, now)
                &&& r matches Ok(NotifyAction::Nothing)
            },
            Notification::StorageError { error } => {
                &&& new == old
                &&& r == Err::<NotifyAction<D, R>, Fatal>(Fatal::StorageError(error))
            },
            Notification::IOCompleted { log_id, responders, done } => r matches Ok(
                NotifyAction::Respond { log_id: l, responders: out, next },
            ) && l == log_id && Self::io_completed(old, new, log_id, responders@, done, out@, next),
            Notification::HeartbeatReply { leader_vote, sending_time, target } => {
                &&& Self::heartbeat_reply_handled(old, new, leader_vote, sending_time, target@)
                &&& r matches Ok(NotifyAction::Nothing)
            },
            Notification::Tick { i } => r matches Ok(NotifyAction::Tick(t)) && Self::ticked(
                old,
                new,
                now,
                enable_elect,
                enable_heartbeat,
                t,
            ),
        }
    }

    /// Handles a notification at `now`; election and heartbeat are enabled
    /// or not as the runtime config says.
    pub fn handle_notification(
        &mut self,
        n: Notification<R>,
        now: u64,
        enable_elect: bool,
        enable_heartbeat: bool,
    ) -> (r: Result<NotifyAction<D, R>, Fatal>)
        requires
            old(self).wf(),
            old(self).clock_ok(now),
            old(self).notification_admissible(n, now, enable_heartbeat),
        ensures
            Self::notification_handled(
                *old(self),
                *final(self),
                n,
                now,
                enable_elect,
                enable_heartbeat,
                r,
            ),
            final(self).wf(),
    {
        match n {
            Notification::RequestVoteReply { target, reply, sender_vote } => {
                self.handle_vote_reply(target.as_str(), reply, &sender_vote, now);
                Ok(NotifyAction::Nothing)
            },
            Notification::StorageError { error } => Err(Fatal::StorageError(error)),
            Notification::IOCompleted { log_id, responders, done } => {
                let (out, next) = self.handle_io_completed(log_id, responders, done);
                Ok(NotifyAction::Respond { log_id, responders: out, next })
            },
            Notification::HeartbeatReply { leader_vote, sending_time, target } => {
                self.handle_heartbeat_reply(&leader_vote, sending_time, target.as_str());
                Ok(NotifyAction::Nothing)
            },
            Notification::Tick { i } => {
                let t = self.on_tick(now, enable_elect, enable_heartbeat);
                Ok(NotifyAction::Tick(t))
            },
        }
    }

    /// The inputs on which handling the request goes through.
    pub open spec fn api_admissible(&self, msg: ApiMessage<D, R>, now: u64) -> bool {
        match msg {
            ApiMessage::Write { app_data, responder } => match self.leader {
                Some(l) => l.last_log_id.next_index_spec() <= u64::MAX,
                None => true,
            },
            ApiMessage::BroadcastHeartbeat => self.leader is Some ==> now
                + self.config.heartbeat_interval <= u64::MAX,
            _ => true,
        }
    }

    /// `new` and `r` are `old` after it handled request `msg` at `now`.
    pub open spec fn api_handled(
        old: Self,
        new: Self,
        msg: ApiMessage<D, R>,
        now: u64,
        r: ApiAction<D, R>,
    ) -> bool {
        match msg {
            ApiMessage::RequestVote { rpc } => r matches ApiAction::Reply(reply)
                && Self::request_vote_handled(old, new, rpc, now, reply),
            ApiMessage::Write { app_data, responder } => r matches ApiAction::Write(w)
                && Self::write_handled(old, new, app_data, Some(responder), w),
            ApiMessage::ChangeMembership { membership } => {
                &&& Self::same_settings(old, new)
                &&& new.vote == old.vote
                &&& new.committed == old.committed
                &&& new.candidate == old.candidate
                &&& match old.leader {
                    None => new.leader is None,
                    Some(l) => new.leader matches Some(nl) && {
                        &&& nl.vote == l.vote
                        &&& nl.last_log_id == l.last_log_id
                        &&& nl.membership@ == membership@
                        &&& nl.membership.ids() == membership.ids()
                        &&& nl.app_cmd_buf == l.app_cmd_buf
                        &&& nl.tx_buf == l.tx_buf
                        &&& nl.io_state == l.io_state
                        &&& nl.next_heartbeat == l.next_heartbeat
                        &&& nl.clock_progress == l.clock_progress
                    },
                }
                &&& r == ApiAction::<D, R>::PersistMembership(membership)
            },
            ApiMessage::Elect => {
                &&& new == old
                &&& if old.leader is Some {
                    r is Nothing
                } else {
                    r is Elect
                }
            },
            ApiMessage::BroadcastHeartbeat => if old.leader is Some {
                r matches ApiAction::Heartbeat(sends) && Self::heartbeat_broadcast(
                    old,
                    new,
                    now,
                    sends@,
                )
            } else {
                new == old && r is Nothing
            },
        }
    }

    /// Handles a request of the application at `now`.
    pub fn handle_api_msg(&mut self, msg: ApiMessage<D, R>, now: u64) -> (r: ApiAction<D, R>)
        requires
            old(self).wf(),
            old(self).clock_ok(now),
            old(self).api_admissible(msg, now),
        ensures
            Self::api_handled(*old(self), *final(self), msg, now, r),
            final(self).wf(),
    {
        match msg {
            ApiMessage::RequestVote { rpc } => ApiAction::Reply(self.handle_request_vote(rpc, now)),
            ApiMessage::Write { app_data, responder } => ApiAction::Write(
                self.write_entry(app_data, Some(responder)),
            ),
            ApiMessage::ChangeMembership { membership } => {
                self.change_membership(&membership);
                ApiAction::PersistMembership(membership)
            },
            ApiMessage::Elect => {
                if self.is_leader() {
                    ApiAction::Nothing
                } else {
                    ApiAction::Elect
                }
            },
            ApiMessage::BroadcastHeartbeat => {
                if self.is_leader() {
                    ApiAction::Heartbeat(self.broadcast_heartbeat(now))
                } else {
                    ApiAction::Nothing
                }
            },
        }
    }
}

} // verus!
