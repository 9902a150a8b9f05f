//! What holds of a node across its handlers: its vote and its stored log id
//! never go back, it grants one candidate per term, and it leads only after a
//! quorum granted its vote.

use vstd::prelude::*;

use crate::base::text::Relation;
use crate::errors::Fatal;
use crate::raft_core::dispatch::{ApiAction, ApiMessage, Notification, NotifyAction};
use crate::raft_core::engine::{
    committed_view, present, Core, HeartbeatSend, TickAction, VoteBroadcast, WriteOutcome,
};
use crate::raft_core::progress::{count_true, lemma_majorities_intersect};
use crate::storage::log::log_id::{
    lemma_option_log_id_order, option_log_id_le, option_log_id_max, LogId, LogIdOptionExt,
};
use crate::storage::log::entry::Entry;
use crate::storage::membership::membership::Membership;
use crate::storage::vote::vote_ext::VoteExt;
use crate::storage::vote::{
    lemma_option_vote_order, lemma_vote_order, option_vote_ge, option_vote_relation, vote_opt_view,
    Vote,
};
use crate::suraft::request_vote::{RequestVote, VoteReply};

verus! {

/// Handling a vote, whatever the outcome, leaves the node's vote at or above
/// where it was.
pub proof fn lemma_vote_update_monotonic<D, R>(
    old: Core<D, R>,
    new: Core<D, R>,
    v: Vote,
    lease: u64,
    now: u64,
)
    requires
        Core::vote_updated(old, new, v, lease, now),
    ensures
        option_vote_ge(new.my_vote(), old.my_vote()),
{
    lemma_option_vote_order(old.my_vote(), old.my_vote(), old.my_vote());
}

/// The stored log id only grows when it takes the greater of itself and
/// another.
proof fn lemma_max_above(a: Option<LogId>, b: Option<LogId>)
    ensures
        option_log_id_le(a, option_log_id_max(a, b)),
        option_log_id_le(b, option_log_id_max(a, b)),
{
    lemma_option_log_id_order(a, b, a);
}

/// Whatever notification a node handles, its vote does not go back and its
/// stored log id does not go back.
pub proof fn lemma_notification_monotonic<D, R>(
    old: Core<D, R>,
    new: Core<D, R>,
    n: Notification<R>,
    now: u64,
    enable_elect: bool,
    enable_heartbeat: bool,
    r: Result<NotifyAction<D, R>, Fatal>,
)
    requires
        old.wf(),
        old.notification_admissible(n, now, enable_heartbeat),
        Core::notification_handled(old, new, n, now, enable_elect, enable_heartbeat, r),
    ensures
        option_vote_ge(new.my_vote(), old.my_vote()),
        option_log_id_le(old.committed, new.committed),
{
    lemma_option_vote_order(old.my_vote(), old.my_vote(), old.my_vote());
    lemma_option_log_id_order(old.committed, old.committed, old.committed);
    match n {
        Notification::RequestVoteReply { target, reply, sender_vote } => {
            if let Some(c) = old.candidate {
                if sender_vote@ == c.vote@ && !Core::<D, R>::grants_candidate(c, reply, sender_vote) {
                    if let Some(v) = reply.vote {
                        lemma_vote_update_monotonic(old, new, v, 0, now);
                    }
                }
            }
        },
        Notification::IOCompleted { log_id, responders, done } => {
            lemma_max_above(old.committed, Some(log_id));
        },
        _ => {},
    }
}

/// Whatever request of the application a node handles, its vote does not go
/// back and its stored log id does not go back.
pub proof fn lemma_api_monotonic<D, R>(
    old: Core<D, R>,
    new: Core<D, R>,
    msg: ApiMessage<D, R>,
    now: u64,
    r: ApiAction<D, R>,
)
    requires
        Core::api_handled(old, new, msg, now, r),
    ensures
        option_vote_ge(new.my_vote(), old.my_vote()),
        option_log_id_le(old.committed, new.committed),
{
    lemma_option_vote_order(old.my_vote(), old.my_vote(), old.my_vote());
    lemma_option_log_id_order(old.committed, old.committed, old.committed);
    match msg {
        ApiMessage::RequestVote { rpc } => {
            if new != old {
                lemma_vote_update_monotonic(old, new, rpc.vote, rpc.lease_ms, now);
                lemma_max_above(old.committed, rpc.last_log_id);
            }
        },
        _ => {},
    }
}

/// An election raises the node's vote above the one it held, and its stored
/// log id does not go back.
pub proof fn lemma_election_raises_vote<D, R>(
    old: Core<D, R>,
    new: Core<D, R>,
    now: u64,
    stored_last: Option<LogId>,
    membership: Option<Membership>,
    r: Result<VoteBroadcast, Fatal>,
)
    requires
        option_log_id_max(old.committed, stored_last).next_term_spec() <= u64::MAX,
        old.vote.data().next_term_spec() <= u64::MAX,
        Core::elected(old, new, now, stored_last, membership, r),
    ensures
        option_vote_ge(new.my_vote(), old.my_vote()),
        membership is Some ==> option_vote_relation(new.my_vote(), old.my_vote()) == Some(
            Relation::Greater,
        ),
        option_log_id_le(old.committed, new.committed),
{
    lemma_option_vote_order(old.my_vote(), old.my_vote(), old.my_vote());
    lemma_max_above(old.committed, stored_last);
    assert(Core::<D, R>::election_term(old, stored_last) >= old.vote.data().next_term_spec());
}

/// A granted vote request leaves the node holding exactly the requested vote,
/// and the reply carries it.
pub proof fn lemma_granted_holds_requested_vote<D, R>(
    old: Core<D, R>,
    new: Core<D, R>,
    req: RequestVote,
    now: u64,
    r: VoteReply,
)
    requires
        Core::request_vote_handled(old, new, req, now, r),
        r.vote_granted,
    ensures
        new.my_vote() == Some(req.vote@),
        vote_opt_view(r.vote) == Some(req.vote@),
{
    match old.my_vote() {
        Some(m) => lemma_vote_order(req.vote@, m, m),
        None => {},
    }
}

/// The vote in a reply to a vote request is never below the requested vote,
/// whether the request was granted or refused.
pub proof fn lemma_reply_vote_not_below_request<D, R>(
    old: Core<D, R>,
    new: Core<D, R>,
    req: RequestVote,
    now: u64,
    r: VoteReply,
)
    requires
        Core::request_vote_handled(old, new, req, now, r),
    ensures
        option_vote_ge(vote_opt_view(r.vote), Some(req.vote@)),
{
    lemma_option_vote_order(Some(req.vote@), Some(req.vote@), Some(req.vote@));
}

/// A node grants at most one candidate per term: after granting a request,
/// and with its vote not gone back since, a second granted request in the
/// same term for an uncommitted vote is for the same node.
pub proof fn lemma_one_grant_per_term<D, R>(
    s0: Core<D, R>,
    s1: Core<D, R>,
    req1: RequestVote,
    now1: u64,
    r1: VoteReply,
    s2: Core<D, R>,
    s3: Core<D, R>,
    req2: RequestVote,
    now2: u64,
    r2: VoteReply,
)
    requires
        Core::request_vote_handled(s0, s1, req1, now1, r1),
        r1.vote_granted,
        option_vote_ge(s2.my_vote(), s1.my_vote()),
        Core::request_vote_handled(s2, s3, req2, now2, r2),
        r2.vote_granted,
        req1.vote.term == req2.vote.term,
        !req1.vote.committed,
        !req2.vote.committed,
    ensures
        req1.vote.voted_for@ == req2.vote.voted_for@,
{
    lemma_granted_holds_requested_vote(s0, s1, req1, now1, r1);
    lemma_option_vote_order(Some(req2.vote@), s2.my_vote(), s1.my_vote());
}

/// A notification makes a node a leader only where it is a reply granting
/// the current candidate's vote that completes a quorum of its members; the
/// leader then works in that vote, committed.
pub proof fn lemma_leadership_needs_quorum<D, R>(
    old: Core<D, R>,
    new: Core<D, R>,
    n: Notification<R>,
    now: u64,
    enable_elect: bool,
    enable_heartbeat: bool,
    r: Result<NotifyAction<D, R>, Fatal>,
)
    requires
        Core::notification_handled(old, new, n, now, enable_elect, enable_heartbeat, r),
        old.leader is None,
        new.leader is Some,
    ensures
        match n {
            Notification::RequestVoteReply { target, reply, sender_vote } => match old.candidate {
                Some(c) => {
                    &&& Core::<D, R>::grants_candidate(c, reply, sender_vote)
                    &&& Core::<D, R>::grant_completes_quorum(c, target@)
                    &&& new.leader->0.vote@ == committed_view(c.vote@)
                },
                None => false,
            },
            _ => false,
        },
{
}

/// No request of the application, and no election, makes a node a leader.
pub proof fn lemma_no_leadership_without_votes<D, R>(
    old: Core<D, R>,
    new: Core<D, R>,
    msg: ApiMessage<D, R>,
    now: u64,
    r: ApiAction<D, R>,
    stored_last: Option<LogId>,
    membership: Option<Membership>,
    b: Result<VoteBroadcast, Fatal>,
)
    requires
        old.leader is None,
    ensures
        Core::api_handled(old, new, msg, now, r) ==> new.leader is None,
        Core::elected(old, new, now, stored_last, membership, b) ==> new.leader is None,
{
}

/// A leader proposes log entries without holes and in increasing order: a
/// submitted entry takes the index after the leader's last proposed one, and
/// its log id comes after it.
pub proof fn lemma_entries_consecutive<D, R>(
    old: Core<D, R>,
    new: Core<D, R>,
    cmd: D,
    resp: Option<R>,
    r: WriteOutcome<D, R>,
)
    requires
        old.wf(),
        match old.leader {
            Some(l) => l.last_log_id.next_index_spec() <= u64::MAX,
            None => true,
        },
        Core::write_handled(old, new, cmd, resp, r),
        r is Submit,
    ensures
        match (old.leader, r) {
            (Some(l), WriteOutcome::Submit { entry, responders }) => {
                &&& entry.log_id.index == l.last_log_id.next_index_spec()
                &&& option_log_id_le(l.last_log_id, Some(entry.log_id))
                &&& l.last_log_id != Some(entry.log_id)
                &&& new.leader->0.last_log_id == Some(entry.log_id)
            },
            _ => false,
        },
{
}

/// At most one node gathers a majority of a membership in a term: where each
/// member grants at most one node in the term (`granted_to[i]` is the node
/// member `i` granted), the nodes that majorities `a` and `b` of the members
/// granted are the same node.
pub proof fn lemma_one_leader_per_term(
    granted_to: Seq<Seq<char>>,
    a: Seq<bool>,
    cand_a: Seq<char>,
    b: Seq<bool>,
    cand_b: Seq<char>,
)
    requires
        a.len() == granted_to.len(),
        b.len() == granted_to.len(),
        forall|i: int| 0 <= i < a.len() && #[trigger] a[i] ==> granted_to[i] == cand_a,
        forall|i: int| 0 <= i < b.len() && #[trigger] b[i] ==> granted_to[i] == cand_b,
        count_true(a) * 2 > a.len(),
        count_true(b) * 2 > b.len(),
    ensures
        cand_a == cand_b,
{
    lemma_majorities_intersect(a, b);
    let i = choose|i: int| 0 <= i < a.len() && a[i] && b[i];
    assert(granted_to[i] == cand_a);
}

/// No write waits for a later one: when a leader's write completes and
/// commands were buffered meanwhile, their entry is submitted at once, in
/// its term, at the index after the last proposed one; after the completion
/// a leader holds buffered commands only while another write is in flight.
pub proof fn lemma_buffered_writes_go_out<D, R>(
    old: Core<D, R>,
    new: Core<D, R>,
    log_id: LogId,
    responders: Seq<Option<R>>,
    r: Seq<R>,
    next: Option<(Entry<D>, Vec<Option<R>>)>,
)
    requires
        old.wf(),
        match old.leader {
            Some(l) => Core::<D, R>::resubmits(l, log_id) ==> l.last_log_id.next_index_spec()
                <= u64::MAX,
            None => true,
        },
        Core::io_completed(old, new, log_id, responders, true, r, next),
    ensures
        match old.leader {
            Some(l) => {
                &&& (l.io_state.submitted_id() == Some(log_id) && l.app_cmd_buf@.len() > 0) <==> next
                    is Some
                &&& next matches Some(x) ==> {
                    &&& x.0.log_id.index == l.last_log_id.next_index_spec()
                    &&& x.0.log_id.term == l.vote.term
                    &&& option_log_id_le(l.last_log_id, Some(x.0.log_id))
                    &&& l.last_log_id != Some(x.0.log_id)
                    &&& x.0.payload@ == l.app_cmd_buf@
                }
                &&& new.leader->0.app_cmd_buf@.len() > 0 ==> new.leader->0.io_state.submitted_id()
                    != new.leader->0.io_state.flushed_id()
            },
            None => next is None,
        },
{
}

/// Two writes to an idle leader, the second arriving while the first is in
/// flight, are both answered without a third write: the first is submitted at
/// once and answered when it completes; the second is buffered, submitted as
/// the next entry when the first completes, and answered when that completes,
/// under a later log id.
pub proof fn lemma_two_writes_answered<D, R>(
    s0: Core<D, R>,
    a1: D,
    resp1: Option<R>,
    s1: Core<D, R>,
    o1: WriteOutcome<D, R>,
    a2: D,
    resp2: Option<R>,
    s2: Core<D, R>,
    o2: WriteOutcome<D, R>,
    s3: Core<D, R>,
    ans1: Seq<R>,
    next1: Option<(Entry<D>, Vec<Option<R>>)>,
    s4: Core<D, R>,
    ans2: Seq<R>,
    next2: Option<(Entry<D>, Vec<Option<R>>)>,
)
    requires
        s0.wf(),
        s0.leader matches Some(l) && {
            &&& l.io_state.submitted_id() == l.io_state.flushed_id()
            &&& l.app_cmd_buf@.len() == 0
            &&& l.tx_buf@.len() == 0
            &&& l.last_log_id.next_index_spec() + 1 <= u64::MAX
        },
        Core::write_handled(s0, s1, a1, resp1, o1),
        Core::write_handled(s1, s2, a2, resp2, o2),
        o1 is Submit ==> Core::io_completed(
            s2,
            s3,
            o1->entry.log_id,
            o1->responders@,
            true,
            ans1,
            next1,
        ),
        match next1 {
            Some(x) => Core::io_completed(s3, s4, x.0.log_id, x.1@, true, ans2, next2),
            None => true,
        },
    ensures
        o1 matches WriteOutcome::Submit { entry, responders } && {
            &&& entry.payload@ == seq![a1]
            &&& responders@ == seq![resp1]
        },
        o2 is Buffered,
        ans1 == present(seq![resp1]),
        next1 matches Some(x) && {
            &&& x.0.payload@ == seq![a2]
            &&& x.1@ == seq![resp2]
            &&& x.0.log_id.index == o1->entry.log_id.index + 1
            &&& option_log_id_le(Some(o1->entry.log_id), Some(x.0.log_id))
            &&& o1->entry.log_id != x.0.log_id
        },
        ans2 == present(seq![resp2]),
        next2 is None,
{
    let l0 = s0.leader->0;
    assert(seq![a1] =~= Seq::<D>::empty().push(a1));
    assert(l0.app_cmd_buf@.push(a1) =~= seq![a1]);
    assert(l0.tx_buf@.push(resp1) =~= seq![resp1]);
    let l1 = s1.leader->0;
    let l2 = s2.leader->0;
    assert(l2.app_cmd_buf@ =~= seq![a2]);
    assert(l2.tx_buf@ =~= seq![resp2]);
    let l3 = s3.leader->0;
    assert(l3.app_cmd_buf@.len() == 0);
}

/// A vote equal to the one the node holds renews its lease: the vote stays,
/// its last update becomes `now` and its lease `lease` (the lease being
/// enabled), so that a leader's heartbeats keep its lease alive.
pub proof fn lemma_equal_vote_renews_lease<D, R>(
    old: Core<D, R>,
    new: Core<D, R>,
    v: Vote,
    lease: u64,
    now: u64,
)
    requires
        old.wf(),
        old.vote.data() matches Some(h) && h@ == v@,
        Core::vote_updated(old, new, v, lease, now),
    ensures
        new.vote.data() == old.vote.data(),
        new.vote.last_modified() == Some(now),
        new.vote.lease() == lease,
        new.vote.lease_enabled(),
        new.leader == old.leader,
        new.candidate == old.candidate,
{
    let h = old.vote.data()->0;
    lemma_vote_order(v@, h@, h@);
}

/// A leader's lease, granted or renewed by a committed vote request with
/// lease `L` at `t1`, refuses every vote request up to `t1 + L`: the node
/// keeps its vote and state and grants nothing.
pub proof fn lemma_lease_refuses_until_expiry<D, R>(
    s0: Core<D, R>,
    s1: Core<D, R>,
    req1: RequestVote,
    t1: u64,
    r1: VoteReply,
    s2: Core<D, R>,
    req2: RequestVote,
    t2: u64,
    r2: VoteReply,
)
    requires
        s0.wf(),
        Core::request_vote_handled(s0, s1, req1, t1, r1),
        r1.vote_granted,
        req1.vote.committed,
        Core::request_vote_handled(s1, s2, req2, t2, r2),
        t1 <= t2 <= t1 + req1.lease_ms,
    ensures
        !r2.vote_granted,
        s2 == s1,
        s1.vote.data() matches Some(x) && x@ == req1.vote@,
{
    match s0.my_vote() {
        Some(m) => lemma_vote_order(req1.vote@, m, m),
        None => {},
    }
}

/// A tick never makes a leader elect itself: it sends its heartbeat when one
/// is due and heartbeats are enabled, and otherwise does nothing. A node asks
/// for an election only where it does not lead, elections are enabled, and
/// its vote's lease has run out by its election timeout.
pub proof fn lemma_tick_decision<D, R>(
    old: Core<D, R>,
    new: Core<D, R>,
    now: u64,
    enable_elect: bool,
    enable_heartbeat: bool,
    r: TickAction,
)
    requires
        Core::ticked(old, new, now, enable_elect, enable_heartbeat, r),
    ensures
        r is Elect ==> {
            &&& old.leader is None
            &&& enable_elect
            &&& match old.vote.last_modified() {
                Some(u) => now > u + old.vote.lease() + old.election_timeout,
                None => true,
            }
            &&& new == old
        },
        old.leader matches Some(l) ==> {
            &&& !(r is Elect)
            &&& (r is Heartbeat <==> (enable_heartbeat && now >= l.next_heartbeat))
            &&& r is Idle ==> new == old
        },
{
}

/// Every heartbeat request a leader sends to another member carries the last
/// log id its storage has confirmed, its vote, and a lease of the maximal
/// election timeout; the leader acknowledges itself directly.
pub proof fn lemma_heartbeat_carries_flushed_log_id<D, R>(
    old: Core<D, R>,
    new: Core<D, R>,
    now: u64,
    sends: Seq<HeartbeatSend>,
)
    requires
        Core::heartbeat_broadcast(old, new, now, sends),
    ensures
        old.leader matches Some(l) ==> forall|i: int|
            0 <= i < sends.len() ==> match #[trigger] sends[i] {
                HeartbeatSend::Remote { target, node, request, timeout_ms, leader_vote, sending_time } => {
                    &&& request.last_log_id == l.io_state.flushed_id()
                    &&& request.vote == l.vote
                    &&& request.lease_ms == old.config.election_timeout_max
                    &&& target@ != l.vote.voted_for@
                },
                HeartbeatSend::Local { leader_vote, sending_time, target } => {
                    &&& target@ == l.vote.voted_for@
                    &&& sending_time == now
                },
            },
        old.leader is None ==> sends.len() == 0,
{
}

/// The responders answered when a write completes are exactly the present
/// responders it carried, in order: taking the present values splits over
/// concatenation, keeps a present value and drops an absent one.
pub proof fn lemma_present_values<R>(a: Seq<Option<R>>, b: Seq<Option<R>>, x: R)
    ensures
        present(a + b) == present(a) + present(b),
        present(seq![Some(x)]) == seq![x],
        present(seq![None::<R>]) == Seq::<R>::empty(),
        present(Seq::<Option<R>>::empty()) == Seq::<R>::empty(),
        present(a.push(Some(x))) == present(a).push(x),
        present(a.push(None)) == present(a),
        present(a).len() <= a.len(),
    decreases b.len(),
{
    let e = Seq::<Option<R>>::empty();
    assert(present(e) == Seq::<R>::empty());
    assert(seq![Some(x)].drop_last() =~= e);
    assert(seq![Some(x)].last() == Some(x));
    assert(present(seq![Some(x)]) == present(e).push(x));
    assert(Seq::<R>::empty().push(x) =~= seq![x]);
    assert(seq![None::<R>].drop_last() =~= e);
    assert(seq![None::<R>].last() == None::<R>);
    assert(present(seq![None::<R>]) == present(e));
    assert(a.push(Some(x)).drop_last() =~= a);
    assert(a.push(None).drop_last() =~= a);
    lemma_present_len(a);
    if b.len() == 0 {
        assert(a + b =~= a);
        assert(present(a) + present(b) =~= present(a));
    } else {
        lemma_present_values(a, b.drop_last(), x);
        assert((a + b).drop_last() =~= a + b.drop_last());
        assert((a + b).last() == b.last());
        match b.last() {
            Some(y) => {
                assert(present(a) + present(b.drop_last()).push(y) =~= (present(a) + present(
                    b.drop_last(),
                )).push(y));
            },
            None => {},
        }
    }
}

proof fn lemma_present_len<R>(a: Seq<Option<R>>)
    ensures
        present(a).len() <= a.len(),
    decreases a.len(),
{
    if a.len() > 0 {
        lemma_present_len(a.drop_last());
    }
}

/// The clients answered when a write completes are every client whose
/// command went into the entry, in order: the number answered is the number
/// of responders present, and each present responder is answered.
pub proof fn lemma_completion_answers_every_client<D, R>(
    old: Core<D, R>,
    new: Core<D, R>,
    log_id: LogId,
    responders: Seq<Option<R>>,
    r: Seq<R>,
    next: Option<(Entry<D>, Vec<Option<R>>)>,
    i: int,
)
    requires
        Core::io_completed(old, new, log_id, responders, true, r, next),
        0 <= i < responders.len(),
        responders[i] is Some,
    ensures
        r.contains(responders[i]->0),
        r.len() <= responders.len(),
{
    let pre = responders.subrange(0, i);
    let post = responders.subrange(i + 1, responders.len() as int);
    assert(responders =~= pre.push(responders[i]) + post);
    let x = responders[i]->0;
    lemma_present_values(pre.push(Some(x)), post, x);
    lemma_present_values(pre, seq![Some(x)], x);
    assert(present(responders) == present(pre).push(x) + present(post));
    assert((present(pre).push(x) + present(post))[present(pre).len() as int] == x);
    lemma_present_len(responders);
}

} // verus!
