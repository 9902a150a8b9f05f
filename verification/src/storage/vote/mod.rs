//! The vote: which node holds the privilege of a term, and whether a quorum
//! has granted it.

use vstd::prelude::*;

use crate::base::text::{decimal, push_char, push_decimal, push_str, Relation};
use crate::storage::membership::NodeId;

pub mod vote_ext;
pub mod vote_order;

verus! {

/// `Vote` represents the privilege of a node.
#[derive(Debug)]
pub struct Vote {
    pub term: u64,
    pub committed: bool,
    pub voted_for: NodeId,
}

/// The mathematical value of a vote.
pub struct VoteView {
    pub term: u64,
    pub committed: bool,
    pub voted_for: Seq<char>,
}

impl View for Vote {
    type V = VoteView;

    open spec fn view(&self) -> VoteView {
        VoteView { term: self.term, committed: self.committed, voted_for: self.voted_for@ }
    }
}

impl DeepView for Vote {
    type V = VoteView;

    open spec fn deep_view(&self) -> VoteView {
        self@
    }
}

/// How two votes compare: by term, then a committed vote is above an
/// uncommitted one, then votes for the same node are equal and votes for
/// different nodes are incomparable.
pub open spec fn vote_relation(a: VoteView, b: VoteView) -> Option<Relation> {
    if a.term < b.term {
        Some(Relation::Less)
    } else if a.term > b.term {
        Some(Relation::Greater)
    } else if a.committed != b.committed {
        if !a.committed {
            Some(Relation::Less)
        } else {
            Some(Relation::Greater)
        }
    } else if a.voted_for == b.voted_for {
        Some(Relation::Equal)
    } else {
        None
    }
}

/// `a >= b`.
pub open spec fn vote_ge(a: VoteView, b: VoteView) -> bool {
    vote_relation(a, b) == Some(Relation::Greater) || vote_relation(a, b) == Some(Relation::Equal)
}

/// `a > b`.
pub open spec fn vote_gt(a: VoteView, b: VoteView) -> bool {
    vote_relation(a, b) == Some(Relation::Greater)
}

/// How two optional votes compare: no vote is below every vote.
pub open spec fn option_vote_relation(a: Option<VoteView>, b: Option<VoteView>) -> Option<
    Relation,
> {
    match a {
        None => match b {
            None => Some(Relation::Equal),
            Some(_) => Some(Relation::Less),
        },
        Some(x) => match b {
            None => Some(Relation::Greater),
            Some(y) => vote_relation(x, y),
        },
    }
}

/// `a >= b` for optional votes.
pub open spec fn option_vote_ge(a: Option<VoteView>, b: Option<VoteView>) -> bool {
    option_vote_relation(a, b) == Some(Relation::Greater) || option_vote_relation(a, b) == Some(
        Relation::Equal,
    )
}

/// `a > b` for optional votes.
pub open spec fn option_vote_gt(a: Option<VoteView>, b: Option<VoteView>) -> bool {
    option_vote_relation(a, b) == Some(Relation::Greater)
}

/// The view of an optional vote.
pub open spec fn vote_opt_view(v: Option<Vote>) -> Option<VoteView> {
    match v {
        Some(x) => Some(x@),
        None => None,
    }
}

/// The order of votes is a partial order, read the same way from both sides:
/// reflexive, antisymmetric, transitive; `>` is `>=` without equality.
pub proof fn lemma_vote_order(a: VoteView, b: VoteView, c: VoteView)
    ensures
        vote_ge(a, a),
        vote_ge(a, b) && vote_ge(b, a) ==> a == b,
        vote_ge(a, b) && vote_ge(b, c) ==> vote_ge(a, c),
        vote_gt(a, b) <==> (vote_ge(a, b) && a != b),
        vote_relation(a, b) == Some(Relation::Less) <==> vote_relation(b, a) == Some(
            Relation::Greater,
        ),
        vote_relation(a, b) == Some(Relation::Equal) <==> a == b,
        vote_relation(a, b) is None <==> vote_relation(b, a) is None,
{
}

/// The order of optional votes is a partial order too.
pub proof fn lemma_option_vote_order(a: Option<VoteView>, b: Option<VoteView>, c: Option<VoteView>)
    ensures
        option_vote_ge(a, a),
        option_vote_ge(a, b) && option_vote_ge(b, a) ==> a == b,
        option_vote_ge(a, b) && option_vote_ge(b, c) ==> option_vote_ge(a, c),
        option_vote_gt(a, b) <==> (option_vote_ge(a, b) && a != b),
{
    match a {
        Some(x) => match b {
            Some(y) => match c {
                Some(z) => lemma_vote_order(x, y, z),
                None => lemma_vote_order(x, y, y),
            },
            None => lemma_vote_order(x, x, x),
        },
        None => {},
    }
}

impl Vote {
    /// A vote of `term` for `node_id`, not yet granted by a quorum.
    pub fn new(term: u64, node_id: NodeId) -> (r: Vote)
        ensures
            r@ == (VoteView { term, committed: false, voted_for: node_id@ }),
    {
        Vote { term, committed: false, voted_for: node_id }
    }

    /// A vote of `term` for `node_id` that a quorum has granted.
    pub fn new_committed(term: u64, node_id: NodeId) -> (r: Vote)
        ensures
            r@ == (VoteView { term, committed: true, voted_for: node_id@ }),
    {
        Vote { term, committed: true, voted_for: node_id }
    }

    /// The same vote, marked as granted by a quorum.
    pub fn commit(self) -> (r: Vote)
        ensures
            r@ == (VoteView { committed: true, ..self@ }),
    {
        let mut v = self;
        v.committed = true;
        v
    }

    pub fn is_committed(&self) -> (r: bool)
        ensures
            r == self.committed,
    {
        self.committed
    }

    pub fn term(&self) -> (r: u64)
        ensures
            r == self.term,
    {
        self.term
    }

    pub fn voted_for(&self) -> (r: &NodeId)
        ensures
            r@ == self.voted_for@,
    {
        &self.voted_for
    }

    /// A copy of the vote.
    pub fn duplicate(&self) -> (r: Vote)
        ensures
            r == *self,
            r@ == self@,
    {
        Vote { term: self.term, committed: self.committed, voted_for: self.voted_for.clone() }
    }

    /// Whether the two votes are the same vote.
    pub fn same_as(&self, other: &Vote) -> (r: bool)
        ensures
            r == (self@ == other@),
    {
        self.term == other.term && self.committed == other.committed && self.voted_for
            == other.voted_for
    }

    /// How this vote compares with `other`.
    pub fn relate(&self, other: &Vote) -> (r: Option<Relation>)
        ensures
            r == vote_relation(self@, other@),
    {
        if self.term < other.term {
            Some(Relation::Less)
        } else if self.term > other.term {
            Some(Relation::Greater)
        } else if self.committed != other.committed {
            if !self.committed {
                Some(Relation::Less)
            } else {
                Some(Relation::Greater)
            }
        } else if self.voted_for == other.voted_for {
            Some(Relation::Equal)
        } else {
            None
        }
    }

    /// The vote rendered as `<T{term}-N{voted_for}:{Q or -}>`.
    pub fn display(&self) -> (s: String)
        ensures
            s@ == vote_text(self@),
    {
        let mut s = String::new();
        push_char(&mut s, '<');
        push_char(&mut s, 'T');
        push_decimal(&mut s, self.term);
        push_char(&mut s, '-');
        push_char(&mut s, 'N');
        push_str(&mut s, self.voted_for.as_str());
        push_char(&mut s, ':');
        push_char(
            &mut s,
            if self.committed {
                'Q'
            } else {
                '-'
            },
        );
        push_char(&mut s, '>');
        proof {
            assert(s@ =~= seq!['<', 'T'] + decimal(self.term as nat) + seq!['-', 'N']
                + self.voted_for@ + seq![':', if self.committed { 'Q' } else { '-' }, '>']);
        }
        s
    }
}

/// A vote rendered as `<T{term}-N{voted_for}:{Q or -}>`: `Q` for a vote a
/// quorum granted.
pub open spec fn vote_text(v: VoteView) -> Seq<char> {
    seq!['<', 'T'] + decimal(v.term as nat) + seq!['-', 'N'] + v.voted_for + seq![
        ':',
        if v.committed {
            'Q'
        } else {
            '-'
        },
        '>',
    ]
}

/// An optional vote rendered as the vote, or `None`.
pub open spec fn option_vote_text(v: Option<VoteView>) -> Seq<char> {
    match v {
        Some(x) => vote_text(x),
        None => "None"@,
    }
}

/// An optional vote rendered as the vote, or `None`.
pub fn display_option_vote(v: &Option<Vote>) -> (s: String)
    ensures
        s@ == option_vote_text(vote_opt_view(*v)),
{
    match v {
        Some(x) => x.display(),
        None => String::from_str("None"),
    }
}

/// A copy of an optional vote.
pub fn duplicate_option(v: &Option<Vote>) -> (r: Option<Vote>)
    ensures
        r == *v,
        vote_opt_view(r) == vote_opt_view(*v),
{
    match v {
        Some(x) => Some(x.duplicate()),
        None => None,
    }
}

/// How two optional votes compare.
pub fn relate_option(a: &Option<Vote>, b: &Option<Vote>) -> (r: Option<Relation>)
    ensures
        r == option_vote_relation(vote_opt_view(*a), vote_opt_view(*b)),
{
    match a {
        None => match b {
            None => Some(Relation::Equal),
            Some(_) => Some(Relation::Less),
        },
        Some(x) => match b {
            None => Some(Relation::Greater),
            Some(y) => x.relate(y),
        },
    }
}

} // verus!
