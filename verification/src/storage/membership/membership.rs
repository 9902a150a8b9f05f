//! The membership configuration of the cluster.

use vstd::prelude::*;

use crate::base::str_map::{lemma_sorted_index_of, strictly_sorted, DeepClone, StrMap};
use crate::base::text::{push_char, push_str};
use crate::errors::{ChangeMembershipError, EmptyMembership};
use crate::storage::membership::node::{blank_node_view, Node, NodeId, NodeView};

verus! {

/// The number of `ks` that occur in `ids`.
pub open spec fn count_present(ks: Seq<Seq<char>>, ids: Set<Seq<char>>) -> nat
    decreases ks.len(),
{
    if ks.len() == 0 {
        0
    } else {
        count_present(ks.drop_last(), ids) + if ids.contains(ks.last()) {
            1nat
        } else {
            0nat
        }
    }
}

/// The text of a membership: `{id:(),id:()}`, ids in ascending order.
pub open spec fn ids_text(ks: Seq<Seq<char>>) -> Seq<char>
    decreases ks.len(),
{
    if ks.len() == 0 {
        Seq::empty()
    } else if ks.len() == 1 {
        ks[0] + seq![':', '(', ')']
    } else {
        ids_text(ks.drop_last()) + seq![','] + ks.last() + seq![':', '(', ')']
    }
}

/// The membership configuration of the cluster: every node with its
/// information, ordered by node id.
#[derive(Debug, PartialEq, Eq)]
pub struct Membership {
    nodes: StrMap<Node>,
}

/// An input from which the nodes of a membership are built.
pub trait IntoNodes: Sized {
    /// The nodes that the input describes.
    spec fn nodes_view(&self) -> Map<Seq<char>, NodeView>;

    fn into_nodes(self) -> (r: StrMap<Node>)
        ensures
            r.view_values() == self.nodes_view(),
    ;
}

impl IntoNodes for () {
    open spec fn nodes_view(&self) -> Map<Seq<char>, NodeView> {
        Map::empty()
    }

    fn into_nodes(self) -> (r: StrMap<Node>) {
        let r = StrMap::new();
        assert(r.view_values() =~= Map::<Seq<char>, NodeView>::empty());
        r
    }
}

/// The nodes of a set of ids, each with an empty address.
pub open spec fn id_nodes_view(ids: Seq<NodeId>) -> Map<Seq<char>, NodeView> {
    Map::new(
        |k: Seq<char>| exists|i: int| 0 <= i < ids.len() && (#[trigger] ids[i])@ == k,
        |k: Seq<char>| blank_node_view(),
    )
}

/// The nodes of a set of ids, each with an empty address.
fn nodes_of_ids(ids: Vec<NodeId>) -> (r: StrMap<Node>)
    ensures
        r.view_values() == id_nodes_view(ids@),
{
    let mut m: StrMap<Node> = StrMap::new();
    let n = ids.len();
    let mut i: usize = 0;
    proof {
        assert(m.view_values() =~= Map::new(
            |k: Seq<char>| exists|j: int| 0 <= j < i && (#[trigger] ids@[j])@ == k,
            |k: Seq<char>| blank_node_view(),
        ));
    }
    while i < n
        invariant
            n == ids@.len(),
            i <= n,
            m.view_values() == Map::new(
                |k: Seq<char>| exists|j: int| 0 <= j < i && (#[trigger] ids@[j])@ == k,
                |k: Seq<char>| blank_node_view(),
            ),
        decreases n - i,
    {
        let ghost before = m.view_values();
        let ghost before_m = m@;
        let node = Node::new(String::new().as_str());
        let key = ids[i].clone();
        let ghost kv = key@;
        m.insert(key, node);
        proof {
            assert(m.view_values() =~= before.insert(kv, node@));
            let next = Map::new(
                |k: Seq<char>| exists|j: int| 0 <= j < i + 1 && (#[trigger] ids@[j])@ == k,
                |k: Seq<char>| blank_node_view(),
            );
            assert(node@ =~= blank_node_view());
            assert forall|k: Seq<char>| #[trigger] m.view_values().contains_key(k) == next.contains_key(k) by {
                if before.contains_key(k) {
                    let j = choose|j: int| 0 <= j < i && (#[trigger] ids@[j])@ == k;
                    assert(0 <= j < i + 1 && ids@[j]@ == k);
                }
                if next.contains_key(k) {
                    let j = choose|j: int| 0 <= j < i + 1 && (#[trigger] ids@[j])@ == k;
                    if j < i {
                        assert(before.contains_key(k));
                    }
                }
            }
            assert(m.view_values() =~= next);
        }
        i = i + 1;
    }
    proof {
        assert(m.view_values() =~= id_nodes_view(ids@));
    }
    m
}

impl IntoNodes for Vec<NodeId> {
    open spec fn nodes_view(&self) -> Map<Seq<char>, NodeView> {
        id_nodes_view(self@)
    }

    fn into_nodes(self) -> (r: StrMap<Node>) {
        nodes_of_ids(self)
    }
}

impl IntoNodes for Option<Vec<NodeId>> {
    open spec fn nodes_view(&self) -> Map<Seq<char>, NodeView> {
        match self {
            Some(ids) => id_nodes_view(ids@),
            None => Map::empty(),
        }
    }

    fn into_nodes(self) -> (r: StrMap<Node>) {
        match self {
            Some(ids) => nodes_of_ids(ids),
            None => {
                let r = StrMap::new();
                assert(r.view_values() =~= Map::<Seq<char>, NodeView>::empty());
                r
            },
        }
    }
}

impl IntoNodes for StrMap<Node> {
    open spec fn nodes_view(&self) -> Map<Seq<char>, NodeView> {
        self.view_values()
    }

    fn into_nodes(self) -> (r: StrMap<Node>) {
        self
    }
}

impl View for Membership {
    type V = Map<Seq<char>, NodeView>;

    /// The nodes, by node id.
    open spec fn view(&self) -> Map<Seq<char>, NodeView> {
        self.nodes_map().view_values()
    }
}

impl Membership {
    /// The underlying ordered map of nodes.
    pub closed spec fn nodes_map(&self) -> StrMap<Node> {
        self.nodes
    }

    /// The node ids in ascending order.
    pub open spec fn ids(&self) -> Seq<Seq<char>> {
        self.nodes_map().keys()
    }

    /// The node ids are strictly ascending and match the view.
    pub proof fn lemma_ids(&self)
        requires
            self.nodes_map().wf(),
        ensures
            strictly_sorted(self.ids()),
            forall|k: Seq<char>| #[trigger] self@.contains_key(k) <==> self.ids().contains(k),
            self@.dom().finite(),
            self@.dom().len() == self.ids().len(),
    {
        self.nodes_map().lemma_view();
        assert(self@.dom() =~= self.nodes_map()@.dom());
    }

    /// A membership of the nodes that `nodes` describes.
    pub fn new<T: IntoNodes>(nodes: T) -> (r: Membership)
        ensures
            r@ == nodes.nodes_view(),
    {
        Membership { nodes: nodes.into_nodes() }
    }

    /// All nodes, ordered by node id.
    pub fn nodes(&self) -> (r: &StrMap<Node>)
        ensures
            *r == self.nodes_map(),
            r.wf(),
    {
        proof {
            use_type_invariant(&self.nodes);
        }
        &self.nodes
    }

    /// The number of nodes.
    pub fn len(&self) -> (n: usize)
        ensures
            n == self.ids().len(),
    {
        self.nodes.len()
    }

    /// The id and the node at position `i` of the ascending order of ids.
    pub fn entry_at(&self, i: usize) -> (r: (&NodeId, &Node))
        requires
            i < self.ids().len(),
        ensures
            r.0@ == self.ids()[i as int],
            self@.contains_key(self.ids()[i as int]),
            r.1@ == self@[self.ids()[i as int]],
    {
        proof {
            use_type_invariant(&self.nodes);
            self.nodes.lemma_view();
        }
        (self.nodes.key_at(i), self.nodes.value_at(i))
    }

    /// The node with id `node_id`, if it is a member.
    pub fn get_node(&self, node_id: &str) -> (r: Option<&Node>)
        ensures
            r is Some <==> self@.contains_key(node_id@),
            r is Some ==> r->0@ == self@[node_id@],
    {
        self.nodes.get(node_id)
    }

    /// The ids of all nodes, in ascending order.
    pub fn node_ids(&self) -> (r: Vec<NodeId>)
        ensures
            r@.len() == self.ids().len(),
            forall|i: int| 0 <= i < r@.len() ==> (#[trigger] r@[i])@ == self.ids()[i],
            strictly_sorted(self.ids()),
    {
        proof {
            use_type_invariant(&self.nodes);
        }
        self.nodes.key_list()
    }

    /// Whether `node_id` is a member.
    pub fn contains(&self, node_id: &str) -> (r: bool)
        ensures
            r == self@.contains_key(node_id@),
    {
        self.nodes.contains_key(node_id)
    }

    /// Ensures the membership config is valid: it is not empty.
    pub fn ensure_valid(&self) -> (r: Result<(), ChangeMembershipError>)
        ensures
            r is Ok <==> self.ids().len() > 0,
    {
        match self.ensure_non_empty_config() {
            Ok(()) => Ok(()),
            Err(e) => Err(ChangeMembershipError::EmptyMembership(e)),
        }
    }

    /// Ensures the membership has a node.
    pub fn ensure_non_empty_config(&self) -> (r: Result<(), EmptyMembership>)
        ensures
            r is Ok <==> self.ids().len() > 0,
    {
        if self.nodes.len() == 0 {
            return Err(EmptyMembership {  });
        }
        Ok(())
    }

    /// Whether the nodes in `ids` that are members form a majority of the
    /// members.
    pub fn is_quorum(&self, ids: &Vec<NodeId>) -> (r: bool)
        ensures
            r == (count_present(
                self.ids(),
                Set::new(|k: Seq<char>| exists|i: int| 0 <= i < ids@.len() && (#[trigger] ids@[i])@ == k),
            ) * 2 > self.ids().len()),
    {
        let ghost given = Set::new(
            |k: Seq<char>| exists|i: int| 0 <= i < ids@.len() && (#[trigger] ids@[i])@ == k,
        );
        let n = self.nodes.len();
        let mut count: usize = 0;
        let mut i: usize = 0;
        while i < n
            invariant
                n == self.ids().len(),
                i <= n,
                given == Set::new(
                    |k: Seq<char>| exists|i: int| 0 <= i < ids@.len() && (#[trigger] ids@[i])@ == k,
                ),
                count == count_present(self.ids().subrange(0, i as int), given),
                count <= i,
            decreases n - i,
        {
            let key = self.nodes.key_at(i);
            let found = contains_id(ids, key.as_str());
            proof {
                let s = self.ids().subrange(0, i + 1);
                assert(s.drop_last() =~= self.ids().subrange(0, i as int));
                assert(s.last() == key@);
            }
            assert(given.contains(key@) == found);
            if found {
                count = count + 1;
            }
            i = i + 1;
        }
        proof {
            assert(self.ids().subrange(0, n as int) =~= self.ids());
        }
        count > n - count
    }

    /// The membership rendered as `{id:(),id:()}`, ids in ascending order.
    pub fn summary(&self) -> (s: String)
        ensures
            s@ == seq!['{'] + ids_text(self.ids()) + seq!['}'],
    {
        let ghost ks = self.ids();
        let mut s = String::new();
        push_char(&mut s, '{');
        let n = self.nodes.len();
        let mut i: usize = 0;
        while i < n
            invariant
                n == ks.len(),
                ks == self.ids(),
                i <= n,
                s@ == seq!['{'] + ids_text(ks.subrange(0, i as int)),
            decreases n - i,
        {
            if i > 0 {
                push_char(&mut s, ',');
            }
            push_str(&mut s, self.nodes.key_at(i).as_str());
            push_char(&mut s, ':');
            push_char(&mut s, '(');
            push_char(&mut s, ')');
            proof {
                let k2 = ks.subrange(0, i + 1);
                assert(k2.drop_last() =~= ks.subrange(0, i as int));
                assert(s@ =~= seq!['{'] + ids_text(k2));
            }
            i = i + 1;
        }
        push_char(&mut s, '}');
        proof {
            assert(ks.subrange(0, n as int) =~= ks);
            assert(s@ =~= seq!['{'] + ids_text(ks) + seq!['}']);
        }
        s
    }
}

/// Whether some id of `ids` is `k`.
fn contains_id(ids: &Vec<NodeId>, k: &str) -> (r: bool)
    ensures
        r == exists|i: int| 0 <= i < ids@.len() && (#[trigger] ids@[i])@ == k@,
{
    let n = ids.len();
    let mut i: usize = 0;
    while i < n
        invariant
            n == ids@.len(),
            i <= n,
            forall|j: int| 0 <= j < i ==> (#[trigger] ids@[j])@ != k@,
        decreases n - i,
    {
        if ids[i].as_str().unicode_len() == k.unicode_len() && crate::base::text::starts_with(
            ids[i].as_str(),
            k,
        ) {
            proof {
                assert(ids@[i as int]@.subrange(0, k@.len() as int) =~= ids@[i as int]@);
            }
            return true;
        }
        proof {
            if ids@[i as int]@ == k@ {
                assert(ids@[i as int]@.subrange(0, k@.len() as int) =~= k@);
            }
        }
        i = i + 1;
    }
    false
}

impl DeepClone for Membership {
    fn deep_clone(&self) -> (r: Membership) {
        self.duplicate()
    }
}

impl Membership {
    /// A copy with the same nodes in the same order.
    pub fn duplicate(&self) -> (r: Membership)
        ensures
            r@ == self@,
            r.ids() == self.ids(),
    {
        Membership { nodes: self.nodes.deep_clone() }
    }
}

} // verus!
