//! A member of the cluster.

use vstd::prelude::*;

use crate::base::str_map::{DeepClone, StrMap};
use crate::base::text::{push_char, push_str};

verus! {

/// Identifies a node within the cluster.
pub type NodeId = String;

/// A participant of the cluster: where to reach it, and free-form metadata.
#[derive(Debug, PartialEq, Eq)]
pub struct Node {
    /// The network address (e.g., IP and port) of the node.
    pub address: String,
    /// Optional metadata, such as roles or capacities.
    pub metadata: StrMap<String>,
}

/// The mathematical value of a node.
pub struct NodeView {
    pub address: Seq<char>,
    pub metadata: Map<Seq<char>, Seq<char>>,
}

impl View for Node {
    type V = NodeView;

    open spec fn view(&self) -> NodeView {
        NodeView { address: self.address@, metadata: self.metadata.view_values() }
    }
}

/// A node with an empty address and no metadata.
pub open spec fn blank_node_view() -> NodeView {
    NodeView { address: Seq::empty(), metadata: Map::empty() }
}

/// The text of metadata pairs `k:v`, separated by commas.
pub open spec fn pairs_text(ks: Seq<Seq<char>>, vs: Seq<Seq<char>>) -> Seq<char>
    decreases ks.len(),
{
    if ks.len() == 0 {
        Seq::empty()
    } else if ks.len() == 1 {
        ks[0] + seq![':'] + vs[0]
    } else {
        pairs_text(ks.drop_last(), vs.drop_last()) + seq![','] + ks.last() + seq![':'] + vs[ks.len()
            - 1]
    }
}

impl Node {
    /// A node at `address` with no metadata.
    pub fn new(address: &str) -> (r: Node)
        ensures
            r@ == (NodeView { address: address@, metadata: Map::empty() }),
    {
        let metadata = StrMap::new();
        let r = Node { address: address.to_owned(), metadata };
        proof {
            assert(r.metadata.view_values() =~= Map::<Seq<char>, Seq<char>>::empty());
        }
        r
    }

    /// A node at `address` with the given metadata.
    pub fn new_with_meta(address: &str, metadata: StrMap<String>) -> (r: Node)
        ensures
            r@ == (NodeView { address: address@, metadata: metadata.view_values() }),
    {
        Node { address: address.to_owned(), metadata }
    }

    /// The node rendered as `address; k1:v1,k2:v2`, metadata in key order.
    pub fn display(&self) -> (s: String)
        ensures
            s@ == self.address@ + seq![';', ' '] + pairs_text(
                self.metadata.keys(),
                self.metadata.values().map_values(|v: String| v@),
            ),
    {
        proof {
            use_type_invariant(&self.metadata);
        }
        let ghost ks = self.metadata.keys();
        let ghost vs = self.metadata.values().map_values(|v: String| v@);
        let mut s = String::new();
        push_str(&mut s, self.address.as_str());
        push_char(&mut s, ';');
        push_char(&mut s, ' ');
        let ghost head = s@;
        let n = self.metadata.len();
        let mut i: usize = 0;
        while i < n
            invariant
                n == ks.len(),
                ks.len() == vs.len(),
                ks == self.metadata.keys(),
                vs == self.metadata.values().map_values(|v: String| v@),
                i <= n,
                s@ == head + pairs_text(ks.subrange(0, i as int), vs.subrange(0, i as int)),
            decreases n - i,
        {
            let ghost prev = s@;
            if i > 0 {
                push_char(&mut s, ',');
            }
            push_str(&mut s, self.metadata.key_at(i).as_str());
            push_char(&mut s, ':');
            push_str(&mut s, self.metadata.value_at(i).as_str());
            proof {
                let k2 = ks.subrange(0, i + 1);
                let v2 = vs.subrange(0, i + 1);
                assert(k2.drop_last() =~= ks.subrange(0, i as int));
                assert(v2.drop_last() =~= vs.subrange(0, i as int));
                if i == 0 {
                    assert(s@ =~= head + pairs_text(k2, v2));
                } else {
                    assert(s@ =~= head + pairs_text(k2, v2));
                }
            }
            i = i + 1;
        }
        proof {
            assert(ks.subrange(0, n as int) =~= ks);
            assert(vs.subrange(0, n as int) =~= vs);
        }
        s
    }
}

impl DeepClone for Node {
    fn deep_clone(&self) -> (r: Node) {
        Node { address: self.address.clone(), metadata: self.metadata.deep_clone() }
    }
}

impl Clone for Node {
    fn clone(&self) -> (r: Node)
        ensures
            r@ == self@,
    {
        self.deep_clone()
    }
}

impl Default for Node {
    fn default() -> (r: Node)
        ensures
            r@ == blank_node_view(),
    {
        let r = Node { address: String::new(), metadata: StrMap::new() };
        proof {
            assert(r.metadata.view_values() =~= Map::<Seq<char>, Seq<char>>::empty());
        }
        r
    }
}

} // verus!
