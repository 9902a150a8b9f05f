use suraft::base::str_map::StrMap;
use suraft::storage::membership::membership::Membership;
use suraft::storage::membership::node::Node;
use suraft::testing::nid;

#[test]
fn test_membership_summary() {
    let mut nodes = StrMap::new();
    nodes.insert(nid(1), Node::new(""));
    nodes.insert(nid(2), Node::new(""));
    let m = Membership::new(nodes);
    assert_eq!("{1:(),2:()}", m.summary());
}

#[test]
fn test_membership() {
    let m123 = Membership::new(vec![nid(1), nid(2), nid(3)]);
    assert_eq!(vec![nid(1), nid(2), nid(3)], m123.node_ids());
}

#[test]
fn test_membership_with_nodes() {
    let node = Node::default;
    let with_nodes = |nodes| Membership::new(nodes);

    let mut given = StrMap::new();
    given.insert(nid(1), node());
    given.insert(nid(2), node());
    let res = with_nodes(given);

    let mut expected = StrMap::new();
    expected.insert(nid(1), node());
    expected.insert(nid(2), node());
    assert_eq!(&expected, res.nodes());
}

#[test]
fn membership_ids_come_sorted_and_unique() {
    let m = Membership::new(vec![nid(3), nid(1), nid(2), nid(1)]);
    assert_eq!(vec![nid(1), nid(2), nid(3)], m.node_ids());
    assert_eq!(3, m.len());
    assert!(m.contains("2"));
    assert!(!m.contains("4"));
    assert_eq!(Some(&Node::default()), m.get_node("3"));
    assert_eq!(None, m.get_node("9"));
}

#[test]
fn membership_from_option_and_unit() {
    let none: Option<Vec<String>> = None;
    assert_eq!(0, Membership::new(none).len());
    assert_eq!(2, Membership::new(Some(vec![nid(5), nid(6)])).len());
    assert_eq!(0, Membership::new(()).len());
    assert_eq!("{}", Membership::new(()).summary());
}

#[test]
fn membership_empty_is_invalid() {
    let empty = Membership::new(());
    assert!(empty.ensure_valid().is_err());
    assert!(empty.ensure_non_empty_config().is_err());
    let one = Membership::new(vec![nid(1)]);
    assert!(one.ensure_valid().is_ok());
    assert!(one.ensure_non_empty_config().is_ok());
}

#[test]
fn membership_quorum_needs_a_majority() {
    let m = Membership::new(vec![nid(1), nid(2), nid(3)]);
    assert!(!m.is_quorum(&vec![nid(1)]));
    assert!(m.is_quorum(&vec![nid(1), nid(3)]));
    assert!(m.is_quorum(&vec![nid(1), nid(2), nid(3)]));
    // Ids that are not members do not count.
    assert!(!m.is_quorum(&vec![nid(1), nid(7), nid(8)]));
}

#[test]
fn node_display_lists_metadata_in_key_order() {
    let mut meta = StrMap::new();
    meta.insert("zone".to_string(), "b".to_string());
    meta.insert("role".to_string(), "voter".to_string());
    let n = Node::new_with_meta("127.0.0.1:21001", meta);
    assert_eq!("127.0.0.1:21001; role:voter,zone:b", n.display());
    assert_eq!("10.0.0.1; ", Node::new("10.0.0.1").display());
}

#[test]
fn node_clone_is_equal() {
    let n = Node::new("a:1");
    assert_eq!(n.clone(), n);
    let m = Membership::new(vec![nid(1)]);
    assert_eq!(m.duplicate().node_ids(), m.node_ids());
}
