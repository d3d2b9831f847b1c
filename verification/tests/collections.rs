use gossip_node::node_map::NodeMap;
use gossip_node::node_set::NodeSet;
use std::collections::HashSet;

fn name(s: &str) -> String {
    s.to_string()
}

#[test]
fn a_new_node_set_is_empty() {
    let set = NodeSet::new();
    assert_eq!(set.len(), 0);
    assert!(!set.contains(&name("n1")));
    assert!(set.ids().is_empty());
}

#[test]
fn node_set_insert_reports_whether_the_member_is_new() {
    let mut set = NodeSet::new();
    assert!(set.insert(name("n1")));
    assert!(set.insert(name("n2")));
    assert!(!set.insert(name("n1")));
    assert_eq!(set.len(), 2);
    assert!(set.contains(&name("n1")));
    assert!(set.contains(&name("n2")));
    assert!(!set.contains(&name("n3")));
    assert_eq!(set.ids(), &vec![name("n1"), name("n2")]);
}

#[test]
fn node_set_from_ids_drops_repetitions() {
    let set = NodeSet::from_ids(&vec![name("b"), name("a"), name("b"), name("c"), name("a")]);
    assert_eq!(set.len(), 3);
    assert_eq!(set.ids(), &vec![name("b"), name("a"), name("c")]);
}

#[test]
fn node_sets_are_equal_whatever_the_order() {
    let one = NodeSet::from_ids(&vec![name("n1"), name("n2"), name("n3")]);
    let other = NodeSet::from_ids(&vec![name("n3"), name("n1"), name("n2")]);
    let smaller = NodeSet::from_ids(&vec![name("n1"), name("n2")]);
    let different = NodeSet::from_ids(&vec![name("n1"), name("n2"), name("n4")]);
    assert_eq!(one, other);
    assert_ne!(one, smaller);
    assert_ne!(smaller, one);
    assert_ne!(one, different);
    assert_eq!(NodeSet::new(), NodeSet::from_ids(&vec![]));
}

#[test]
fn a_new_node_map_is_empty() {
    let map: NodeMap<HashSet<usize>> = NodeMap::new();
    assert_eq!(map.len(), 0);
    assert!(map.get(&name("n1")).is_none());
    assert!(map.entries().is_empty());
}

#[test]
fn node_map_insert_binds_and_replaces() {
    let mut map: NodeMap<HashSet<usize>> = NodeMap::new();
    map.insert(name("n1"), [1, 2].into_iter().collect());
    map.insert(name("n2"), [3].into_iter().collect());
    assert_eq!(map.len(), 2);
    assert_eq!(map.get(&name("n1")), Some(&[1, 2].into_iter().collect()));
    assert_eq!(map.get(&name("n2")), Some(&[3].into_iter().collect()));
    assert_eq!(map.get(&name("n3")), None);
    map.insert(name("n1"), [9].into_iter().collect());
    assert_eq!(map.len(), 2);
    assert_eq!(map.get(&name("n1")), Some(&[9].into_iter().collect()));
    assert_eq!(map.get(&name("n2")), Some(&[3].into_iter().collect()));
    assert_eq!(map.entries()[0].0, name("n1"));
    assert_eq!(map.entries()[1].0, name("n2"));
}

#[test]
fn node_maps_of_sets_are_equal_whatever_the_order() {
    let mut one: NodeMap<NodeSet> = NodeMap::new();
    one.insert(name("n1"), NodeSet::from_ids(&vec![name("n2"), name("n3")]));
    one.insert(name("n2"), NodeSet::from_ids(&vec![name("n1")]));
    let mut other: NodeMap<NodeSet> = NodeMap::new();
    other.insert(name("n2"), NodeSet::from_ids(&vec![name("n1")]));
    other.insert(name("n1"), NodeSet::from_ids(&vec![name("n3"), name("n2")]));
    assert_eq!(one, other);
    other.insert(name("n2"), NodeSet::from_ids(&vec![name("n3")]));
    assert_ne!(one, other);
    other.insert(name("n2"), NodeSet::from_ids(&vec![name("n1")]));
    other.insert(name("n3"), NodeSet::new());
    assert_ne!(one, other);
    assert_ne!(other, one);
}
