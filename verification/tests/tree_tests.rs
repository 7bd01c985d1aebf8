use keep_in_touch::entry::{Entry, Value};
use keep_in_touch::tree::{entry_by_uuid, get_entry_by_uuid, Group, Node};

fn contact(uuid: &str, title: &str) -> Entry {
    let mut e = Entry::new(uuid.to_string());
    e.set("Title", Value::Unprotected(title.to_string()));
    e
}

fn group(name: &str, children: Vec<Node>) -> Node {
    Node::Group(Group { name: name.to_string(), children })
}

fn sample() -> Vec<Node> {
    vec![
        Node::Entry(contact("1", "Zoe")),
        group(
            "family",
            vec![
                Node::Entry(contact("2", "Adam")),
                group("far", vec![Node::Entry(contact("3", "Mia"))]),
                Node::Entry(contact("4", "Bob")),
            ],
        ),
        group("empty", vec![]),
        Node::Entry(contact("5", "Carl")),
    ]
}

#[test]
fn finds_entries_at_every_depth() {
    let nodes = sample();
    for (uuid, title) in [("1", "Zoe"), ("2", "Adam"), ("3", "Mia"), ("4", "Bob"), ("5", "Carl")] {
        let e = entry_by_uuid(&nodes, uuid).unwrap();
        assert_eq!(e.get_uuid(), uuid);
        assert_eq!(e.get_title(), Some(title));
    }
}

#[test]
fn absent_id_gives_nothing() {
    let mut nodes = sample();
    assert!(entry_by_uuid(&nodes, "6").is_none());
    assert!(entry_by_uuid(&nodes, "").is_none());
    assert!(get_entry_by_uuid(&mut nodes, "6").is_none());
    assert!(entry_by_uuid(&Vec::new(), "1").is_none());
}

#[test]
fn distinct_ids_give_distinct_entries() {
    let nodes = sample();
    let a = entry_by_uuid(&nodes, "2").unwrap();
    let b = entry_by_uuid(&nodes, "4").unwrap();
    assert!(!std::ptr::eq(a, b));
    assert_ne!(a.get_uuid(), b.get_uuid());
}

#[test]
fn first_in_walk_order_wins() {
    let nodes = vec![
        group("g", vec![Node::Entry(contact("x", "inner"))]),
        Node::Entry(contact("x", "outer")),
    ];
    assert_eq!(entry_by_uuid(&nodes, "x").unwrap().get_title(), Some("inner"));
    let nodes = vec![
        Node::Entry(contact("x", "outer")),
        group("g", vec![Node::Entry(contact("x", "inner"))]),
    ];
    assert_eq!(entry_by_uuid(&nodes, "x").unwrap().get_title(), Some("outer"));
}

#[test]
fn edits_through_the_reference_land_in_the_tree() {
    let mut nodes = sample();
    {
        let e = get_entry_by_uuid(&mut nodes, "3").unwrap();
        assert_eq!(e.get_title(), Some("Mia"));
        e.set("Nickname", Value::Unprotected("M".to_string()));
    }
    assert_eq!(entry_by_uuid(&nodes, "3").unwrap().get("Nickname"), Some("M"));
    assert_eq!(entry_by_uuid(&nodes, "2").unwrap().get("Nickname"), None);
    assert_eq!(nodes.len(), 4);
    match &nodes[1] {
        Node::Group(g) => {
            assert_eq!(g.name, "family");
            assert_eq!(g.children.len(), 3);
        }
        Node::Entry(_) => panic!("the group is gone"),
    }
}

#[test]
fn mutable_lookup_finds_the_same_entry_as_the_plain_one() {
    let mut nodes = vec![
        group("g", vec![Node::Entry(contact("x", "inner"))]),
        Node::Entry(contact("x", "outer")),
    ];
    assert_eq!(get_entry_by_uuid(&mut nodes, "x").unwrap().get_title(), Some("inner"));
}
