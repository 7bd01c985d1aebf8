use keep_in_touch::browse::{
    display_entries, find_hits, get_matching_entries, search_entries, ListRow, SearchHit,
};
use keep_in_touch::entry::{Entry, Value};
use keep_in_touch::tree::{Group, Node};

fn contact(uuid: &str, title: &str) -> Entry {
    let mut e = Entry::new(uuid.to_string());
    e.set("Title", Value::Unprotected(title.to_string()));
    e
}

fn tagged(uuid: &str, title: &str, tags: &[&str]) -> Entry {
    let mut e = contact(uuid, title);
    e.set_tags(tags.iter().map(|t| t.to_string()).collect());
    e
}

fn group(children: Vec<Node>) -> Node {
    Node::Group(Group { name: "g".to_string(), children })
}

fn sample() -> Vec<Node> {
    let mut untitled = Entry::new("9".to_string());
    untitled.set("Nickname", Value::Unprotected("ghost".to_string()));
    untitled.set_tags(vec!["friends".to_string()]);
    vec![
        Node::Entry(tagged("1", "Zoe", &["friends"])),
        group(vec![
            Node::Entry(tagged("2", "adam", &["work", "friends"])),
            group(vec![Node::Entry(contact("3", "Mia"))]),
            Node::Entry(untitled),
        ]),
        Node::Entry(tagged("4", "Bob", &["work"])),
    ]
}

fn ids(entries: &[Entry]) -> Vec<String> {
    entries.iter().map(|e| e.get_uuid().to_string()).collect()
}

fn rows(list: &[ListRow]) -> Vec<(String, String)> {
    list.iter().map(|r| (r.uuid.clone(), r.title.clone())).collect()
}

fn hits(list: &[SearchHit]) -> Vec<(String, String, String)> {
    list.iter().map(|h| (h.uuid.clone(), h.field.clone(), h.value.clone())).collect()
}

fn triple(a: &str, b: &str, c: &str) -> (String, String, String) {
    (a.to_string(), b.to_string(), c.to_string())
}

#[test]
fn matching_takes_every_titled_entry_once_in_walk_order() {
    let found = get_matching_entries(&sample(), None);
    assert_eq!(ids(&found), vec!["1", "2", "3", "4"]);
}

#[test]
fn matching_leaves_out_entries_without_title() {
    let found = get_matching_entries(&sample(), Some("friends".to_string()));
    assert_eq!(ids(&found), vec!["1", "2"]);
}

#[test]
fn matching_by_tag_that_nobody_has_is_empty() {
    assert!(get_matching_entries(&sample(), Some("nobody".to_string())).is_empty());
    assert!(get_matching_entries(&Vec::new(), None).is_empty());
}

#[test]
fn listing_is_sorted_by_title_in_code_point_order() {
    let list = display_entries(&sample(), None);
    assert_eq!(
        rows(&list),
        vec![
            ("4".to_string(), "Bob".to_string()),
            ("3".to_string(), "Mia".to_string()),
            ("1".to_string(), "Zoe".to_string()),
            ("2".to_string(), "adam".to_string()),
        ]
    );
    assert_eq!(list[0].line(), "4 Bob");
}

#[test]
fn listing_by_tag() {
    let list = display_entries(&sample(), Some("work".to_string()));
    assert_eq!(
        rows(&list),
        vec![("4".to_string(), "Bob".to_string()), ("2".to_string(), "adam".to_string())]
    );
    assert!(display_entries(&sample(), Some("friendz".to_string())).is_empty());
}

#[test]
fn listing_keeps_entries_that_share_a_title() {
    let nodes = vec![
        Node::Entry(contact("1", "Sam")),
        Node::Entry(contact("2", "Al")),
        Node::Entry(contact("3", "Sam")),
    ];
    let list = display_entries(&nodes, None);
    assert_eq!(list.len(), 3);
    assert_eq!(list[0].title, "Al");
    assert_eq!(list[1].title, "Sam");
    assert_eq!(list[2].title, "Sam");
    let mut both: Vec<String> = vec![list[1].uuid.clone(), list[2].uuid.clone()];
    both.sort();
    assert_eq!(both, vec!["1", "3"]);
}

#[test]
fn search_is_blind_to_case_in_names() {
    let found = search_entries(&sample(), "ZO");
    assert_eq!(hits(&found), vec![triple("1", "Title", "Zoe")]);
    let found = search_entries(&sample(), "A");
    assert_eq!(hits(&found), vec![triple("2", "Title", "adam"), triple("3", "Title", "Mia")]);
    assert_eq!(found[0].line(), "2 Title adam");
}

#[test]
fn search_reports_each_field_that_matches() {
    let mut e = contact("7", "Ann 555");
    e.set("Nickname", Value::Unprotected("Annie".to_string()));
    e.set("PhoneNumber", Value::Unprotected("555-0100".to_string()));
    let nodes = vec![Node::Entry(e)];
    assert_eq!(
        hits(&search_entries(&nodes, "ann")),
        vec![triple("7", "Title", "Ann 555"), triple("7", "Nickname", "Annie")]
    );
    assert_eq!(
        hits(&search_entries(&nodes, "555")),
        vec![triple("7", "Title", "Ann 555"), triple("7", "PhoneNumber", "555-0100")]
    );
    assert!(search_entries(&nodes, "zzz").is_empty());
}

#[test]
fn search_reaches_entries_without_title() {
    let found = search_entries(&sample(), "GHOST");
    assert_eq!(hits(&found), vec![triple("9", "Nickname", "ghost")]);
}

#[test]
fn phone_numbers_are_searched_for_the_term_as_typed() {
    let mut e = contact("7", "Bob");
    e.set("PhoneNumber", Value::Unprotected("555-CALL".to_string()));
    let nodes = vec![Node::Entry(e)];
    assert_eq!(hits(&search_entries(&nodes, "CALL")), vec![triple("7", "PhoneNumber", "555-CALL")]);
    assert!(search_entries(&nodes, "call").is_empty());
    assert_eq!(hits(&search_entries(&nodes, "555")), vec![triple("7", "PhoneNumber", "555-CALL")]);
    assert_eq!(
        hits(&search_entries(&nodes, "B")),
        vec![triple("7", "Title", "Bob")]
    );
}

#[test]
fn find_hits_takes_both_forms_of_the_term() {
    let mut e = contact("7", "Call Me");
    e.set("Nickname", Value::Unprotected("CALLER".to_string()));
    e.set("PhoneNumber", Value::Unprotected("555-CALL".to_string()));
    let nodes = vec![Node::Entry(e)];
    assert_eq!(
        hits(&find_hits(&nodes, "CALL", "call")),
        vec![
            triple("7", "Title", "Call Me"),
            triple("7", "Nickname", "CALLER"),
            triple("7", "PhoneNumber", "555-CALL"),
        ]
    );
    assert_eq!(
        hits(&search_entries(&nodes, "Call")),
        vec![triple("7", "Title", "Call Me"), triple("7", "Nickname", "CALLER")]
    );
    assert_eq!(hits(&find_hits(&nodes, "x", "call")).len(), 2);
    assert_eq!(hits(&find_hits(&nodes, "555", "x")), vec![triple("7", "PhoneNumber", "555-CALL")]);
}

#[test]
fn empty_term_matches_every_field_that_is_there() {
    let found = search_entries(&sample(), "");
    assert_eq!(found.len(), 5);
}
