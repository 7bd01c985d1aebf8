use keep_in_touch::details::{describe, show_entry};
use keep_in_touch::entry::{Entry, Value};
use keep_in_touch::tree::{Group, Node};

fn plain(text: &str) -> Value {
    Value::Unprotected(text.to_string())
}

#[test]
fn describe_shows_the_populated_fields_in_order() {
    let mut e = Entry::new("u-1".to_string());
    e.set("Notes", plain("met in Paris\nlikes tea"));
    e.set("Email2", plain("j2@example.org"));
    e.set("PhoneNumber3", plain("+3"));
    e.set("Title", plain("Jane Doe"));
    e.set("BirthDate", plain("1990-01-02"));
    e.set("MatrixID", plain("@jane:example.org"));
    e.set("Email", plain("j@example.org"));
    e.set("Address", plain("1 Main St"));
    e.set("PhoneNumber", plain("+1"));
    e.set("PhoneNumber2", plain("+2"));
    e.set("Nickname", plain("JD"));
    e.set("Custom", plain("kept but not shown"));
    e.set_tags(vec!["friends".to_string(), "work".to_string()]);
    assert_eq!(
        describe(&e),
        vec![
            "UUID: u-1",
            "Name: Jane Doe",
            "Nickname: JD",
            "PhoneNumber: +1",
            "PhoneNumber3: +3",
            "PhoneNumber2: +2",
            "Address: 1 Main St",
            "Email: j@example.org",
            "Email2: j2@example.org",
            "MatrixID: @jane:example.org",
            "BirthDate: 1990-01-02",
            "Tags: friends,work",
            "--- Notes ---",
            "met in Paris\nlikes tea",
            "-------------",
        ]
    );
}

#[test]
fn describe_of_a_bare_entry_is_its_uuid() {
    let e = Entry::new("u-2".to_string());
    assert_eq!(describe(&e), vec!["UUID: u-2"]);
}

#[test]
fn describe_skips_raw_bytes() {
    let mut e = Entry::new("u-3".to_string());
    e.set("Title", plain("T"));
    e.set("PhoneNumber2", Value::Bytes(vec![1]));
    e.set("Email", Value::Bytes(vec![2]));
    e.set("Nickname", Value::Protected("secret".to_string()));
    assert_eq!(describe(&e), vec!["UUID: u-3", "Name: T", "Nickname: secret"]);
}

#[test]
fn show_entry_finds_or_not() {
    let mut e = Entry::new("u-4".to_string());
    e.set("Title", plain("T"));
    let nodes = vec![Node::Group(Group {
        name: "g".to_string(),
        children: vec![Node::Entry(e)],
    })];
    assert_eq!(show_entry(&nodes, "u-4"), Some(vec!["UUID: u-4".to_string(), "Name: T".to_string()]));
    assert_eq!(show_entry(&nodes, "u-5"), None);
}
