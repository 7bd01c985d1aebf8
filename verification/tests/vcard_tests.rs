use keep_in_touch::entry::{Entry, Value};
use keep_in_touch::tree::{Group, Node};
use keep_in_touch::vcard::{dump_entry_to_vcard, dump_group_to_vcard};

fn plain(text: &str) -> Value {
    Value::Unprotected(text.to_string())
}

fn jane() -> Entry {
    let mut e = Entry::new("0a1b".to_string());
    e.set("Title", plain("Jane Doe"));
    e.set("PhoneNumber", plain("+1-555-0100"));
    e
}

#[test]
fn card_without_email() {
    let card = dump_entry_to_vcard(&jane()).unwrap();
    assert_eq!(
        card,
        "BEGIN:VCARD\nVERSION:4.0\nUID:urn:uuid:0a1b\nFN:Jane Doe\nTEL:+1-555-0100\nEND:VCARD\n\n"
    );
    assert!(card.contains("FN:Jane Doe\n"));
    assert!(card.contains("TEL:+1-555-0100\n"));
    assert!(!card.contains("EMAIL:"));
    assert!(card.starts_with("BEGIN:VCARD\n"));
    assert!(card.ends_with("END:VCARD\n\n"));
    assert_eq!(card.matches("BEGIN:VCARD").count(), 1);
    assert_eq!(card.matches("END:VCARD").count(), 1);
}

#[test]
fn card_with_email() {
    let mut e = jane();
    e.set("Email", plain("jane@example.org"));
    e.set("Email2", plain("other@example.org"));
    e.set("PhoneNumber2", plain("+2"));
    assert_eq!(
        dump_entry_to_vcard(&e).unwrap(),
        "BEGIN:VCARD\nVERSION:4.0\nUID:urn:uuid:0a1b\nFN:Jane Doe\nTEL:+1-555-0100\nEMAIL:jane@example.org\nEND:VCARD\n\n"
    );
}

#[test]
fn protected_email_is_left_out() {
    let mut e = jane();
    e.set("Email", Value::Protected("jane@example.org".to_string()));
    let card = dump_entry_to_vcard(&e).unwrap();
    assert!(!card.contains("EMAIL"));
    assert!(!card.contains("jane@example.org"));
}

#[test]
fn no_card_without_phone_number() {
    let mut e = Entry::new("0a1b".to_string());
    e.set("Title", plain("Jane Doe"));
    e.set("Email", plain("jane@example.org"));
    e.set("Nickname", plain("J"));
    e.set("PhoneNumber2", plain("+2"));
    assert_eq!(dump_entry_to_vcard(&e), None);
}

#[test]
fn no_card_with_protected_phone_number() {
    let mut e = jane();
    e.set("Email", plain("jane@example.org"));
    e.set("PhoneNumber", Value::Protected("+1-555-0100".to_string()));
    assert_eq!(dump_entry_to_vcard(&e), None);
    e.set("PhoneNumber", Value::Bytes(vec![1]));
    assert_eq!(dump_entry_to_vcard(&e), None);
}

#[test]
fn no_card_with_protected_title() {
    let mut e = jane();
    e.set("Title", Value::Protected("Jane Doe".to_string()));
    e.set("Email", plain("jane@example.org"));
    assert_eq!(dump_entry_to_vcard(&e), None);
    e.set("Title", Value::Bytes(vec![74]));
    assert_eq!(dump_entry_to_vcard(&e), None);
    let root = Group { name: "root".to_string(), children: vec![Node::Entry(e)] };
    assert_eq!(dump_group_to_vcard(&root), "");
}

#[test]
fn protected_text_never_reaches_the_export() {
    let mut hidden = Entry::new("1".to_string());
    hidden.set("Title", Value::Protected("Secret Name".to_string()));
    hidden.set("PhoneNumber", plain("1"));
    let mut shown = jane();
    shown.set("Email", Value::Protected("secret@example.org".to_string()));
    shown.set("Notes", Value::Protected("secret notes".to_string()));
    let root = Group {
        name: "root".to_string(),
        children: vec![Node::Entry(hidden), Node::Entry(shown)],
    };
    let out = dump_group_to_vcard(&root);
    assert_eq!(
        out,
        "BEGIN:VCARD\nVERSION:4.0\nUID:urn:uuid:0a1b\nFN:Jane Doe\nTEL:+1-555-0100\nEND:VCARD\n\n"
    );
    assert!(!out.contains("Secret"));
    assert!(!out.contains("secret"));
}

#[test]
fn no_card_without_title() {
    let mut e = Entry::new("0a1b".to_string());
    e.set("PhoneNumber", plain("+1-555-0100"));
    assert_eq!(dump_entry_to_vcard(&e), None);
}

#[test]
fn group_dump_walks_the_tree_in_order() {
    let mut second = Entry::new("2".to_string());
    second.set("Title", plain("B"));
    second.set("PhoneNumber", plain("2"));
    let mut skipped = Entry::new("3".to_string());
    skipped.set("Title", plain("C"));
    let mut last = Entry::new("4".to_string());
    last.set("Title", plain("D"));
    last.set("PhoneNumber", plain("4"));
    let root = Group {
        name: "root".to_string(),
        children: vec![
            Node::Group(Group {
                name: "inner".to_string(),
                children: vec![Node::Entry(second), Node::Entry(skipped)],
            }),
            Node::Entry(jane()),
            Node::Group(Group { name: "none".to_string(), children: vec![] }),
            Node::Entry(last),
        ],
    };
    let expected = "BEGIN:VCARD\nVERSION:4.0\nUID:urn:uuid:2\nFN:B\nTEL:2\nEND:VCARD\n\n\
BEGIN:VCARD\nVERSION:4.0\nUID:urn:uuid:0a1b\nFN:Jane Doe\nTEL:+1-555-0100\nEND:VCARD\n\n\
BEGIN:VCARD\nVERSION:4.0\nUID:urn:uuid:4\nFN:D\nTEL:4\nEND:VCARD\n\n";
    assert_eq!(dump_group_to_vcard(&root), expected);
}

#[test]
fn empty_group_dumps_nothing() {
    let root = Group { name: "root".to_string(), children: vec![] };
    assert_eq!(dump_group_to_vcard(&root), "");
}
