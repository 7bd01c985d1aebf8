use keep_in_touch::command::{
    finish_command, make_command, parse_line, parse_words, schema_for, ArgumentError, Command,
    LineError,
};

fn words(items: &[&str]) -> Vec<String> {
    items.iter().map(|s| s.to_string()).collect()
}

fn parsed(items: &[&str]) -> Command {
    match parse_words(&words(items)) {
        Ok(Some(c)) => c,
        Ok(None) => panic!("no command"),
        Err(e) => panic!("{}", e.message),
    }
}

fn refused(items: &[&str]) -> ArgumentError {
    match parse_words(&words(items)) {
        Err(e) => e,
        Ok(_) => panic!("accepted"),
    }
}

fn faulted(items: &[&str], piece: &str) {
    let e = refused(items);
    assert!(e.fault, "{}", e.message);
    assert!(e.message.contains(piece), "{}", e.message);
}

fn tag_of(items: &[&str]) -> Option<String> {
    match parsed(items) {
        Command::List { tag } => tag,
        _ => panic!("another command"),
    }
}

#[test]
fn no_words_mean_nothing() {
    assert!(matches!(parse_words(&Vec::new()), Ok(None)));
    assert!(matches!(parse_line(""), Ok(None)));
    assert!(matches!(parse_line("   "), Ok(None)));
}

#[test]
fn ls_takes_an_optional_tag() {
    assert_eq!(tag_of(&["ls"]), None);
    assert_eq!(tag_of(&["ls", "--tag", "friends"]).as_deref(), Some("friends"));
    assert_eq!(tag_of(&["ls", "-t", "work"]).as_deref(), Some("work"));
}

#[test]
fn options_take_attached_values() {
    assert_eq!(tag_of(&["ls", "--tag=friends"]).as_deref(), Some("friends"));
    assert_eq!(tag_of(&["ls", "-tfriends"]).as_deref(), Some("friends"));
    assert_eq!(tag_of(&["ls", "-t=friends"]).as_deref(), Some("friends"));
    match parsed(&["edit", "id", "--phone=+1", "-nJD", "--tags=a,b"]) {
        Command::Edit { uuid, changes } => {
            assert_eq!(uuid, "id");
            assert_eq!(changes.phone.as_deref(), Some("+1"));
            assert_eq!(changes.nickname.as_deref(), Some("JD"));
            assert_eq!(changes.tags.as_deref(), Some("a,b"));
        }
        _ => panic!("another command"),
    }
}

#[test]
fn every_command_with_arguments_has_a_help_option() {
    for name in ["ls", "search", "add", "export-vcard", "edit-notes", "edit-field", "edit"] {
        for flag in ["--help", "-h"] {
            let e = refused(&[name, flag]);
            assert!(!e.fault, "{}", e.message);
            assert!(e.message.contains("Usage:"), "{}", e.message);
            assert!(e.message.contains("--help"), "{}", e.message);
        }
    }
    let e = refused(&["ls", "--help"]);
    assert!(e.message.contains("--tag <TAG>"), "{}", e.message);
    assert!(e.message.contains("list entries with a specific tag"), "{}", e.message);
    let e = refused(&["edit", "-h"]);
    assert!(e.message.contains("--birthdate <date>"), "{}", e.message);
    assert!(e.message.contains("tags associated with the contact"), "{}", e.message);
}

#[test]
fn a_double_hyphen_ends_the_options() {
    assert!(matches!(parsed(&["search", "--", "--odd"]), Command::Search { term } if term == "--odd"));
    assert!(matches!(parsed(&["add", "--", "-x"]), Command::Add { name } if name == "-x"));
    assert!(matches!(parsed(&["add", "-"]), Command::Add { name } if name == "-"));
}

#[test]
fn ls_refuses_what_it_cannot_use() {
    faulted(&["ls", "extra"], "unexpected argument 'extra'");
    faulted(&["ls", "--tag"], "a value is required for '--tag <TAG>'");
    faulted(&["ls", "--tags", "x"], "unexpected argument '--tags'");
    faulted(&["ls", "-t", "a", "--tag", "b"], "cannot be used multiple times");
}

#[test]
fn commands_with_one_value() {
    assert!(matches!(parsed(&["show", "id"]), Command::Show { uuid } if uuid == "id"));
    assert!(matches!(parsed(&["search", "jane doe"]), Command::Search { term } if term == "jane doe"));
    assert!(matches!(parsed(&["add", "Jane Doe"]), Command::Add { name } if name == "Jane Doe"));
    assert!(
        matches!(parsed(&["export-vcard", "/tmp/x.vcf"]), Command::ExportVcard { out } if out == "/tmp/x.vcf")
    );
    assert!(matches!(parsed(&["edit-notes", "id"]), Command::EditNotes { uuid } if uuid == "id"));
}

#[test]
fn a_missing_value_is_named() {
    faulted(&["search"], "<term>");
    faulted(&["add"], "<name>");
    faulted(&["export-vcard"], "<out>");
    faulted(&["edit-notes"], "<uuid>");
    faulted(&["edit"], "<uuid>");
    faulted(&["edit-field", "id"], "<name>");
    faulted(&["edit-field", "id", "Notes"], "<value>");
    faulted(&["search"], "required arguments were not provided");
}

#[test]
fn a_value_too_many_is_named() {
    faulted(&["search", "a", "b"], "unexpected argument 'b'");
    faulted(&["search", "--tag", "b"], "unexpected argument '--tag'");
    faulted(&["edit-field", "a", "b", "c", "d"], "unexpected argument 'd'");
}

#[test]
fn show_takes_the_one_word_after_it_as_it_stands() {
    assert!(matches!(parsed(&["show", "id"]), Command::Show { uuid } if uuid == "id"));
    assert!(matches!(parsed(&["show", "--help"]), Command::Show { uuid } if uuid == "--help"));
    assert!(matches!(parsed(&["show", "-x"]), Command::Show { uuid } if uuid == "-x"));
    for items in [&["show"][..], &["show", "a", "b"][..], &["show", "a", "b", "c"][..]] {
        let e = refused(items);
        assert!(e.fault);
        assert_eq!(e.message, "Invalid number of arguments.");
    }
}

#[test]
fn edit_field_takes_three_values() {
    match parsed(&["edit-field", "id", "Notes", "hello"]) {
        Command::EditField { uuid, name, value } => {
            assert_eq!(uuid, "id");
            assert_eq!(name, "Notes");
            assert_eq!(value, "hello");
        }
        _ => panic!("another command"),
    }
}

#[test]
fn edit_takes_any_of_its_options() {
    match parsed(&["edit", "id"]) {
        Command::Edit { uuid, changes } => {
            assert_eq!(uuid, "id");
            assert!(changes.birth_date.is_none());
            assert!(changes.address.is_none());
            assert!(changes.email.is_none());
            assert!(changes.phone.is_none());
            assert!(changes.matrix_id.is_none());
            assert!(changes.nickname.is_none());
            assert!(changes.tags.is_none());
        }
        _ => panic!("another command"),
    }
    match parsed(&[
        "edit",
        "--birthdate",
        "1990-01-02",
        "-a",
        "1 Main St",
        "id",
        "--email",
        "j@x.org",
        "-p",
        "+1",
        "--matrix",
        "@j:x.org",
        "-n",
        "JD",
        "--tags",
        "a,b,c",
    ]) {
        Command::Edit { uuid, changes } => {
            assert_eq!(uuid, "id");
            assert_eq!(changes.birth_date.as_deref(), Some("1990-01-02"));
            assert_eq!(changes.address.as_deref(), Some("1 Main St"));
            assert_eq!(changes.email.as_deref(), Some("j@x.org"));
            assert_eq!(changes.phone.as_deref(), Some("+1"));
            assert_eq!(changes.matrix_id.as_deref(), Some("@j:x.org"));
            assert_eq!(changes.nickname.as_deref(), Some("JD"));
            assert_eq!(changes.tags.as_deref(), Some("a,b,c"));
        }
        _ => panic!("another command"),
    }
    match parsed(&["edit", "id", "-b", "1", "-e", "2", "-m", "3", "-t", "4"]) {
        Command::Edit { changes, .. } => {
            assert_eq!(changes.birth_date.as_deref(), Some("1"));
            assert_eq!(changes.email.as_deref(), Some("2"));
            assert_eq!(changes.matrix_id.as_deref(), Some("3"));
            assert_eq!(changes.tags.as_deref(), Some("4"));
            assert!(changes.phone.is_none());
        }
        _ => panic!("another command"),
    }
}

#[test]
fn edit_refuses_bad_options() {
    faulted(&["edit", "id", "--color", "red"], "unexpected argument '--color'");
    faulted(&["edit", "id", "--phone"], "a value is required for '--phone <phone>'");
    faulted(&["edit", "id", "-p", "1", "-p", "2"], "cannot be used multiple times");
    faulted(&["edit", "id", "other"], "unexpected argument 'other'");
}

#[test]
fn help_exit_and_unknown_commands() {
    assert!(matches!(parsed(&["help"]), Command::Help));
    assert!(matches!(parsed(&["?"]), Command::Help));
    assert!(matches!(parsed(&["help", "ls"]), Command::Help));
    assert!(matches!(parsed(&["exit"]), Command::Exit));
    assert!(matches!(parsed(&["exit", "--now"]), Command::Exit));
    assert!(matches!(parsed(&["quit"]), Command::Invalid { name } if name == "quit"));
    assert!(matches!(parsed(&["LS"]), Command::Invalid { name } if name == "LS"));
    assert!(matches!(parsed(&["frobnicate", "--x"]), Command::Invalid { name } if name == "frobnicate"));
}

#[test]
fn lines_are_cut_as_a_shell_cuts_them() {
    match parse_line("edit-field 42 Notes \"hello world\"") {
        Ok(Some(Command::EditField { uuid, name, value })) => {
            assert_eq!(uuid, "42");
            assert_eq!(name, "Notes");
            assert_eq!(value, "hello world");
        }
        _ => panic!("not understood"),
    }
    assert!(matches!(parse_line("add 'Jane Doe'"), Ok(Some(Command::Add { name })) if name == "Jane Doe"));
    assert!(matches!(parse_line("add Jane\\ Doe"), Ok(Some(Command::Add { name })) if name == "Jane Doe"));
    assert!(
        matches!(parse_line("  ls   --tag   friends  "), Ok(Some(Command::List { tag: Some(t) })) if t == "friends")
    );
}

#[test]
fn mismatched_quotes_are_an_error() {
    assert!(matches!(parse_line("add \"Jane"), Err(LineError::MismatchedQuotes)));
    assert!(matches!(parse_line("add 'Jane"), Err(LineError::MismatchedQuotes)));
    match parse_line("add \"Jane") {
        Err(e) => assert_eq!(e.message(), "Mismatched quotes"),
        Ok(_) => panic!("accepted"),
    }
}

#[test]
fn argument_errors_pass_through_the_line() {
    match parse_line("edit-notes") {
        Err(e) => {
            assert!(matches!(&e, LineError::Arguments(a) if a.fault));
            let message = e.message();
            assert!(message.contains("<uuid>"), "{}", message);
            assert_eq!(message, message.trim_end());
        }
        Ok(_) => panic!("accepted"),
    }
}

#[test]
fn each_command_declares_its_arguments() {
    let ls = schema_for("ls").unwrap();
    assert_eq!(ls.len(), 1);
    assert_eq!(ls[0].id, "t");
    assert_eq!(ls[0].short, Some('t'));
    assert_eq!(ls[0].long, Some("tag"));
    assert!(!ls[0].required);
    assert_eq!(ls[0].value_name, "TAG");
    let edit = schema_for("edit").unwrap();
    assert_eq!(edit.len(), 8);
    assert!(edit[0].required && edit[0].short.is_none() && edit[0].long.is_none());
    let longs: Vec<&str> = edit[1..].iter().map(|a| a.long.unwrap()).collect();
    assert_eq!(longs, vec!["birthdate", "address", "matrix", "nickname", "phone", "tags", "email"]);
    let shorts: Vec<char> = edit[1..].iter().map(|a| a.short.unwrap()).collect();
    assert_eq!(shorts, vec!['b', 'a', 'm', 'n', 'p', 't', 'e']);
    assert_eq!(schema_for("edit-field").unwrap().len(), 3);
    for name in ["search", "add", "export-vcard", "edit-notes"] {
        let s = schema_for(name).unwrap();
        assert_eq!(s.len(), 1);
        assert!(s[0].required);
    }
    for name in ["show", "help", "?", "exit", "quit", ""] {
        assert!(schema_for(name).is_none());
    }
}

#[test]
fn commands_are_made_of_values() {
    let some = |s: &str| Some(s.to_string());
    assert!(matches!(make_command("ls", &vec![None]), Some(Command::List { tag: None })));
    assert!(matches!(make_command("ls", &vec![]), Some(Command::List { tag: None })));
    assert!(
        matches!(make_command("search", &vec![some("x")]), Some(Command::Search { term }) if term == "x")
    );
    assert!(make_command("search", &vec![None]).is_none());
    assert!(make_command("search", &vec![]).is_none());
    assert!(make_command("show", &vec![some("x")]).is_none());
    assert!(make_command("edit-field", &vec![some("a"), some("b")]).is_none());
    assert!(make_command("help", &vec![]).is_none());
    match make_command(
        "edit",
        &vec![some("id"), some("b"), some("a"), some("m"), some("n"), some("p"), some("t"), some("e")],
    ) {
        Some(Command::Edit { uuid, changes }) => {
            assert_eq!(uuid, "id");
            assert_eq!(changes.birth_date.as_deref(), Some("b"));
            assert_eq!(changes.address.as_deref(), Some("a"));
            assert_eq!(changes.matrix_id.as_deref(), Some("m"));
            assert_eq!(changes.nickname.as_deref(), Some("n"));
            assert_eq!(changes.phone.as_deref(), Some("p"));
            assert_eq!(changes.tags.as_deref(), Some("t"));
            assert_eq!(changes.email.as_deref(), Some("e"));
        }
        _ => panic!("no edit"),
    }
}

#[test]
fn values_that_are_not_all_there_are_an_error() {
    match finish_command("search", Ok(vec![None])) {
        Err(e) => {
            assert!(e.fault);
            assert_eq!(e.message, "error: the arguments of search are incomplete");
        }
        Ok(_) => panic!("accepted"),
    }
    let refusal = ArgumentError { message: "no".to_string(), fault: false };
    match finish_command("search", Err(refusal)) {
        Err(e) => {
            assert!(!e.fault);
            assert_eq!(e.message, "no");
        }
        Ok(_) => panic!("accepted"),
    }
    assert!(matches!(
        finish_command("add", Ok(vec![Some("N".to_string())])),
        Ok(Some(Command::Add { name })) if name == "N"
    ));
}
