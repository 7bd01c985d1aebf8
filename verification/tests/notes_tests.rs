use keep_in_touch::notes::{
    editor_arguments, escape_notes, read_editor_answer, unescape_notes, EDITOR_PROGRAM,
};
use keep_in_touch::text::trim_end;

#[test]
fn newlines_are_escaped_on_the_wire() {
    assert_eq!(escape_notes("line1\nline2"), "line1\\nline2");
    assert_eq!(escape_notes(""), "");
    assert_eq!(escape_notes("\n"), "\\n");
    assert_eq!(escape_notes("a\n\nb\n"), "a\\n\\nb\\n");
    assert_eq!(escape_notes("no newline"), "no newline");
}

#[test]
fn escapes_are_turned_back() {
    assert_eq!(unescape_notes("line1\\nline2"), "line1\nline2");
    assert_eq!(unescape_notes(""), "");
    assert_eq!(unescape_notes("\\n\\n"), "\n\n");
    assert_eq!(unescape_notes("back\\slash"), "back\\slash");
    assert_eq!(unescape_notes("end\\"), "end\\");
    assert_eq!(unescape_notes("\\\\n"), "\\\n");
}

#[test]
fn editor_round_trip_keeps_the_notes() {
    let notes = "line1\nline2";
    let wire = escape_notes(notes);
    assert_eq!(wire, "line1\\nline2");
    assert_eq!(read_editor_answer("Jane", true, &wire, ""), Ok("line1\nline2".to_string()));
}

#[test]
fn round_trip_of_many_texts() {
    for notes in ["", "a", "a\nb\nc", "tab\there", "a\\b", "\n\nx", "é\nü"] {
        assert_eq!(unescape_notes(&escape_notes(notes)), notes);
    }
}

#[test]
fn trailing_white_space_is_trimmed_once_at_the_end() {
    assert_eq!(trim_end("abc  \n\t"), "abc");
    assert_eq!(trim_end("  abc"), "  abc");
    assert_eq!(trim_end("a \nb \n"), "a \nb");
    assert_eq!(trim_end(" \n "), "");
    assert_eq!(trim_end(""), "");
    assert_eq!(trim_end("x\u{a0}\u{2003}"), "x");
    assert_eq!(read_editor_answer("t", true, "a \\nb \\n", ""), Ok("a \nb".to_string()));
}

#[test]
fn failed_editor_gives_its_diagnostics() {
    assert_eq!(
        read_editor_answer("Jane", false, "ignored\\n", "cancelled"),
        Err("Could not edit notes for Jane: cancelled".to_string())
    );
}

#[test]
fn editor_is_started_as_a_form() {
    assert_eq!(EDITOR_PROGRAM, "yad");
    assert_eq!(
        editor_arguments("Jane"),
        vec![
            "--title=editing notes for `Jane`",
            "--center",
            "--borders=20",
            "--width=500",
            "--height=300",
            "--separator=\n",
            "--form",
            "--field=Notes:TXT",
            "--button=Cancel:1",
            "--button=Save:0",
        ]
    );
}

#[test]
fn notes_that_end_in_no_white_space_come_back_untrimmed() {
    for notes in ["line1\nline2", "a", "", "  lead", "mid dle\n\nx", "tab\tx"] {
        assert_eq!(read_editor_answer("t", true, &escape_notes(notes), ""), Ok(notes.to_string()));
    }
}
