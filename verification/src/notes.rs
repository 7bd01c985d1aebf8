use crate::text::{chars_of, string_of, texts, trim_end, trimmed_end, white_space};
use vstd::prelude::*;
use vstd::string::StringExecFns;

verus! {

/// The program that shows the form in which notes are edited.
pub const EDITOR_PROGRAM: &'static str = "yad";

/// What stands for one character on the way to the editor: a line feed becomes a
/// backslash and the letter n, every other character stays.
pub open spec fn escaped_char(c: char) -> Seq<char> {
    if c == '\n' {
        seq!['\\', 'n']
    } else {
        seq![c]
    }
}

/// A text as it is handed to the editor, which takes no line feed inside a field.
pub open spec fn escaped(s: Seq<char>) -> Seq<char>
    decreases s.len(),
{
    if s.len() == 0 {
        Seq::empty()
    } else {
        escaped_char(s[0]) + escaped(s.skip(1))
    }
}

/// A text that came from the editor with its line feeds put back: read from the left,
/// each backslash that the letter n follows becomes, with that letter, one line feed.
pub open spec fn unescaped(s: Seq<char>) -> Seq<char>
    decreases s.len(),
{
    if s.len() == 0 {
        Seq::empty()
    } else if s.len() >= 2 && s[0] == '\\' && s[1] == 'n' {
        seq!['\n'] + unescaped(s.skip(2))
    } else {
        seq![s[0]] + unescaped(s.skip(1))
    }
}

/// No backslash in the text is followed by the letter n.
pub open spec fn free_of_escapes(s: Seq<char>) -> bool {
    forall|i: int| 0 <= i < s.len() - 1 ==> !(#[trigger] s[i] == '\\' && s[i + 1] == 'n')
}

/// A text in which no backslash is followed by the letter n comes back from escaping and
/// unescaping as it was.
pub proof fn unescape_undoes_escape(s: Seq<char>)
    requires
        free_of_escapes(s),
    ensures
        unescaped(escaped(s)) == s,
    decreases s.len(),
{
    if s.len() > 0 {
        let rest = s.skip(1);
        assert forall|i: int| 0 <= i < rest.len() - 1 implies !(#[trigger] rest[i] == '\\'
            && rest[i + 1] == 'n') by {
            assert(rest[i] == s[i + 1] && rest[i + 1] == s[i + 2]);
        }
        unescape_undoes_escape(rest);
        let wire = escaped(s);
        if s[0] == '\n' {
            assert(wire.skip(2) =~= escaped(rest));
            assert(seq!['\n'] + rest =~= s);
        } else {
            assert(wire[0] == s[0]);
            assert(wire.skip(1) =~= escaped(rest));
            if rest.len() > 0 {
                assert(rest[0] == s[1]);
                assert(escaped(rest)[0] == escaped_char(rest[0])[0]);
                assert(wire[1] == escaped(rest)[0]);
            }
            assert(!(wire.len() >= 2 && wire[0] == '\\' && wire[1] == 'n'));
            assert(seq![s[0]] + rest =~= s);
        }
    }
}

/// The text for the editor's input: the notes with each line feed escaped.
pub fn escape_notes(notes: &str) -> (r: String)
    ensures
        r@ == escaped(notes@),
{
    let v = chars_of(notes);
    let mut out: Vec<char> = Vec::new();
    let mut i: usize = 0;
    assert(v@.skip(0) =~= v@);
    assert(out@ + escaped(v@) =~= escaped(v@));
    while i < v.len()
        invariant
            i <= v.len(),
            v@ == notes@,
            out@ + escaped(v@.skip(i as int)) == escaped(v@),
        decreases v.len() - i,
    {
        let ghost before = out@;
        let ghost rest = escaped(v@.skip(i + 1));
        proof {
            assert(v@.skip(i as int)[0] == v@[i as int]);
            assert(v@.skip(i as int).skip(1) =~= v@.skip(i + 1));
        }
        if v[i] == '\n' {
            out.push('\\');
            out.push('n');
            assert(out@ + rest =~= before + (seq!['\\', 'n'] + rest));
        } else {
            out.push(v[i]);
            assert(out@ + rest =~= before + (seq![v@[i as int]] + rest));
        }
        i += 1;
    }
    assert(out@ + Seq::<char>::empty() =~= out@);
    string_of(&out)
}

/// The text with each escaped line feed put back.
pub fn unescape_notes(wire: &str) -> (r: String)
    ensures
        r@ == unescaped(wire@),
{
    let v = chars_of(wire);
    let mut out: Vec<char> = Vec::new();
    let mut i: usize = 0;
    assert(v@.skip(0) =~= v@);
    assert(out@ + unescaped(v@) =~= unescaped(v@));
    while i < v.len()
        invariant
            i <= v.len(),
            v@ == wire@,
            out@ + unescaped(v@.skip(i as int)) == unescaped(v@),
        decreases v.len() - i,
    {
        let ghost before = out@;
        let ghost here = v@.skip(i as int);
        proof {
            assert(here[0] == v@[i as int]);
            assert(here.skip(1) =~= v@.skip(i + 1));
        }
        if v[i] == '\\' && i + 1 < v.len() && v[i + 1] == 'n' {
            proof {
                assert(here[1] == v@[i + 1]);
                assert(here.skip(2) =~= v@.skip(i + 2));
            }
            out.push('\n');
            assert(out@ + unescaped(v@.skip(i + 2)) =~= before + (seq!['\n'] + unescaped(
                v@.skip(i + 2),
            )));
            i += 2;
        } else {
            proof {
                if here.len() >= 2 {
                    assert(here[1] == v@[i + 1]);
                }
            }
            out.push(v[i]);
            assert(out@ + unescaped(v@.skip(i + 1)) =~= before + (seq![v@[i as int]] + unescaped(
                v@.skip(i + 1),
            )));
            i += 1;
        }
    }
    assert(out@ + Seq::<char>::empty() =~= out@);
    string_of(&out)
}

/// The arguments with which the editor is started: a form with one field of several
/// lines, titled after the entry, with a button to cancel and one to save.
pub open spec fn editor_arguments_for(entry_title: Seq<char>) -> Seq<Seq<char>> {
    seq![
        "--title=editing notes for `"@ + entry_title + "`"@,
        "--center"@,
        "--borders=20"@,
        "--width=500"@,
        "--height=300"@,
        "--separator=\n"@,
        "--form"@,
        "--field=Notes:TXT"@,
        "--button=Cancel:1"@,
        "--button=Save:0"@,
    ]
}

/// The arguments with which the editor is started for an entry.
pub fn editor_arguments(entry_title: &str) -> (r: Vec<String>)
    ensures
        texts(r@) == editor_arguments_for(entry_title@),
{
    let mut title = String::from_str("--title=editing notes for `");
    title.append(entry_title);
    title.append("`");
    let mut r: Vec<String> = Vec::new();
    r.push(title);
    r.push(String::from_str("--center"));
    r.push(String::from_str("--borders=20"));
    r.push(String::from_str("--width=500"));
    r.push(String::from_str("--height=300"));
    r.push(String::from_str("--separator=\n"));
    r.push(String::from_str("--form"));
    r.push(String::from_str("--field=Notes:TXT"));
    r.push(String::from_str("--button=Cancel:1"));
    r.push(String::from_str("--button=Save:0"));
    assert(texts(r@) =~= editor_arguments_for(entry_title@));
    r
}

/// What the editor's answer means: the edited notes where it ended well, and else the
/// message that says for which entry the notes could not be edited and why.
pub open spec fn read_answer(
    entry_title: Seq<char>,
    success: bool,
    output: Seq<char>,
    diagnostics: Seq<char>,
) -> Result<Seq<char>, Seq<char>> {
    if success {
        Ok(trimmed_end(unescaped(output)))
    } else {
        Err("Could not edit notes for "@ + entry_title + ": "@ + diagnostics)
    }
}

/// The view of an answer of the editor, as it was read.
pub open spec fn answer_view(r: Result<String, String>) -> Result<Seq<char>, Seq<char>> {
    match r {
        Ok(t) => Ok(t@),
        Err(t) => Err(t@),
    }
}

/// Reads the editor's answer. `success` says whether it ended with status zero, `output`
/// and `diagnostics` are what it wrote to its two streams.
pub fn read_editor_answer(entry_title: &str, success: bool, output: &str, diagnostics: &str) -> (r:
    Result<String, String>)
    ensures
        answer_view(r) == read_answer(entry_title@, success, output@, diagnostics@),
{
    if !success {
        let mut message = String::from_str("Could not edit notes for ");
        message.append(entry_title);
        message.append(": ");
        message.append(diagnostics);
        return Err(message);
    }
    let response = unescape_notes(output);
    Ok(trim_end(response.as_str()))
}

/// Notes in which no backslash is followed by the letter n come back from the editor as
/// they went, but for white space at their end, if the editor hands back what it got.
pub proof fn editor_round_trip(entry_title: Seq<char>, notes: Seq<char>, diagnostics: Seq<char>)
    requires
        free_of_escapes(notes),
    ensures
        read_answer(entry_title, true, escaped(notes), diagnostics) == Ok::<
            Seq<char>,
            Seq<char>,
        >(trimmed_end(notes)),
{
    unescape_undoes_escape(notes);
}

/// So notes that do not end in white space, and in which no backslash is followed by
/// the letter n, come back from the editor exactly as they went, if the editor hands
/// back what it got.
pub proof fn editor_round_trip_is_exact(
    entry_title: Seq<char>,
    notes: Seq<char>,
    diagnostics: Seq<char>,
)
    requires
        free_of_escapes(notes),
        notes.len() == 0 || !white_space(notes.last()),
    ensures
        read_answer(entry_title, true, escaped(notes), diagnostics) == Ok::<
            Seq<char>,
            Seq<char>,
        >(notes),
{
    unescape_undoes_escape(notes);
}

} // verus!
