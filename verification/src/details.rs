use crate::entry::{
    fields_view, Entry, EntryView, Field, Value, ValueView, ADDRESS_TAG_NAME, BIRTH_DATE_TAG_NAME,
    EMAIL_TAG_NAME, MATRIX_ID_TAG_NAME, NICKNAME_TAG_NAME, NOTES_TAG_NAME, PHONE_NUMBER_TAG_NAME,
};
use crate::text::{has_prefix, join, joined, opt_text, same_text, starts_with, texts};
use crate::tree::{entries_of, entry_by_uuid, find_entry, Node};
use vstd::prelude::*;
use vstd::string::StringExecFns;

verus! {

/// A line for a field that has a text: the label, a colon and a space, the text.
pub open spec fn labelled(label: Seq<char>, text: Option<Seq<char>>) -> Seq<Seq<char>> {
    match text {
        Some(t) => seq![label + ": "@ + t],
        None => Seq::empty(),
    }
}

/// Whether a field is a further value of the field `base`: its name begins with `base`
/// and is longer, and it holds a text.
pub open spec fn is_variant(field: (Seq<char>, ValueView), base: Seq<char>) -> bool {
    has_prefix(field.0, base) && field.0 != base && field.1.text() is Some
}

/// The lines of the further values of the field `base`, in the order of the fields.
pub open spec fn variant_lines(fields: Seq<(Seq<char>, ValueView)>, base: Seq<char>) -> Seq<
    Seq<char>,
>
    decreases fields.len(),
{
    if fields.len() == 0 {
        Seq::empty()
    } else {
        variant_lines(fields.drop_last(), base) + if is_variant(fields.last(), base) {
            labelled(fields.last().0, fields.last().1.text())
        } else {
            Seq::empty()
        }
    }
}

/// The line of the tags, where there are any: they stand after one another with commas.
pub open spec fn tag_lines(tags: Seq<Seq<char>>) -> Seq<Seq<char>> {
    if tags.len() > 0 {
        seq!["Tags: "@ + joined(tags, ","@)]
    } else {
        Seq::empty()
    }
}

/// The block of the notes, where there are any: a heading, the notes, a closing rule.
pub open spec fn notes_lines(notes: Option<Seq<char>>) -> Seq<Seq<char>> {
    match notes {
        Some(n) => seq!["--- Notes ---"@, n, "-------------"@],
        None => Seq::empty(),
    }
}

/// What is shown of an entry: its identifier, then each of the known fields that has a
/// text, the further phone numbers and addresses after the first, the tags, the notes.
pub open spec fn entry_lines(e: EntryView) -> Seq<Seq<char>> {
    seq!["UUID: "@ + e.uuid] + labelled("Name"@, e.title()) + labelled(
        NICKNAME_TAG_NAME@,
        e.text(NICKNAME_TAG_NAME@),
    ) + labelled(PHONE_NUMBER_TAG_NAME@, e.text(PHONE_NUMBER_TAG_NAME@)) + variant_lines(
        e.fields,
        PHONE_NUMBER_TAG_NAME@,
    ) + labelled(ADDRESS_TAG_NAME@, e.text(ADDRESS_TAG_NAME@)) + labelled(
        EMAIL_TAG_NAME@,
        e.text(EMAIL_TAG_NAME@),
    ) + variant_lines(e.fields, EMAIL_TAG_NAME@) + labelled(
        MATRIX_ID_TAG_NAME@,
        e.text(MATRIX_ID_TAG_NAME@),
    ) + labelled(BIRTH_DATE_TAG_NAME@, e.text(BIRTH_DATE_TAG_NAME@)) + tag_lines(e.tags)
        + notes_lines(e.text(NOTES_TAG_NAME@))
}

fn push_labelled(out: &mut Vec<String>, label: &str, text: Option<&str>)
    ensures
        texts(final(out)@) == texts(old(out)@) + labelled(label@, opt_text(text)),
{
    let ghost before = texts(out@);
    match text {
        Some(t) => {
            let mut line = String::from_str(label);
            line.append(": ");
            line.append(t);
            out.push(line);
            assert(texts(out@) =~= before + seq![label@ + ": "@ + t@]);
        },
        None => {
            assert(texts(out@) =~= before + Seq::empty());
        },
    }
}

fn push_variants(out: &mut Vec<String>, fields: &Vec<Field>, base: &str)
    ensures
        texts(final(out)@) == texts(old(out)@) + variant_lines(fields_view(fields@), base@),
{
    let ghost start = texts(out@);
    let ghost all = fields_view(fields@);
    let mut i: usize = 0;
    assert(start + variant_lines(all.take(0), base@) =~= start);
    while i < fields.len()
        invariant
            i <= fields.len(),
            all == fields_view(fields@),
            texts(out@) == start + variant_lines(all.take(i as int), base@),
        decreases fields.len() - i,
    {
        let ghost so_far = variant_lines(all.take(i as int), base@);
        let field = &fields[i];
        proof {
            assert(all.take(i + 1).drop_last() =~= all.take(i as int));
            assert(all.take(i + 1).last() == field@);
        }
        let name = field.name.as_str();
        if starts_with(name, base) && !same_text(name, base) {
            let text = match &field.value {
                Value::Unprotected(t) => Some(t.as_str()),
                Value::Protected(t) => Some(t.as_str()),
                Value::Bytes(_) => None,
            };
            assert(opt_text(text) == field@.1.text());
            push_labelled(out, name, text);
            assert(texts(out@) =~= start + (so_far + labelled(field@.0, field@.1.text())));
            assert(labelled(field@.0, None) =~= Seq::empty());
        } else {
            assert(texts(out@) =~= start + (so_far + Seq::empty()));
        }
        i += 1;
    }
    assert(all.take(fields.len() as int) =~= all);
}

/// The lines that show an entry.
pub fn describe(entry: &Entry) -> (r: Vec<String>)
    ensures
        texts(r@) == entry_lines(entry@),
{
    let mut out: Vec<String> = Vec::new();
    let mut first = String::from_str("UUID: ");
    first.append(entry.get_uuid());
    out.push(first);
    assert(texts(out@) =~= seq!["UUID: "@ + entry@.uuid]);
    push_labelled(&mut out, "Name", entry.get_title());
    push_labelled(&mut out, NICKNAME_TAG_NAME, entry.get(NICKNAME_TAG_NAME));
    push_labelled(&mut out, PHONE_NUMBER_TAG_NAME, entry.get(PHONE_NUMBER_TAG_NAME));
    push_variants(&mut out, entry.fields(), PHONE_NUMBER_TAG_NAME);
    push_labelled(&mut out, ADDRESS_TAG_NAME, entry.get(ADDRESS_TAG_NAME));
    push_labelled(&mut out, EMAIL_TAG_NAME, entry.get(EMAIL_TAG_NAME));
    push_variants(&mut out, entry.fields(), EMAIL_TAG_NAME);
    push_labelled(&mut out, MATRIX_ID_TAG_NAME, entry.get(MATRIX_ID_TAG_NAME));
    push_labelled(&mut out, BIRTH_DATE_TAG_NAME, entry.get(BIRTH_DATE_TAG_NAME));
    let ghost before_tags = texts(out@);
    if entry.tags().len() > 0 {
        let mut line = String::from_str("Tags: ");
        let tags = join(entry.tags(), ",");
        line.append(tags.as_str());
        out.push(line);
        assert(texts(out@) =~= before_tags + tag_lines(entry@.tags));
    } else {
        assert(texts(out@) =~= before_tags + tag_lines(entry@.tags));
    }
    let ghost before_notes = texts(out@);
    match entry.get(NOTES_TAG_NAME) {
        Some(notes) => {
            out.push(String::from_str("--- Notes ---"));
            out.push(String::from_str(notes));
            out.push(String::from_str("-------------"));
            assert(texts(out@) =~= before_notes + notes_lines(Some(notes@)));
        },
        None => {
            assert(texts(out@) =~= before_notes + notes_lines(None));
        },
    }
    out
}

/// The lines of an optional run of lines.
pub open spec fn opt_lines(r: Option<Vec<String>>) -> Option<Seq<Seq<char>>> {
    match r {
        Some(lines) => Some(texts(lines@)),
        None => None,
    }
}

/// What is shown of an optional entry.
pub open spec fn opt_entry_lines(e: Option<EntryView>) -> Option<Seq<Seq<char>>> {
    match e {
        Some(e) => Some(entry_lines(e)),
        None => None,
    }
}

/// The lines that show the first entry with the given identifier; nothing where no entry
/// has it.
pub fn show_entry(nodes: &Vec<Node>, uuid: &str) -> (r: Option<Vec<String>>)
    ensures
        opt_lines(r) == opt_entry_lines(find_entry(entries_of(nodes@), uuid@)),
{
    match entry_by_uuid(nodes, uuid) {
        Some(entry) => Some(describe(entry)),
        None => None,
    }
}

} // verus!
