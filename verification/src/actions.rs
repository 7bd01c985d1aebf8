use crate::browse::{
    display_entries, hits_of, matching, rows_of, rows_view, search_entries, sorted_by_title,
};
use crate::command::{Changes, ChangesView};
use crate::details::{entry_lines, show_entry};
use crate::entry::{
    Entry, EntryView, Value, ValueView, ADDRESS_TAG_NAME, BIRTH_DATE_TAG_NAME, EMAIL_TAG_NAME,
    MATRIX_ID_TAG_NAME, NAME_TAG_NAME, NICKNAME_TAG_NAME, NOTES_TAG_NAME, PHONE_NUMBER_TAG_NAME,
};
use crate::text::{lowercase, opt_string, pieces, split_on, texts};
use crate::tree::{
    entries_of, entry_by_uuid, find_entry, get_entry_by_uuid, index_of_uuid, node_entries,
    same_shape, Group, Node,
};
use crate::vcard::{cards_of, dump_group_to_vcard};
use vstd::prelude::*;
use vstd::string::StringExecFns;

verus! {

/// What is to be done outside after a command: nothing, writing the store back, writing
/// a file, letting the user edit notes, or giving up with a message.
pub enum Effect {
    Nothing,
    Save,
    WriteFile { path: String, contents: String },
    EditNotes { uuid: String, title: String, notes: String },
    Abort { message: String },
}

/// An effect as a value.
pub enum EffectView {
    Nothing,
    Save,
    WriteFile { path: Seq<char>, contents: Seq<char> },
    EditNotes { uuid: Seq<char>, title: Seq<char>, notes: Seq<char> },
    Abort { message: Seq<char> },
}

impl View for Effect {
    type V = EffectView;

    open spec fn view(&self) -> EffectView {
        match self {
            Effect::Nothing => EffectView::Nothing,
            Effect::Save => EffectView::Save,
            Effect::WriteFile { path, contents } => EffectView::WriteFile {
                path: path@,
                contents: contents@,
            },
            Effect::EditNotes { uuid, title, notes } => EffectView::EditNotes {
                uuid: uuid@,
                title: title@,
                notes: notes@,
            },
            Effect::Abort { message } => EffectView::Abort { message: message@ },
        }
    }
}

/// The answer to a command: lines to show, lines to show as complaints, then what is
/// to be done outside, then lines to show once that has been done.
pub struct Reaction {
    pub output: Vec<String>,
    pub diagnostics: Vec<String>,
    pub effect: Effect,
    pub confirmation: Vec<String>,
}

/// An answer as a value.
pub struct ReactionView {
    pub output: Seq<Seq<char>>,
    pub diagnostics: Seq<Seq<char>>,
    pub effect: EffectView,
    pub confirmation: Seq<Seq<char>>,
}

impl View for Reaction {
    type V = ReactionView;

    open spec fn view(&self) -> ReactionView {
        ReactionView {
            output: texts(self.output@),
            diagnostics: texts(self.diagnostics@),
            effect: self.effect@,
            confirmation: texts(self.confirmation@),
        }
    }
}

/// Lines to show, and nothing else.
pub open spec fn says(lines: Seq<Seq<char>>) -> ReactionView {
    ReactionView {
        output: lines,
        diagnostics: Seq::empty(),
        effect: EffectView::Nothing,
        confirmation: Seq::empty(),
    }
}

/// Lines to show as complaints, and nothing else.
pub open spec fn complains(lines: Seq<Seq<char>>) -> ReactionView {
    ReactionView {
        output: Seq::empty(),
        diagnostics: lines,
        effect: EffectView::Nothing,
        confirmation: Seq::empty(),
    }
}

/// Giving up because no entry has the identifier.
pub open spec fn missing(uuid: Seq<char>) -> ReactionView {
    ReactionView {
        output: Seq::empty(),
        diagnostics: Seq::empty(),
        effect: EffectView::Abort { message: "Could not find entry with uuid "@ + uuid },
        confirmation: Seq::empty(),
    }
}

/// The answer to an edit: the store is written back exactly when the entry changed.
pub open spec fn modified(changed: bool) -> ReactionView {
    if changed {
        ReactionView {
            output: seq!["The entry was modified. Saving the database."@],
            diagnostics: Seq::empty(),
            effect: EffectView::Save,
            confirmation: Seq::empty(),
        }
    } else {
        says(seq!["The entry was not modified."@])
    }
}

/// The answer that shows the lines and asks for nothing.
pub(crate) fn say(lines: Vec<String>) -> (r: Reaction)
    ensures
        r@ == says(texts(lines@)),
{
    let r = Reaction {
        output: lines,
        diagnostics: Vec::new(),
        effect: Effect::Nothing,
        confirmation: Vec::new(),
    };
    assert(r@.diagnostics =~= Seq::empty());
    assert(r@.confirmation =~= Seq::empty());
    r
}

/// The answer that shows nothing and asks for nothing.
pub(crate) fn say_nothing() -> (r: Reaction)
    ensures
        r@ == says(Seq::empty()),
{
    let lines: Vec<String> = Vec::new();
    assert(texts(lines@) =~= Seq::empty());
    say(lines)
}

/// The answer that shows one line and asks for nothing.
pub(crate) fn say_line(line: String) -> (r: Reaction)
    ensures
        r@ == says(seq![line@]),
{
    let mut lines: Vec<String> = Vec::new();
    lines.push(line);
    assert(texts(lines@) =~= seq![line@]);
    say(lines)
}

/// The answer that shows one line as a complaint and asks for nothing.
pub(crate) fn complain(line: String) -> (r: Reaction)
    ensures
        r@ == complains(seq![line@]),
{
    let mut diagnostics: Vec<String> = Vec::new();
    diagnostics.push(line);
    let r = Reaction {
        output: Vec::new(),
        diagnostics,
        effect: Effect::Nothing,
        confirmation: Vec::new(),
    };
    assert(r@.output =~= Seq::empty());
    assert(r@.diagnostics =~= seq![line@]);
    assert(r@.confirmation =~= Seq::empty());
    r
}

fn say_missing(uuid: &str) -> (r: Reaction)
    ensures
        r@ == missing(uuid@),
{
    let mut message = String::from_str("Could not find entry with uuid ");
    message.append(uuid);
    let r = Reaction {
        output: Vec::new(),
        diagnostics: Vec::new(),
        effect: Effect::Abort { message },
        confirmation: Vec::new(),
    };
    assert(r@.output =~= Seq::empty());
    assert(r@.diagnostics =~= Seq::empty());
    assert(r@.confirmation =~= Seq::empty());
    r
}

fn commit(entry: &mut Entry) -> (r: Reaction)
    ensures
        r@ == modified(old(entry)@.changed()),
        final(entry)@ == old(entry)@.committed(),
{
    if entry.update_history() {
        let mut output: Vec<String> = Vec::new();
        output.push(String::from_str("The entry was modified. Saving the database."));
        let r = Reaction {
            output,
            diagnostics: Vec::new(),
            effect: Effect::Save,
            confirmation: Vec::new(),
        };
        assert(r@.output =~= seq!["The entry was modified. Saving the database."@]);
        assert(r@.diagnostics =~= Seq::empty());
        assert(r@.confirmation =~= Seq::empty());
        r
    } else {
        say_line(String::from_str("The entry was not modified."))
    }
}

/// The rows as they are shown: identifier, a space, display name.
pub open spec fn row_lines(rows: Seq<(Seq<char>, Seq<char>)>) -> Seq<Seq<char>> {
    Seq::new(rows.len(), |i: int| rows[i].0 + " "@ + rows[i].1)
}

/// The lines are a listing of the entries: they show, ordered by display name, one row
/// for each entry that has a display name, and the tag where one is given.
pub open spec fn lists(
    output: Seq<Seq<char>>,
    entries: Seq<EntryView>,
    tag: Option<Seq<char>>,
) -> bool {
    exists|rows: Seq<(Seq<char>, Seq<char>)>|
        rows.to_multiset() == rows_of(matching(entries, tag)).to_multiset() && sorted_by_title(
            rows,
        ) && output == #[trigger] row_lines(rows)
}

/// Lists the entries under the nodes.
pub fn list(nodes: &Vec<Node>, tag: Option<String>) -> (r: Reaction)
    ensures
        lists(r@.output, entries_of(nodes@), opt_string(tag)),
        r@ == says(r@.output),
{
    let rows = display_entries(nodes, tag);
    let mut lines: Vec<String> = Vec::new();
    let mut i: usize = 0;
    while i < rows.len()
        invariant
            i <= rows.len(),
            lines.len() == i,
            forall|k: int| 0 <= k < i ==> lines@[k]@ == row_lines(rows_view(rows@))[k],
        decreases rows.len() - i,
    {
        lines.push(rows[i].line());
        i += 1;
    }
    assert(texts(lines@) =~= row_lines(rows_view(rows@)));
    say(lines)
}

/// The matches as they are shown: identifier, field name and text, a space between each
/// two.
pub open spec fn hit_lines(hits: Seq<(Seq<char>, Seq<char>, Seq<char>)>) -> Seq<Seq<char>> {
    Seq::new(hits.len(), |i: int| hits[i].0 + " "@ + hits[i].1 + " "@ + hits[i].2)
}

/// Shows the matches of a search term.
pub fn search(nodes: &Vec<Node>, term: &str) -> (r: Reaction)
    ensures
        r@ == says(hit_lines(hits_of(entries_of(nodes@), term@, lowercase(term@)))),
{
    let hits = search_entries(nodes, term);
    let ghost wanted = hit_lines(hits_of(entries_of(nodes@), term@, lowercase(term@)));
    let mut lines: Vec<String> = Vec::new();
    let mut i: usize = 0;
    while i < hits.len()
        invariant
            i <= hits.len(),
            lines.len() == i,
            wanted.len() == hits.len(),
            forall|k: int| 0 <= k < hits.len() ==> wanted[k] == hits@[k]@.0 + " "@ + hits@[k]@.1
                + " "@ + hits@[k]@.2,
            forall|k: int| 0 <= k < i ==> lines@[k]@ == wanted[k],
        decreases hits.len() - i,
    {
        lines.push(hits[i].line());
        i += 1;
    }
    assert(texts(lines@) =~= wanted);
    say(lines)
}

/// What `show` answers: the entry's lines, or that there is no such entry.
pub open spec fn shown(entries: Seq<EntryView>, uuid: Seq<char>) -> Seq<Seq<char>> {
    match find_entry(entries, uuid) {
        Some(e) => entry_lines(e),
        None => seq!["Could not find entry "@ + uuid],
    }
}

/// Shows the first entry with the identifier.
pub fn show(nodes: &Vec<Node>, uuid: &str) -> (r: Reaction)
    ensures
        r@ == says(shown(entries_of(nodes@), uuid@)),
{
    match show_entry(nodes, uuid) {
        Some(lines) => say(lines),
        None => {
            let mut line = String::from_str("Could not find entry ");
            line.append(uuid);
            say_line(line)
        },
    }
}

/// A new contact as it stands in the tree: its display name is its only field, and
/// that state is committed.
pub open spec fn new_contact(uuid: Seq<char>, name: Seq<char>) -> EntryView {
    (EntryView {
        uuid,
        fields: seq![(NAME_TAG_NAME@, ValueView::Unprotected(name))],
        tags: Seq::empty(),
        history: None,
    }).committed()
}

/// What `add` answers: the store is to be written back, and then the new identifier is
/// reported.
pub open spec fn added(uuid: Seq<char>) -> ReactionView {
    ReactionView {
        output: Seq::empty(),
        diagnostics: Seq::empty(),
        effect: EffectView::Save,
        confirmation: seq!["Entry "@ + uuid + " was added to the database."@],
    }
}

/// What `add` answers where the identifier that it was given is in use.
pub open spec fn taken(uuid: Seq<char>) -> ReactionView {
    complains(seq!["The identifier "@ + uuid + " is in use already; no entry was added."@])
}

/// What adding a contact does to the nodes and answers. Where an entry has the
/// identifier already, nothing changes, so that no identifier comes to stand twice.
/// Else the new contact stands after the nodes that were there, which stay as they were.
pub open spec fn adds(
    before: Seq<Node>,
    uuid: Seq<char>,
    name: Seq<char>,
    after: Seq<Node>,
    r: ReactionView,
) -> bool {
    if find_entry(entries_of(before), uuid) is Some {
        after == before && r == taken(uuid)
    } else {
        &&& after.len() == before.len() + 1
        &&& after.drop_last() == before
        &&& after.last() is Entry
        &&& after.last()->Entry_0@ == new_contact(uuid, name)
        &&& entries_of(after) == entries_of(before).push(new_contact(uuid, name))
        &&& r == added(uuid)
    }
}

/// Adds a contact with the given identifier and display name after the nodes that are
/// there, unless the identifier is in use.
pub fn add_contact(nodes: &mut Vec<Node>, uuid: String, name: &str) -> (r: Reaction)
    ensures
        adds(old(nodes)@, uuid@, name@, final(nodes)@, r@),
{
    if entry_by_uuid(nodes, uuid.as_str()).is_some() {
        let mut line = String::from_str("The identifier ");
        line.append(uuid.as_str());
        line.append(" is in use already; no entry was added.");
        return complain(line);
    }
    let mut line = String::from_str("Entry ");
    line.append(uuid.as_str());
    line.append(" was added to the database.");
    let mut entry = Entry::new(uuid);
    entry.set(NAME_TAG_NAME, Value::Unprotected(String::from_str(name)));
    proof {
        assert(Seq::<(Seq<char>, ValueView)>::empty().push(
            (NAME_TAG_NAME@, ValueView::Unprotected(name@)),
        ) =~= seq![(NAME_TAG_NAME@, ValueView::Unprotected(name@))]);
    }
    entry.update_history();
    let ghost before = nodes@;
    let ghost e = entry@;
    nodes.push(Node::Entry(entry));
    proof {
        assert(nodes@.drop_last() =~= before);
        assert(node_entries(nodes@.last()) =~= seq![e]);
        assert(entries_of(before) + seq![e] =~= entries_of(before).push(e));
    }
    let mut confirmation: Vec<String> = Vec::new();
    confirmation.push(line);
    let r = Reaction {
        output: Vec::new(),
        diagnostics: Vec::new(),
        effect: Effect::Save,
        confirmation,
    };
    assert(r@.output =~= Seq::empty());
    assert(r@.diagnostics =~= Seq::empty());
    assert(r@.confirmation =~= seq!["Entry "@ + uuid@ + " was added to the database."@]);
    r
}

/// What an edit does to the nodes and answers, `edited` being what it makes of the entry
/// that it finds: where no entry has the identifier nothing changes and the answer is
/// to give up; else the first such entry is edited and committed, nothing else changes,
/// and the answer says whether the entry differs from what was last committed.
pub open spec fn edits(
    before: Seq<Node>,
    uuid: Seq<char>,
    edited: spec_fn(EntryView) -> EntryView,
    after: Seq<Node>,
    r: ReactionView,
) -> bool {
    match find_entry(entries_of(before), uuid) {
        None => after == before && r == missing(uuid),
        Some(e) => {
            &&& entries_of(after) == entries_of(before).update(
                index_of_uuid(entries_of(before), uuid),
                edited(e).committed(),
            )
            &&& same_shape(before, after)
            &&& r == modified(edited(e).changed())
        },
    }
}

/// Gives a field of the first entry with the identifier a text that is not protected.
pub fn edit_field(nodes: &mut Vec<Node>, uuid: &str, name: &str, value: &str) -> (r: Reaction)
    ensures
        edits(
            old(nodes)@,
            uuid@,
            |e: EntryView| e.with_field(name@, ValueView::Unprotected(value@)),
            final(nodes)@,
            r@,
        ),
{
    match get_entry_by_uuid(nodes, uuid) {
        Some(entry) => {
            entry.set(name, Value::Unprotected(String::from_str(value)));
            commit(entry)
        },
        None => say_missing(uuid),
    }
}

/// The entry with the field set where a text is given, and as it was where none is.
pub open spec fn with_optional(e: EntryView, key: Seq<char>, text: Option<Seq<char>>) -> EntryView {
    match text {
        Some(t) => e.with_field(key, ValueView::Unprotected(t)),
        None => e,
    }
}

/// The entry after the changes: each field that is given is set, and where tags are
/// given, the pieces between their commas replace the entry's tags.
pub open spec fn changed_entry(e: EntryView, c: ChangesView) -> EntryView {
    let e = with_optional(e, BIRTH_DATE_TAG_NAME@, c.birth_date);
    let e = with_optional(e, ADDRESS_TAG_NAME@, c.address);
    let e = with_optional(e, EMAIL_TAG_NAME@, c.email);
    let e = with_optional(e, PHONE_NUMBER_TAG_NAME@, c.phone);
    let e = with_optional(e, MATRIX_ID_TAG_NAME@, c.matrix_id);
    let e = with_optional(e, NICKNAME_TAG_NAME@, c.nickname);
    match c.tags {
        Some(tags) => e.with_tags(pieces(tags, ',')),
        None => e,
    }
}

fn set_optional(entry: &mut Entry, key: &str, text: &Option<String>)
    ensures
        final(entry)@ == with_optional(old(entry)@, key@, opt_string(*text)),
{
    match text {
        Some(t) => {
            entry.set(key, Value::Unprotected(t.clone()));
        },
        None => {},
    }
}

/// Applies the changes to an entry.
pub fn apply_changes(entry: &mut Entry, changes: &Changes)
    ensures
        final(entry)@ == changed_entry(old(entry)@, changes@),
{
    set_optional(entry, BIRTH_DATE_TAG_NAME, &changes.birth_date);
    set_optional(entry, ADDRESS_TAG_NAME, &changes.address);
    set_optional(entry, EMAIL_TAG_NAME, &changes.email);
    set_optional(entry, PHONE_NUMBER_TAG_NAME, &changes.phone);
    set_optional(entry, MATRIX_ID_TAG_NAME, &changes.matrix_id);
    set_optional(entry, NICKNAME_TAG_NAME, &changes.nickname);
    match &changes.tags {
        Some(tags) => {
            entry.set_tags(split_on(tags.as_str(), ','));
        },
        None => {},
    }
}

/// Applies the changes to the first entry with the identifier.
pub fn edit(nodes: &mut Vec<Node>, uuid: &str, changes: &Changes) -> (r: Reaction)
    ensures
        edits(
            old(nodes)@,
            uuid@,
            |e: EntryView| changed_entry(e, changes@),
            final(nodes)@,
            r@,
        ),
{
    match get_entry_by_uuid(nodes, uuid) {
        Some(entry) => {
            apply_changes(entry, changes);
            commit(entry)
        },
        None => say_missing(uuid),
    }
}

/// What `edit-notes` answers before the editor runs. Where no entry has the identifier
/// it gives up. Notes that are protected, or raw bytes, are not edited. Else the editor
/// is to be run on the notes, or on an empty text where there are none, under the
/// entry's display name, or its identifier where it has no name.
pub open spec fn notes_request(entries: Seq<EntryView>, uuid: Seq<char>) -> ReactionView {
    match find_entry(entries, uuid) {
        None => missing(uuid),
        Some(e) => {
            let title = match e.title() {
                Some(t) => t,
                None => e.uuid,
            };
            match e.value(NOTES_TAG_NAME@) {
                None => ReactionView {
                    output: Seq::empty(),
                    diagnostics: Seq::empty(),
                    effect: EffectView::EditNotes { uuid: e.uuid, title, notes: Seq::empty() },
                    confirmation: Seq::empty(),
                },
                Some(ValueView::Unprotected(notes)) => ReactionView {
                    output: Seq::empty(),
                    diagnostics: Seq::empty(),
                    effect: EffectView::EditNotes { uuid: e.uuid, title, notes },
                    confirmation: Seq::empty(),
                },
                Some(_) => says(Seq::empty()),
            }
        },
    }
}

/// Asks for the notes of the first entry with the identifier to be edited.
pub fn request_notes(nodes: &Vec<Node>, uuid: &str) -> (r: Reaction)
    ensures
        r@ == notes_request(entries_of(nodes@), uuid@),
{
    match entry_by_uuid(nodes, uuid) {
        None => say_missing(uuid),
        Some(entry) => {
            let title = match entry.get_title() {
                Some(t) => String::from_str(t),
                None => String::from_str(entry.get_uuid()),
            };
            let notes = match entry.value(NOTES_TAG_NAME) {
                None => String::new(),
                Some(Value::Unprotected(n)) => n.clone(),
                Some(_) => {
                    return say_nothing();
                },
            };
            let r = Reaction {
                output: Vec::new(),
                diagnostics: Vec::new(),
                effect: Effect::EditNotes {
                    uuid: String::from_str(entry.get_uuid()),
                    title,
                    notes,
                },
                confirmation: Vec::new(),
            };
            assert(r@.output =~= Seq::empty());
            assert(r@.diagnostics =~= Seq::empty());
            assert(r@.confirmation =~= Seq::empty());
            r
        },
    }
}

/// What the editor's answer does to the nodes and to the user: a failure is shown as a
/// complaint and changes nothing; edited notes are stored as the field `Notes` is edited.
pub open spec fn notes_stored(
    before: Seq<Node>,
    uuid: Seq<char>,
    answer: Result<Seq<char>, Seq<char>>,
    after: Seq<Node>,
    r: ReactionView,
) -> bool {
    match answer {
        Err(message) => after == before && r == complains(seq![message]),
        Ok(notes) => edits(
            before,
            uuid,
            |e: EntryView| e.with_field(NOTES_TAG_NAME@, ValueView::Unprotected(notes)),
            after,
            r,
        ),
    }
}

/// Takes in what the editor answered for the entry with the identifier.
pub fn store_notes(nodes: &mut Vec<Node>, uuid: &str, answer: Result<String, String>) -> (r:
    Reaction)
    ensures
        notes_stored(old(nodes)@, uuid@, crate::notes::answer_view(answer), final(nodes)@, r@),
{
    match answer {
        Err(message) => complain(message),
        Ok(notes) => edit_field(nodes, uuid, NOTES_TAG_NAME, notes.as_str()),
    }
}

/// What `export-vcard` answers: the cards of all the entries are to be written to the
/// file, and then the file is named.
pub open spec fn exported(entries: Seq<EntryView>, out: Seq<char>) -> ReactionView {
    ReactionView {
        output: Seq::empty(),
        diagnostics: Seq::empty(),
        effect: EffectView::WriteFile { path: out, contents: cards_of(entries) },
        confirmation: seq!["The contacts were exported to "@ + out],
    }
}

/// Asks for the cards of all the entries under the group to be written to a file.
pub fn export_vcard(root: &Group, out: &str) -> (r: Reaction)
    ensures
        r@ == exported(entries_of(root.children@), out@),
{
    let contents = dump_group_to_vcard(root);
    let mut line = String::from_str("The contacts were exported to ");
    line.append(out);
    let mut confirmation: Vec<String> = Vec::new();
    confirmation.push(line);
    let r = Reaction {
        output: Vec::new(),
        diagnostics: Vec::new(),
        effect: Effect::WriteFile { path: String::from_str(out), contents },
        confirmation,
    };
    assert(r@.output =~= Seq::empty());
    assert(r@.diagnostics =~= Seq::empty());
    assert(r@.confirmation =~= seq!["The contacts were exported to "@ + out@]);
    r
}

/// The summary of the commands.
pub open spec fn command_summary() -> Seq<Seq<char>> {
    seq![
        "ls - List all the contacts"@,
        "search - Search for a contact"@,
        "add - Add a new contact"@,
        "show - Show a contact's information"@,
        "edit - Edit a contact"@,
        "export-vcard - Export the database to vcard v4 format"@,
        "edit-field - Edit a custom field on a contact"@,
        "edit-notes - Edit the notes of a contact"@,
        "help - Display the help for a command"@,
        "? - Print the list of available commands"@,
        "exit - Exit the application"@,
    ]
}

/// The summary of the commands, a line for each.
pub fn print_available_commands() -> (r: Vec<String>)
    ensures
        texts(r@) == command_summary(),
{
    let mut r: Vec<String> = Vec::new();
    r.push(String::from_str("ls - List all the contacts"));
    r.push(String::from_str("search - Search for a contact"));
    r.push(String::from_str("add - Add a new contact"));
    r.push(String::from_str("show - Show a contact's information"));
    r.push(String::from_str("edit - Edit a contact"));
    r.push(String::from_str("export-vcard - Export the database to vcard v4 format"));
    r.push(String::from_str("edit-field - Edit a custom field on a contact"));
    r.push(String::from_str("edit-notes - Edit the notes of a contact"));
    r.push(String::from_str("help - Display the help for a command"));
    r.push(String::from_str("? - Print the list of available commands"));
    r.push(String::from_str("exit - Exit the application"));
    assert(texts(r@) =~= command_summary());
    r
}

/// Where an edit gives tags, the pieces between their commas are the entry's tags
/// afterwards, in that order, and none of the earlier tags stays unless it is among
/// them; where it gives none, the tags stay as they were.
pub proof fn edit_replaces_tags(e: EntryView, c: ChangesView)
    ensures
        changed_entry(e, c).tags == match c.tags {
            Some(tags) => pieces(tags, ','),
            None => e.tags,
        },
        changed_entry(e, c).uuid == e.uuid,
        changed_entry(e, c).history == e.history,
{
}

} // verus!
