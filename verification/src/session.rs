use crate::actions::{
    add_contact, adds, changed_entry, command_summary, complain, complains, edit, edit_field,
    edit_replaces_tags, edits, export_vcard, exported, hit_lines, list, lists, new_contact,
    notes_request, notes_stored, print_available_commands, request_notes, say_line, say_nothing,
    says, search, show, shown, store_notes, Effect, EffectView, Reaction, ReactionView,
};
use crate::browse::hits_of;
use crate::command::{
    line_meaning, parse_line, shell_words, Command, CommandView, LineError, LineErrorView,
};
use crate::entry::{EntryView, ValueView, NOTES_TAG_NAME};
use crate::notes::answer_view;
use crate::text::{lowercase, texts};
use crate::tree::{
    adding_keeps_ids_unique, entries_of, find_entry, index_of_uuid_first,
    replacing_keeps_ids_unique, unique_ids, Group, Node,
};
use vstd::prelude::*;
use vstd::string::StringExecFns;

verus! {

/// Where a session stands.
#[derive(Clone, Copy, Debug, PartialEq, Eq, Structural)]
pub enum Phase {
    /// Not started.
    Idle,
    /// Ready for a line of input.
    AwaitingInput,
    /// In the middle of a command: the editor is running.
    Executing,
    /// Over.
    Terminated,
}

/// How the input came to an end.
pub enum InputEnd {
    Interrupted,
    Eof,
    Failed(String),
}

/// One user's work on one tree.
pub struct Session {
    pub root: Group,
    pub phase: Phase,
}

/// The line that greets the user.
pub open spec fn greeting() -> Seq<Seq<char>> {
    seq!["Enter '?' to print the list of available commands."@]
}

/// What is said when the input ends.
pub open spec fn farewell(end: InputEnd) -> Seq<Seq<char>> {
    match end {
        InputEnd::Interrupted => seq!["CTRL-C"@],
        InputEnd::Eof => seq!["CTRL-D"@],
        InputEnd::Failed(cause) => seq!["Error: "@ + cause@],
    }
}

/// Where the session stands after an answer: it waits for the editor where the editor is
/// to run, it is over where the answer is to give up, and else it is ready for the next
/// line.
pub open spec fn phase_after(r: ReactionView) -> Phase {
    match r.effect {
        EffectView::EditNotes { .. } => Phase::Executing,
        EffectView::Abort { .. } => Phase::Terminated,
        _ => Phase::AwaitingInput,
    }
}

/// What a command does to the nodes under the root, where it leaves the session, and
/// what it answers.
pub open spec fn executes(
    before: Seq<Node>,
    command: CommandView,
    after: Seq<Node>,
    phase: Phase,
    r: ReactionView,
) -> bool {
    let entries = entries_of(before);
    match command {
        CommandView::List { tag } => {
            &&& after == before
            &&& phase == Phase::AwaitingInput
            &&& lists(r.output, entries, tag)
            &&& r == says(r.output)
        },
        CommandView::Show { uuid } => {
            &&& after == before
            &&& phase == Phase::AwaitingInput
            &&& r == says(shown(entries, uuid))
        },
        CommandView::Search { term } => {
            &&& after == before
            &&& phase == Phase::AwaitingInput
            &&& r == says(hit_lines(hits_of(entries, term, lowercase(term))))
        },
        CommandView::Add { name } => {
            &&& phase == Phase::AwaitingInput
            &&& exists|uuid: Seq<char>| #[trigger] adds(before, uuid, name, after, r)
        },
        CommandView::ExportVcard { out } => {
            &&& after == before
            &&& phase == Phase::AwaitingInput
            &&& r == exported(entries, out)
        },
        CommandView::EditNotes { uuid } => {
            &&& after == before
            &&& phase == phase_after(r)
            &&& r == notes_request(entries, uuid)
        },
        CommandView::EditField { uuid, name, value } => {
            &&& phase == phase_after(r)
            &&& edits(
                before,
                uuid,
                |e: EntryView| e.with_field(name, ValueView::Unprotected(value)),
                after,
                r,
            )
        },
        CommandView::Edit { uuid, changes } => {
            &&& phase == phase_after(r)
            &&& edits(before, uuid, |e: EntryView| changed_entry(e, changes), after, r)
        },
        CommandView::Help => {
            &&& after == before
            &&& phase == Phase::AwaitingInput
            &&& r == says(command_summary())
        },
        CommandView::Exit => {
            &&& after == before
            &&& phase == Phase::Terminated
            &&& r == says(Seq::empty())
        },
        CommandView::Invalid { name } => {
            &&& after == before
            &&& phase == Phase::AwaitingInput
            &&& r == says(seq!["Invalid command "@ + name])
        },
    }
}

/// What is answered to a line that is not understood: the help that it asked for is
/// shown, and everything else is a complaint.
pub open spec fn refusal(e: LineErrorView) -> ReactionView {
    match e {
        LineErrorView::Arguments(a) => if a.fault {
            complains(seq![e.message()])
        } else {
            says(seq![e.message()])
        },
        LineErrorView::MismatchedQuotes => complains(seq![e.message()]),
    }
}

/// What a line does, given what it means: a line that is not understood is answered with
/// the reason and changes nothing; a line without words does nothing; a command is
/// carried out.
pub open spec fn handles(
    before: Seq<Node>,
    meaning: Result<Option<CommandView>, LineErrorView>,
    after: Seq<Node>,
    phase: Phase,
    r: ReactionView,
) -> bool {
    match meaning {
        Err(e) => after == before && phase == Phase::AwaitingInput && r == refusal(e),
        Ok(None) => after == before && phase == Phase::AwaitingInput && r == says(Seq::empty()),
        Ok(Some(command)) => executes(before, command, after, phase, r),
    }
}

/// `keepass::db::Entry::new` gives each new entry an identifier drawn at random; this
/// hands that identifier out in its usual written form. Nothing is claimed of it.
#[verifier::external_body]
fn fresh_uuid() -> (uuid: String) {
    keepass::db::Entry::new().uuid.to_string()
}

fn phase_of(r: &Reaction) -> (phase: Phase)
    ensures
        phase == phase_after(r@),
{
    match &r.effect {
        Effect::EditNotes { .. } => Phase::Executing,
        Effect::Abort { .. } => Phase::Terminated,
        _ => Phase::AwaitingInput,
    }
}

impl Session {
    /// A session on the tree, not yet started.
    pub fn new(root: Group) -> (s: Session)
        ensures
            s.root == root,
            s.phase == Phase::Idle,
    {
        Session { root, phase: Phase::Idle }
    }

    /// Starts a session that was not started, and greets the user; does nothing to any
    /// other.
    pub fn start(&mut self) -> (lines: Vec<String>)
        ensures
            final(self).root == old(self).root,
            old(self).phase == Phase::Idle ==> final(self).phase == Phase::AwaitingInput && texts(
                lines@,
            ) == greeting(),
            old(self).phase != Phase::Idle ==> final(self).phase == old(self).phase && texts(
                lines@,
            ) == Seq::<Seq<char>>::empty(),
    {
        let mut lines: Vec<String> = Vec::new();
        if self.phase == Phase::Idle {
            self.phase = Phase::AwaitingInput;
            lines.push(String::from_str("Enter '?' to print the list of available commands."));
            assert(texts(lines@) =~= greeting());
        } else {
            assert(texts(lines@) =~= Seq::<Seq<char>>::empty());
        }
        lines
    }

    /// Ends the session because the input ended, and says how it ended.
    pub fn input_closed(&mut self, end: InputEnd) -> (lines: Vec<String>)
        ensures
            final(self).root == old(self).root,
            final(self).phase == Phase::Terminated,
            texts(lines@) == farewell(end),
    {
        self.phase = Phase::Terminated;
        let line = match &end {
            InputEnd::Interrupted => String::from_str("CTRL-C"),
            InputEnd::Eof => String::from_str("CTRL-D"),
            InputEnd::Failed(cause) => {
                let mut line = String::from_str("Error: ");
                line.append(cause.as_str());
                line
            },
        };
        let mut lines: Vec<String> = Vec::new();
        lines.push(line);
        assert(texts(lines@) =~= farewell(end));
        lines
    }

    /// Carries out a command with the given identifier at hand for a new contact. A
    /// session that is not ready for input does nothing.
    pub fn execute_with(&mut self, command: Command, uuid: String) -> (r: Reaction)
        ensures
            final(self).root.name == old(self).root.name,
            old(self).phase != Phase::AwaitingInput ==> *final(self) == *old(self) && r@ == says(
                Seq::empty(),
            ),
            old(self).phase == Phase::AwaitingInput ==> executes(
                old(self).root.children@,
                command@,
                final(self).root.children@,
                final(self).phase,
                r@,
            ),
            command is Add && old(self).phase == Phase::AwaitingInput ==> adds(
                old(self).root.children@,
                uuid@,
                command->Add_name@,
                final(self).root.children@,
                r@,
            ),
    {
        if self.phase != Phase::AwaitingInput {
            return say_nothing();
        }
        let ghost before = self.root.children@;
        let ghost wanted = command@;
        let ghost given = uuid@;
        let r = match command {
            Command::List { tag } => list(&self.root.children, tag),
            Command::Show { uuid } => show(&self.root.children, uuid.as_str()),
            Command::Search { term } => search(&self.root.children, term.as_str()),
            Command::Add { name } => add_contact(&mut self.root.children, uuid, name.as_str()),
            Command::ExportVcard { out } => export_vcard(&self.root, out.as_str()),
            Command::EditNotes { uuid } => request_notes(&self.root.children, uuid.as_str()),
            Command::EditField { uuid, name, value } => edit_field(
                &mut self.root.children,
                uuid.as_str(),
                name.as_str(),
                value.as_str(),
            ),
            Command::Edit { uuid, changes } => edit(
                &mut self.root.children,
                uuid.as_str(),
                &changes,
            ),
            Command::Help => {
                let lines = print_available_commands();
                let r = Reaction {
                    output: lines,
                    diagnostics: Vec::new(),
                    effect: Effect::Nothing,
                    confirmation: Vec::new(),
                };
                assert(r@.diagnostics =~= Seq::empty());
                assert(r@.confirmation =~= Seq::empty());
                r
            },
            Command::Exit => {
                self.phase = Phase::Terminated;
                return say_nothing();
            },
            Command::Invalid { name } => {
                let mut line = String::from_str("Invalid command ");
                line.append(name.as_str());
                say_line(line)
            },
        };
        self.phase = phase_of(&r);
        proof {
            if wanted is Add {
                assert(adds(before, given, wanted->Add_name, self.root.children@, r@));
            }
        }
        r
    }

    /// Carries out a command. A session that is not ready for input does nothing.
    pub fn execute(&mut self, command: Command) -> (r: Reaction)
        ensures
            final(self).root.name == old(self).root.name,
            old(self).phase != Phase::AwaitingInput ==> *final(self) == *old(self) && r@ == says(
                Seq::empty(),
            ),
            old(self).phase == Phase::AwaitingInput ==> executes(
                old(self).root.children@,
                command@,
                final(self).root.children@,
                final(self).phase,
                r@,
            ),
    {
        let uuid = match &command {
            Command::Add { .. } => fresh_uuid(),
            _ => String::new(),
        };
        self.execute_with(command, uuid)
    }

    /// Takes a line of input: understands it and carries it out. A session that is not
    /// ready for input does nothing.
    pub fn handle_line(&mut self, line: &str) -> (r: Reaction)
        ensures
            final(self).root.name == old(self).root.name,
            old(self).phase != Phase::AwaitingInput ==> *final(self) == *old(self) && r@ == says(
                Seq::empty(),
            ),
            old(self).phase == Phase::AwaitingInput ==> handles(
                old(self).root.children@,
                line_meaning(shell_words(line@)),
                final(self).root.children@,
                final(self).phase,
                r@,
            ),
    {
        if self.phase != Phase::AwaitingInput {
            return say_nothing();
        }
        match parse_line(line) {
            Err(e) => {
                let shown = match &e {
                    LineError::Arguments(a) => !a.fault,
                    LineError::MismatchedQuotes => false,
                };
                if shown {
                    say_line(e.message())
                } else {
                    complain(e.message())
                }
            },
            Ok(None) => say_nothing(),
            Ok(Some(command)) => self.execute(command),
        }
    }

    /// Takes in what the editor answered for the entry with the identifier. A session
    /// that is not waiting for the editor does nothing.
    pub fn notes_edited(&mut self, uuid: &str, answer: Result<String, String>) -> (r: Reaction)
        ensures
            final(self).root.name == old(self).root.name,
            old(self).phase != Phase::Executing ==> *final(self) == *old(self) && r@ == says(
                Seq::empty(),
            ),
            old(self).phase == Phase::Executing ==> final(self).phase == phase_after(r@)
                && notes_stored(
                old(self).root.children@,
                uuid@,
                answer_view(answer),
                final(self).root.children@,
                r@,
            ),
    {
        if self.phase != Phase::Executing {
            return say_nothing();
        }
        let r = store_notes(&mut self.root.children, uuid, answer);
        self.phase = phase_of(&r);
        r
    }
}

/// No command makes two entries share an identifier: where the identifiers are unique
/// before a command, they are unique after it.
pub proof fn commands_keep_ids_unique(
    before: Seq<Node>,
    command: CommandView,
    after: Seq<Node>,
    phase: Phase,
    r: ReactionView,
)
    requires
        executes(before, command, after, phase, r),
        unique_ids(entries_of(before)),
    ensures
        unique_ids(entries_of(after)),
{
    let entries = entries_of(before);
    match command {
        CommandView::Add { name } => {
            let uuid = choose|uuid: Seq<char>| #[trigger] adds(before, uuid, name, after, r);
            if find_entry(entries, uuid) is None {
                adding_keeps_ids_unique(entries, new_contact(uuid, name));
            }
        },
        CommandView::EditField { uuid, name, value } => {
            if find_entry(entries, uuid) is Some {
                let e = find_entry(entries, uuid)->0;
                index_of_uuid_first(entries, uuid);
                replacing_keeps_ids_unique(
                    entries,
                    uuid,
                    e.with_field(name, ValueView::Unprotected(value)).committed(),
                );
            }
        },
        CommandView::Edit { uuid, changes } => {
            if find_entry(entries, uuid) is Some {
                let e = find_entry(entries, uuid)->0;
                index_of_uuid_first(entries, uuid);
                edit_replaces_tags(e, changes);
                replacing_keeps_ids_unique(entries, uuid, changed_entry(e, changes).committed());
            }
        },
        _ => {},
    }
}

/// Nor does the editor's answer: where the identifiers are unique before it is taken in,
/// they are unique after.
pub proof fn notes_keep_ids_unique(
    before: Seq<Node>,
    uuid: Seq<char>,
    answer: Result<Seq<char>, Seq<char>>,
    after: Seq<Node>,
    r: ReactionView,
)
    requires
        notes_stored(before, uuid, answer, after, r),
        unique_ids(entries_of(before)),
    ensures
        unique_ids(entries_of(after)),
{
    let entries = entries_of(before);
    if answer is Ok && find_entry(entries, uuid) is Some {
        let e = find_entry(entries, uuid)->0;
        index_of_uuid_first(entries, uuid);
        replacing_keeps_ids_unique(
            entries,
            uuid,
            e.with_field(NOTES_TAG_NAME@, ValueView::Unprotected(answer->Ok_0)).committed(),
        );
    }
}

} // verus!
