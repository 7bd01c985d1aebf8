use crate::text::{opt_string, same_text, texts, trim_end, trimmed_end};
use vstd::prelude::*;
use vstd::string::StringExecFns;

verus! {

/// How one argument of a command is declared: the name under which its value is found,
/// the short and the long name by which it is given where it is an option, whether it
/// has to be there, and what the help says of it. An argument without a short and a
/// long name is given by its place.
pub struct ArgSpec {
    pub id: &'static str,
    pub short: Option<char>,
    pub long: Option<&'static str>,
    pub required: bool,
    pub value_name: &'static str,
    pub help: &'static str,
}

/// A declaration as a value.
pub struct ArgSpecView {
    pub id: Seq<char>,
    pub short: Option<char>,
    pub long: Option<Seq<char>>,
    pub required: bool,
    pub value_name: Seq<char>,
    pub help: Seq<char>,
}

impl View for ArgSpec {
    type V = ArgSpecView;

    open spec fn view(&self) -> ArgSpecView {
        ArgSpecView {
            id: self.id@,
            short: self.short,
            long: match self.long {
                Some(l) => Some(l@),
                None => None,
            },
            required: self.required,
            value_name: self.value_name@,
            help: self.help@,
        }
    }
}

/// The views of a run of declarations.
pub open spec fn specs_view(specs: Seq<ArgSpec>) -> Seq<ArgSpecView> {
    Seq::new(specs.len(), |i: int| specs[i]@)
}

/// The declaration of a value that is given by its place and has to be there.
pub open spec fn positional(id: Seq<char>, help: Seq<char>) -> ArgSpecView {
    ArgSpecView { id, short: None, long: None, required: true, value_name: id, help }
}

/// The declaration of an option that takes one value and may be left out.
pub open spec fn optional(
    id: Seq<char>,
    short: char,
    long: Seq<char>,
    value_name: Seq<char>,
    help: Seq<char>,
) -> ArgSpecView {
    ArgSpecView { id, short: Some(short), long: Some(long), required: false, value_name, help }
}

/// The arguments that each command declares. `show` declares none: it takes the one
/// word that follows it as it stands. `help`, `?` and `exit` declare none and take no
/// notice of what follows them, and so does a word that names no command.
pub open spec fn schema_of(name: Seq<char>) -> Option<Seq<ArgSpecView>> {
    if name == "ls"@ {
        Some(seq![optional("t"@, 't', "tag"@, "TAG"@, "list entries with a specific tag"@)])
    } else if name == "search"@ {
        Some(seq![positional("term"@, "term to search for"@)])
    } else if name == "add"@ {
        Some(seq![positional("name"@, "name of the new contact"@)])
    } else if name == "export-vcard"@ {
        Some(seq![positional("out"@, "path of the file to export to"@)])
    } else if name == "edit-notes"@ {
        Some(seq![positional("uuid"@, "uuid of the contact to edit"@)])
    } else if name == "edit-field"@ {
        Some(
            seq![
                positional("uuid"@, "uuid of the contact to edit"@),
                positional("name"@, "name of the field to edit"@),
                positional("value"@, "value of the field to edit"@),
            ],
        )
    } else if name == "edit"@ {
        Some(
            seq![
                positional("uuid"@, "uuid of the contact to edit"@),
                optional("b"@, 'b', "birthdate"@, "date"@, "birth date of the contact"@),
                optional("a"@, 'a', "address"@, "address"@, "address of the contact"@),
                optional("m"@, 'm', "matrix"@, "matrix_id"@, "matrix id of the contact"@),
                optional("n"@, 'n', "nickname"@, "nickname"@, "nickname of the contact"@),
                optional("p"@, 'p', "phone"@, "phone"@, "phone number of the contact"@),
                optional("t"@, 't', "tags"@, "tags"@, "tags associated with the contact"@),
                optional("e"@, 'e', "email"@, "email"@, "email address of the contact"@),
            ],
        )
    } else {
        None
    }
}

/// The view of an optional run of declarations.
pub open spec fn opt_specs(r: Option<Vec<ArgSpec>>) -> Option<Seq<ArgSpecView>> {
    match r {
        Some(specs) => Some(specs_view(specs@)),
        None => None,
    }
}

fn a_positional(id: &'static str, help: &'static str) -> (r: ArgSpec)
    ensures
        r@ == positional(id@, help@),
{
    ArgSpec { id, short: None, long: None, required: true, value_name: id, help }
}

fn an_option(
    id: &'static str,
    short: char,
    long: &'static str,
    value_name: &'static str,
    help: &'static str,
) -> (r: ArgSpec)
    ensures
        r@ == optional(id@, short, long@, value_name@, help@),
{
    ArgSpec { id, short: Some(short), long: Some(long), required: false, value_name, help }
}

fn one_spec(spec: ArgSpec) -> (r: Vec<ArgSpec>)
    ensures
        specs_view(r@) == seq![spec@],
{
    let mut r: Vec<ArgSpec> = Vec::new();
    r.push(spec);
    assert(specs_view(r@) =~= seq![spec@]);
    r
}

/// The arguments that a command declares.
pub fn schema_for(name: &str) -> (r: Option<Vec<ArgSpec>>)
    ensures
        opt_specs(r) == schema_of(name@),
{
    if same_text(name, "ls") {
        Some(one_spec(an_option("t", 't', "tag", "TAG", "list entries with a specific tag")))
    } else if same_text(name, "search") {
        Some(one_spec(a_positional("term", "term to search for")))
    } else if same_text(name, "add") {
        Some(one_spec(a_positional("name", "name of the new contact")))
    } else if same_text(name, "export-vcard") {
        Some(one_spec(a_positional("out", "path of the file to export to")))
    } else if same_text(name, "edit-notes") {
        Some(one_spec(a_positional("uuid", "uuid of the contact to edit")))
    } else if same_text(name, "edit-field") {
        let mut r: Vec<ArgSpec> = Vec::new();
        r.push(a_positional("uuid", "uuid of the contact to edit"));
        r.push(a_positional("name", "name of the field to edit"));
        r.push(a_positional("value", "value of the field to edit"));
        assert(specs_view(r@) =~= schema_of(name@)->0);
        Some(r)
    } else if same_text(name, "edit") {
        let mut r: Vec<ArgSpec> = Vec::new();
        r.push(a_positional("uuid", "uuid of the contact to edit"));
        r.push(an_option("b", 'b', "birthdate", "date", "birth date of the contact"));
        r.push(an_option("a", 'a', "address", "address", "address of the contact"));
        r.push(an_option("m", 'm', "matrix", "matrix_id", "matrix id of the contact"));
        r.push(an_option("n", 'n', "nickname", "nickname", "nickname of the contact"));
        r.push(an_option("p", 'p', "phone", "phone", "phone number of the contact"));
        r.push(an_option("t", 't', "tags", "tags", "tags associated with the contact"));
        r.push(an_option("e", 'e', "email", "email", "email address of the contact"));
        assert(specs_view(r@) =~= schema_of(name@)->0);
        Some(r)
    } else {
        None
    }
}

/// Why the words after a command's name were not turned into values: what is to be
/// shown, and whether it is a fault of the words rather than the help that they asked
/// for.
pub struct ArgumentError {
    pub message: String,
    pub fault: bool,
}

/// An argument error as a value.
pub struct ArgumentErrorView {
    pub message: Seq<char>,
    pub fault: bool,
}

impl View for ArgumentError {
    type V = ArgumentErrorView;

    open spec fn view(&self) -> ArgumentErrorView {
        ArgumentErrorView { message: self.message@, fault: self.fault }
    }
}

/// The views of the values of a run of arguments.
pub open spec fn values_view(values: Seq<Option<String>>) -> Seq<Option<Seq<char>>> {
    Seq::new(values.len(), |i: int| opt_string(values[i]))
}

/// The view of what reading the arguments gave.
pub open spec fn matches_view(r: Result<Vec<Option<String>>, ArgumentError>) -> Result<
    Seq<Option<Seq<char>>>,
    ArgumentErrorView,
> {
    match r {
        Ok(values) => Ok(values_view(values@)),
        Err(e) => Err(e@),
    }
}

/// What clap makes of words under declared arguments: for each declaration the value
/// that the words give it, if they give one, or the text that clap shows where it
/// refuses the words or is asked for help.
pub uninterp spec fn clap_parsed(schema: Seq<ArgSpecView>, words: Seq<Seq<char>>) -> Result<
    Seq<Option<Seq<char>>>,
    ArgumentErrorView,
>;

/// `clap::Command::try_get_matches_from`, on a command without a name of its own whose
/// arguments are declared one for one as the schema says, each taking one value. The
/// result depends on the schema and the words alone and is what `clap_parsed` names: the
/// value of each declared argument as `ArgMatches::get_one` gives it, or the refusal as
/// `Error::to_string` and `Error::use_stderr` give it. Only the schemas of this
/// library's commands are handed in, which clap takes as sound.
#[verifier::external_body]
fn clap_matches(schema: &Vec<ArgSpec>, words: &Vec<String>) -> (r: Result<
    Vec<Option<String>>,
    ArgumentError,
>)
    requires
        exists|name: Seq<char>| schema_of(name) == Some(specs_view(schema@)),
    ensures
        matches_view(r) == clap_parsed(specs_view(schema@), texts(words@)),
{
    let mut command = clap::Command::new("").no_binary_name(true);
    for a in schema {
        let arg = clap::Arg::new(a.id).short(a.short).long(a.long).required(a.required);
        let arg = arg.value_name(a.value_name).action(clap::ArgAction::Set).help(a.help);
        command = command.arg(arg);
    }
    match command.try_get_matches_from(words) {
        Ok(m) => Ok(schema.iter().map(|a| m.get_one::<String>(a.id).cloned()).collect()),
        Err(e) => Err(ArgumentError { message: e.to_string(), fault: e.use_stderr() }),
    }
}

/// What an edit may set; each part is there only if its option was given.
pub struct Changes {
    pub birth_date: Option<String>,
    pub address: Option<String>,
    pub email: Option<String>,
    pub phone: Option<String>,
    pub matrix_id: Option<String>,
    pub nickname: Option<String>,
    pub tags: Option<String>,
}

/// The changes of an edit as a value.
pub struct ChangesView {
    pub birth_date: Option<Seq<char>>,
    pub address: Option<Seq<char>>,
    pub email: Option<Seq<char>>,
    pub phone: Option<Seq<char>>,
    pub matrix_id: Option<Seq<char>>,
    pub nickname: Option<Seq<char>>,
    pub tags: Option<Seq<char>>,
}

impl View for Changes {
    type V = ChangesView;

    open spec fn view(&self) -> ChangesView {
        ChangesView {
            birth_date: opt_string(self.birth_date),
            address: opt_string(self.address),
            email: opt_string(self.email),
            phone: opt_string(self.phone),
            matrix_id: opt_string(self.matrix_id),
            nickname: opt_string(self.nickname),
            tags: opt_string(self.tags),
        }
    }
}

/// A line of input, understood.
pub enum Command {
    List { tag: Option<String> },
    Show { uuid: String },
    Search { term: String },
    Add { name: String },
    ExportVcard { out: String },
    EditNotes { uuid: String },
    EditField { uuid: String, name: String, value: String },
    Edit { uuid: String, changes: Changes },
    Help,
    Exit,
    /// A first word that names no command.
    Invalid { name: String },
}

/// A command as a value.
pub enum CommandView {
    List { tag: Option<Seq<char>> },
    Show { uuid: Seq<char> },
    Search { term: Seq<char> },
    Add { name: Seq<char> },
    ExportVcard { out: Seq<char> },
    EditNotes { uuid: Seq<char> },
    EditField { uuid: Seq<char>, name: Seq<char>, value: Seq<char> },
    Edit { uuid: Seq<char>, changes: ChangesView },
    Help,
    Exit,
    Invalid { name: Seq<char> },
}

impl View for Command {
    type V = CommandView;

    open spec fn view(&self) -> CommandView {
        match self {
            Command::List { tag } => CommandView::List { tag: opt_string(*tag) },
            Command::Show { uuid } => CommandView::Show { uuid: uuid@ },
            Command::Search { term } => CommandView::Search { term: term@ },
            Command::Add { name } => CommandView::Add { name: name@ },
            Command::ExportVcard { out } => CommandView::ExportVcard { out: out@ },
            Command::EditNotes { uuid } => CommandView::EditNotes { uuid: uuid@ },
            Command::EditField { uuid, name, value } => CommandView::EditField {
                uuid: uuid@,
                name: name@,
                value: value@,
            },
            Command::Edit { uuid, changes } => CommandView::Edit {
                uuid: uuid@,
                changes: changes@,
            },
            Command::Help => CommandView::Help,
            Command::Exit => CommandView::Exit,
            Command::Invalid { name } => CommandView::Invalid { name: name@ },
        }
    }
}

/// The value at a place, where there is one.
pub open spec fn value_at(values: Seq<Option<Seq<char>>>, i: int) -> Option<Seq<char>> {
    if 0 <= i < values.len() {
        values[i]
    } else {
        None
    }
}

/// The command that a name and the values of its arguments make, the values standing in
/// the order of the declarations. There is none where the name declares no arguments or
/// a value that has to be there is not.
pub open spec fn command_from(name: Seq<char>, values: Seq<Option<Seq<char>>>) -> Option<
    CommandView,
> {
    if name == "ls"@ {
        Some(CommandView::List { tag: value_at(values, 0) })
    } else if name == "search"@ {
        match value_at(values, 0) {
            Some(term) => Some(CommandView::Search { term }),
            None => None,
        }
    } else if name == "add"@ {
        match value_at(values, 0) {
            Some(name) => Some(CommandView::Add { name }),
            None => None,
        }
    } else if name == "export-vcard"@ {
        match value_at(values, 0) {
            Some(out) => Some(CommandView::ExportVcard { out }),
            None => None,
        }
    } else if name == "edit-notes"@ {
        match value_at(values, 0) {
            Some(uuid) => Some(CommandView::EditNotes { uuid }),
            None => None,
        }
    } else if name == "edit-field"@ {
        match (value_at(values, 0), value_at(values, 1), value_at(values, 2)) {
            (Some(uuid), Some(name), Some(value)) => Some(
                CommandView::EditField { uuid, name, value },
            ),
            _ => None,
        }
    } else if name == "edit"@ {
        match value_at(values, 0) {
            Some(uuid) => Some(
                CommandView::Edit {
                    uuid,
                    changes: ChangesView {
                        birth_date: value_at(values, 1),
                        address: value_at(values, 2),
                        matrix_id: value_at(values, 3),
                        nickname: value_at(values, 4),
                        phone: value_at(values, 5),
                        tags: value_at(values, 6),
                        email: value_at(values, 7),
                    },
                },
            ),
            None => None,
        }
    } else {
        None
    }
}

/// The view of an optional command.
pub open spec fn opt_command(r: Option<Command>) -> Option<CommandView> {
    match r {
        Some(c) => Some(c@),
        None => None,
    }
}

fn take_value(values: &Vec<Option<String>>, i: usize) -> (r: Option<String>)
    ensures
        opt_string(r) == value_at(values_view(values@), i as int),
{
    if i < values.len() {
        values[i].clone()
    } else {
        None
    }
}

/// Makes the command of a name and the values of its arguments.
pub fn make_command(name: &str, values: &Vec<Option<String>>) -> (r: Option<Command>)
    ensures
        opt_command(r) == command_from(name@, values_view(values@)),
{
    if same_text(name, "ls") {
        Some(Command::List { tag: take_value(values, 0) })
    } else if same_text(name, "search") {
        match take_value(values, 0) {
            Some(term) => Some(Command::Search { term }),
            None => None,
        }
    } else if same_text(name, "add") {
        match take_value(values, 0) {
            Some(name) => Some(Command::Add { name }),
            None => None,
        }
    } else if same_text(name, "export-vcard") {
        match take_value(values, 0) {
            Some(out) => Some(Command::ExportVcard { out }),
            None => None,
        }
    } else if same_text(name, "edit-notes") {
        match take_value(values, 0) {
            Some(uuid) => Some(Command::EditNotes { uuid }),
            None => None,
        }
    } else if same_text(name, "edit-field") {
        match (take_value(values, 0), take_value(values, 1), take_value(values, 2)) {
            (Some(uuid), Some(name), Some(value)) => Some(
                Command::EditField { uuid, name, value },
            ),
            _ => None,
        }
    } else if same_text(name, "edit") {
        match take_value(values, 0) {
            Some(uuid) => Some(
                Command::Edit {
                    uuid,
                    changes: Changes {
                        birth_date: take_value(values, 1),
                        address: take_value(values, 2),
                        matrix_id: take_value(values, 3),
                        nickname: take_value(values, 4),
                        phone: take_value(values, 5),
                        tags: take_value(values, 6),
                        email: take_value(values, 7),
                    },
                },
            ),
            None => None,
        }
    } else {
        None
    }
}

/// What is said where the values of a command's arguments are not all there.
pub open spec fn incomplete(name: Seq<char>) -> ArgumentErrorView {
    ArgumentErrorView {
        message: "error: the arguments of "@ + name + " are incomplete"@,
        fault: true,
    }
}

/// What the arguments of a command mean, given what clap made of them: its refusal is
/// handed on, and its values make the command.
pub open spec fn command_with(
    name: Seq<char>,
    parsed: Result<Seq<Option<Seq<char>>>, ArgumentErrorView>,
) -> Result<Option<CommandView>, ArgumentErrorView> {
    match parsed {
        Err(e) => Err(e),
        Ok(values) => match command_from(name, values) {
            Some(c) => Ok(Some(c)),
            None => Err(incomplete(name)),
        },
    }
}

/// The view of what reading the words gave.
pub open spec fn parsed_view(r: Result<Option<Command>, ArgumentError>) -> Result<
    Option<CommandView>,
    ArgumentErrorView,
> {
    match r {
        Ok(Some(c)) => Ok(Some(c@)),
        Ok(None) => Ok(None),
        Err(e) => Err(e@),
    }
}

/// The command of a name that declares arguments, given what clap made of the words
/// that follow it.
pub fn finish_command(name: &str, parsed: Result<Vec<Option<String>>, ArgumentError>) -> (r:
    Result<Option<Command>, ArgumentError>)
    ensures
        parsed_view(r) == command_with(name@, matches_view(parsed)),
{
    match parsed {
        Err(e) => Err(e),
        Ok(values) => match make_command(name, &values) {
            Some(c) => Ok(Some(c)),
            None => {
                let mut message = String::from_str("error: the arguments of ");
                message.append(name);
                message.append(" are incomplete");
                Err(ArgumentError { message, fault: true })
            },
        },
    }
}

/// What is said where `show` is not followed by exactly one word.
pub open spec fn wrong_count() -> ArgumentErrorView {
    ArgumentErrorView { message: "Invalid number of arguments."@, fault: true }
}

/// What a line's words mean. No word at all means nothing. The first word names the
/// command, and the words after it are read by clap under the arguments that the
/// command declares. `show` takes the one word after it as the identifier, whatever
/// the word is, and refuses any other number of words. `help`, `?` and `exit` take no
/// notice of further words; any other first word is an invalid command, whatever
/// follows it.
pub open spec fn command_of(words: Seq<Seq<char>>) -> Result<
    Option<CommandView>,
    ArgumentErrorView,
> {
    if words.len() == 0 {
        Ok(None)
    } else {
        match schema_of(words[0]) {
            Some(schema) => command_with(words[0], clap_parsed(schema, words.skip(1))),
            None => if words[0] == "show"@ {
                if words.len() == 2 {
                    Ok(Some(CommandView::Show { uuid: words[1] }))
                } else {
                    Err(wrong_count())
                }
            } else if words[0] == "help"@ || words[0] == "?"@ {
                Ok(Some(CommandView::Help))
            } else if words[0] == "exit"@ {
                Ok(Some(CommandView::Exit))
            } else {
                Ok(Some(CommandView::Invalid { name: words[0] }))
            },
        }
    }
}

fn words_after_first(words: &Vec<String>) -> (r: Vec<String>)
    requires
        words.len() > 0,
    ensures
        texts(r@) == texts(words@).skip(1),
{
    let mut r: Vec<String> = Vec::new();
    let mut i: usize = 1;
    while i < words.len()
        invariant
            1 <= i <= words.len(),
            r.len() == i - 1,
            forall|k: int| 0 <= k < i - 1 ==> r@[k]@ == words@[k + 1]@,
        decreases words.len() - i,
    {
        r.push(words[i].clone());
        i += 1;
    }
    assert(texts(r@) =~= texts(words@).skip(1));
    r
}

/// Understands the words of a line.
pub fn parse_words(words: &Vec<String>) -> (r: Result<Option<Command>, ArgumentError>)
    ensures
        parsed_view(r) == command_of(texts(words@)),
{
    if words.len() == 0 {
        return Ok(None);
    }
    let name = words[0].as_str();
    assert(texts(words@)[0] == name@);
    match schema_for(name) {
        Some(schema) => {
            let rest = words_after_first(words);
            finish_command(name, clap_matches(&schema, &rest))
        },
        None => {
            if same_text(name, "show") {
                if words.len() == 2 {
                    assert(texts(words@)[1] == words@[1]@);
                    Ok(Some(Command::Show { uuid: words[1].clone() }))
                } else {
                    Err(
                        ArgumentError {
                            message: String::from_str("Invalid number of arguments."),
                            fault: true,
                        },
                    )
                }
            } else if same_text(name, "help") || same_text(name, "?") {
                Ok(Some(Command::Help))
            } else if same_text(name, "exit") {
                Ok(Some(Command::Exit))
            } else {
                Ok(Some(Command::Invalid { name: String::from_str(name) }))
            }
        },
    }
}

/// The words into which a line falls when it is cut as a Bourne shell cuts it, with
/// quotes and backslashes taken away; nothing for a line whose quotes do not match.
pub uninterp spec fn shell_words(line: Seq<char>) -> Option<Seq<Seq<char>>>;

/// `shellwords::MismatchedQuotes`, the error of a line whose quotes do not match. It
/// holds nothing.
#[verifier::external_type_specification]
#[verifier::external_body]
pub struct ExMismatchedQuotes(shellwords::MismatchedQuotes);

/// `shellwords::split` depends on the line alone: it gives the words that `shell_words`
/// names, and fails where `shell_words` has none.
pub assume_specification[ shellwords::split ](input: &str) -> (r: Result<
    Vec<String>,
    shellwords::MismatchedQuotes,
>)
    ensures
        match r {
            Ok(words) => shell_words(input@) == Some(texts(words@)),
            Err(_) => shell_words(input@) is None,
        },
;

/// Why a line was not understood.
pub enum LineError {
    /// A quote in the line is not closed.
    MismatchedQuotes,
    /// The words after the command's name were not accepted.
    Arguments(ArgumentError),
}

/// A line error as a value.
pub enum LineErrorView {
    MismatchedQuotes,
    Arguments(ArgumentErrorView),
}

impl View for LineError {
    type V = LineErrorView;

    open spec fn view(&self) -> LineErrorView {
        match self {
            LineError::MismatchedQuotes => LineErrorView::MismatchedQuotes,
            LineError::Arguments(e) => LineErrorView::Arguments(e@),
        }
    }
}

impl LineErrorView {
    /// The error in words: for the arguments, what clap shows, without the white space
    /// at its end.
    pub open spec fn message(self) -> Seq<char> {
        match self {
            LineErrorView::MismatchedQuotes => "Mismatched quotes"@,
            LineErrorView::Arguments(e) => trimmed_end(e.message),
        }
    }
}

impl LineError {
    /// The error in words.
    pub fn message(&self) -> (r: String)
        ensures
            r@ == self@.message(),
    {
        match self {
            LineError::MismatchedQuotes => String::from_str("Mismatched quotes"),
            LineError::Arguments(e) => trim_end(e.message.as_str()),
        }
    }
}

/// What a line means, given the words into which it falls.
pub open spec fn line_meaning(words: Option<Seq<Seq<char>>>) -> Result<
    Option<CommandView>,
    LineErrorView,
> {
    match words {
        None => Err(LineErrorView::MismatchedQuotes),
        Some(words) => match command_of(words) {
            Ok(c) => Ok(c),
            Err(e) => Err(LineErrorView::Arguments(e)),
        },
    }
}

/// The view of what reading a line gave.
pub open spec fn line_view(r: Result<Option<Command>, LineError>) -> Result<
    Option<CommandView>,
    LineErrorView,
> {
    match r {
        Ok(Some(c)) => Ok(Some(c@)),
        Ok(None) => Ok(None),
        Err(e) => Err(e@),
    }
}

/// Understands a line: cuts it into words and reads the words as a command.
pub fn parse_line(line: &str) -> (r: Result<Option<Command>, LineError>)
    ensures
        line_view(r) == line_meaning(shell_words(line@)),
{
    match shellwords::split(line) {
        Err(_) => Err(LineError::MismatchedQuotes),
        Ok(words) => match parse_words(&words) {
            Ok(c) => Ok(c),
            Err(e) => Err(LineError::Arguments(e)),
        },
    }
}

} // verus!
