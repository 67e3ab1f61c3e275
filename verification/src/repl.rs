//! The session of the console: what a line means, what the toggles say, and
//! what a request comes to before anything is sent to a node.
use vstd::prelude::*;
use vstd::string::StringExecFns;
use crate::decimal::append_decimal;
use crate::decimal::decimal;
use crate::groups::ServerProvider;
use crate::macros::expansion;
use crate::macros::macro_named;
use crate::macros::tokens;
use crate::macros::MacroError;
use crate::macros::MacroProvider;
use crate::macros::MacroView;
use crate::request::parse_request;
use crate::request::request_of;
use crate::request::trim_newline;
use crate::request::without_newline;
use crate::request::Request;
use crate::request::RequestType;
use crate::request::RequestView;
use crate::server::server_views;
use crate::server::Server;
use crate::server::ServerView;
use crate::settings::toggle_at;
use crate::settings::value_at;
use crate::settings::SettingsProvider;
use crate::split::pieces;
use crate::split::split;
use crate::split::split_on;
use crate::text::chars_of;
use crate::text::lowercase;
use crate::text::lowercase_of;
use crate::text::same_text;
use crate::text::string_of;
use crate::text::texts;
use crate::text::trim;
use crate::text::trimmed;

verus! {

/// What a line of the console asks for.
#[derive(Debug, PartialEq, Eq)]
pub enum SessionCommand {
    /// End the session.
    Exit,
    /// Show how the console is used.
    Help,
    /// Show the requests entered so far.
    History,
    /// Switch to the named database.
    Use(String),
    /// `use` without a name: show how `use` is written.
    UseUsage,
    /// Show or hide the data types in the headers of tables.
    ShowDataTypes(String),
    /// `show datatypes` without a value: show how it is written.
    ShowDataTypesUsage,
    /// List the built-in templates.
    ShowMacro,
    /// Hand the request to the dispatcher.
    Dispatch(Request),
    /// Nothing that the console knows.
    Unknown,
}

/// The value of a [`SessionCommand`].
pub ghost enum Meaning {
    Exit,
    Help,
    History,
    Use(Seq<char>),
    UseUsage,
    ShowDataTypes(Seq<char>),
    ShowDataTypesUsage,
    ShowMacro,
    Dispatch(RequestView),
    Unknown,
}

impl View for SessionCommand {
    type V = Meaning;

    open spec fn view(&self) -> Meaning {
        match self {
            SessionCommand::Exit => Meaning::Exit,
            SessionCommand::Help => Meaning::Help,
            SessionCommand::History => Meaning::History,
            SessionCommand::Use(name) => Meaning::Use(name@),
            SessionCommand::UseUsage => Meaning::UseUsage,
            SessionCommand::ShowDataTypes(value) => Meaning::ShowDataTypes(value@),
            SessionCommand::ShowDataTypesUsage => Meaning::ShowDataTypesUsage,
            SessionCommand::ShowMacro => Meaning::ShowMacro,
            SessionCommand::Dispatch(request) => Meaning::Dispatch(request@),
            SessionCommand::Unknown => Meaning::Unknown,
        }
    }
}

/// A line as the session reads it: in lower case and trimmed.
pub open spec fn preprocessed(line: Seq<char>) -> Seq<char> {
    trim(lowercase_of(line))
}

/// What the words of a `show` line mean.
pub open spec fn show_meaning(words: Seq<Seq<char>>) -> Meaning {
    if words.len() >= 2 && words[1] == "datatypes"@ {
        if words.len() < 3 {
            Meaning::ShowDataTypesUsage
        } else {
            Meaning::ShowDataTypes(words[2])
        }
    } else if words.len() >= 2 && words[1] == "macro"@ {
        Meaning::ShowMacro
    } else {
        Meaning::Unknown
    }
}

/// What a line means. The session verbs are read from the line in lower
/// case, trimmed and split at single spaces; a line that is none of them is
/// a request where it holds a separator, and unknown else.
pub open spec fn meaning_of(line: Seq<char>) -> Meaning {
    let text = preprocessed(line);
    let words = split(text, ' ');
    if text == "help"@ {
        Meaning::Help
    } else if text == "exit"@ {
        Meaning::Exit
    } else if text == "history"@ {
        Meaning::History
    } else if words[0] == "use"@ {
        if words.len() < 2 {
            Meaning::UseUsage
        } else {
            Meaning::Use(words[1])
        }
    } else if words[0] == "show"@ {
        show_meaning(words)
    } else if text.len() == 0 {
        Meaning::Unknown
    } else {
        match request_of(line) {
            Some(request) => Meaning::Dispatch(request),
            None => Meaning::Unknown,
        }
    }
}

fn word_is(word: &Vec<char>, expected: &str) -> (same: bool)
    ensures
        same == (word@ == expected@),
{
    same_text(string_of(word).as_str(), expected)
}

/// Reads one line of the console.
pub fn interpret(line: &String) -> (command: SessionCommand)
    ensures
        command@ == meaning_of(line@),
{
    let lower = lowercase(line.as_str());
    let text = trimmed(&chars_of(lower.as_str()));
    let words = split_on(&text, ' ');
    assert(pieces(words@)[0] == words@[0]@);
    if word_is(&text, "help") {
        SessionCommand::Help
    } else if word_is(&text, "exit") {
        SessionCommand::Exit
    } else if word_is(&text, "history") {
        SessionCommand::History
    } else if word_is(&words[0], "use") {
        if words.len() < 2 {
            SessionCommand::UseUsage
        } else {
            assert(pieces(words@)[1] == words@[1]@);
            SessionCommand::Use(string_of(&words[1]))
        }
    } else if word_is(&words[0], "show") {
        if words.len() >= 2 {
            assert(pieces(words@)[1] == words@[1]@);
        }
        if words.len() >= 2 && word_is(&words[1], "datatypes") {
            if words.len() < 3 {
                SessionCommand::ShowDataTypesUsage
            } else {
                assert(pieces(words@)[2] == words@[2]@);
                SessionCommand::ShowDataTypes(string_of(&words[2]))
            }
        } else if words.len() >= 2 && word_is(&words[1], "macro") {
            SessionCommand::ShowMacro
        } else {
            SessionCommand::Unknown
        }
    } else if text.len() == 0 {
        SessionCommand::Unknown
    } else {
        match parse_request(line) {
            Some(request) => SessionCommand::Dispatch(request),
            None => SessionCommand::Unknown,
        }
    }
}

/// The toggles as the console starts with them: the database `postgres`,
/// the facts of the distributed extension and of the availability agent
/// collected, the consistency of the cluster checked.
pub open spec fn initial_settings() -> Map<Seq<char>, Seq<char>> {
    Map::<Seq<char>, Seq<char>>::empty().insert("current_db"@, "postgres"@).insert(
        "collect_citus_facts"@,
        "true"@,
    ).insert("collect_patroni_facts"@, "true"@).insert("check_cluster_consistency"@, "true"@)
}

/// The toggles as the console starts with them.
pub fn default_settings() -> (settings: SettingsProvider)
    ensures
        settings@ == initial_settings(),
{
    let mut settings = SettingsProvider::new();
    settings.set_key(String::from_str("current_db"), String::from_str("postgres"));
    settings.set_key(String::from_str("collect_citus_facts"), String::from_str("true"));
    settings.set_key(String::from_str("collect_patroni_facts"), String::from_str("true"));
    settings.set_key(String::from_str("check_cluster_consistency"), String::from_str("true"));
    settings
}

/// Switches the session to another database.
pub fn use_database(settings: &mut SettingsProvider, name: String)
    ensures
        final(settings)@ == old(settings)@.insert("current_db"@, name@),
{
    settings.set_key(String::from_str("current_db"), name);
}

/// Shows or hides the data types in the headers of tables.
pub fn set_show_data_types(settings: &mut SettingsProvider, value: String)
    ensures
        final(settings)@ == old(settings)@.insert("show_data_types"@, value@),
{
    settings.set_key(String::from_str("show_data_types"), value);
}

/// The database of the session, if one is set.
pub fn current_database(settings: &SettingsProvider) -> (name: Option<String>)
    ensures
        crate::text::text_view(name) == value_at(settings@, "current_db"@),
{
    settings.get_key(String::from_str("current_db"))
}

/// Whether tables show the data types: they do unless the toggle
/// `show_data_types` is set to something other than `true`.
pub open spec fn data_types_shown(settings: Map<Seq<char>, Seq<char>>) -> bool {
    toggle_at(settings, "show_data_types"@) != Some(false)
}

/// Whether tables show the data types.
pub fn shows_data_types(settings: &SettingsProvider) -> (shown: bool)
    ensures
        shown == data_types_shown(settings@),
{
    match settings.toggle("show_data_types") {
        Some(false) => false,
        _ => true,
    }
}

/// The prompt of the console: the database of the session in brackets.
pub open spec fn prompt_text(settings: Map<Seq<char>, Seq<char>>) -> Seq<char> {
    "["@ + (match value_at(settings, "current_db"@) {
        Some(name) => name,
        None => Seq::empty(),
    }) + "] > "@
}

/// The prompt of the console.
pub fn prompt(settings: &SettingsProvider) -> (text: String)
    ensures
        text@ == prompt_text(settings@),
{
    let mut text = String::from_str("[");
    match current_database(settings) {
        Some(name) => text.append(name.as_str()),
        None => {
            assert(text@ + Seq::<char>::empty() =~= text@);
        },
    }
    text.append("] > ");
    text
}

/// A node as a task addresses it: with the database of the session in
/// place of its own, where the session has one.
pub open spec fn addressed(s: ServerView, settings: Map<Seq<char>, Seq<char>>) -> ServerView {
    match value_at(settings, "current_db"@) {
        Some(name) => ServerView { db_name: Some(name), ..s },
        None => s,
    }
}

/// Points a node at the database of the session, where the session has
/// one.
pub fn address(server: &mut Server, settings: &SettingsProvider)
    ensures
        final(server)@ == addressed(old(server)@, settings@),
{
    match current_database(settings) {
        Some(name) => server.set_db_name(name),
        None => {},
    }
}

/// Why a request is not dispatched.
#[derive(Clone, Copy, Debug, PartialEq, Eq, Structural)]
pub enum DispatchError {
    /// The fleet has no group of that name.
    UnknownGroup,
    /// There is no template of that name.
    UnknownMacro,
    /// The dollar signs of the template do not pair up.
    MalformedMacro,
    /// A placeholder of the template was given no value.
    MissingValue,
    /// The line is no request.
    UnknownRequest,
}

/// What the console says of an error.
pub open spec fn message_text(error: DispatchError) -> Seq<char> {
    match error {
        DispatchError::UnknownGroup => "unknown server group name"@,
        DispatchError::UnknownMacro => "unknown macro name"@,
        DispatchError::MalformedMacro => "malformed macro"@,
        DispatchError::MissingValue => "missing macro parameter value"@,
        DispatchError::UnknownRequest => "unknown request type"@,
    }
}

/// What the console says of an error.
pub fn error_message(error: DispatchError) -> (text: &'static str)
    ensures
        text@ == message_text(error),
{
    match error {
        DispatchError::UnknownGroup => "unknown server group name",
        DispatchError::UnknownMacro => "unknown macro name",
        DispatchError::MalformedMacro => "malformed macro",
        DispatchError::MissingValue => "missing macro parameter value",
        DispatchError::UnknownRequest => "unknown request type",
    }
}

/// The nodes that a request addresses: those of the named group. A name
/// that the fleet does not know is an error, and no node is contacted.
pub fn resolve_group(provider: &ServerProvider, group: &str) -> (r: Result<Vec<Server>, DispatchError>)
    ensures
        match r {
            Ok(nodes) => provider@.contains_key(group@) && server_views(nodes@) == provider@[group@],
            Err(e) => e == DispatchError::UnknownGroup && !provider@.contains_key(group@),
        },
{
    match provider.get_servers_in_group(group) {
        Some(nodes) => Ok(nodes),
        None => Err(DispatchError::UnknownGroup),
    }
}

/// The statements of a batch and their kind.
pub struct Batch {
    pub request_type: RequestType,
    pub statements: Vec<String>,
}

/// What a request comes to before it is sent: for a query or a command the
/// one statement as it was entered, for a macro the statements of the
/// template with the kind of the template. A template that is unknown or
/// malformed, and a placeholder without a value, keep the batch from being
/// dispatched.
pub open spec fn batch_of(
    macros: Seq<MacroView>,
    request: RequestView,
    names: Seq<Seq<char>>,
    values: Seq<(String, String)>,
) -> Result<(RequestType, Seq<Seq<char>>), DispatchError> {
    match request.request_type {
        RequestType::Query | RequestType::Command => Ok(
            (request.request_type, seq![request.entered]),
        ),
        RequestType::Unknown => Err(DispatchError::UnknownRequest),
        RequestType::Macro => match macro_named(macros, request.body) {
            None => Err(DispatchError::UnknownMacro),
            Some(m) => if tokens(m.body) is None {
                Err(DispatchError::MalformedMacro)
            } else {
                match expansion(m.body, names, values) {
                    Err(_) => Err(DispatchError::MissingValue),
                    Ok(list) => Ok((m.request_type, list)),
                }
            },
        },
    }
}

/// Makes the batch of a request. For a macro, `names` are its placeholders
/// and `values` what was entered for them.
pub fn make_batch(
    macros: &MacroProvider,
    request: &Request,
    names: Option<Vec<String>>,
    values: Vec<(String, String)>,
) -> (r: Result<Batch, DispatchError>)
    ensures
        match r {
            Ok(batch) => batch_of(macros@, request@, crate::macros::names_given(names), values@)
                == Ok::<(RequestType, Seq<Seq<char>>), DispatchError>(
                (batch.request_type, texts(batch.statements@)),
            ),
            Err(e) => batch_of(macros@, request@, crate::macros::names_given(names), values@)
                == Err::<(RequestType, Seq<Seq<char>>), DispatchError>(e),
        },
{
    match request.request_type {
        RequestType::Query | RequestType::Command => {
            let mut statements: Vec<String> = Vec::new();
            statements.push(request.entered.clone());
            assert(texts(statements@) =~= seq![request.entered@]);
            Ok(Batch { request_type: request.request_type, statements })
        },
        RequestType::Unknown => Err(DispatchError::UnknownRequest),
        RequestType::Macro => {
            match macros.check_macro(request.body.as_str()) {
                Err(MacroError::NotFound) => {
                    return Err(DispatchError::UnknownMacro);
                },
                Err(_) => {
                    return Err(DispatchError::MalformedMacro);
                },
                Ok(_) => {},
            }
            let kind = match macros.get_macro_request_type(request.body.as_str()) {
                Some(kind) => kind,
                None => {
                    return Err(DispatchError::UnknownMacro);
                },
            };
            match macros.get_macro(request.body.as_str(), names, values) {
                Some(statements) => Ok(Batch { request_type: kind, statements }),
                None => Err(DispatchError::MissingValue),
            }
        },
    }
}

/// A line of the history as it is listed: its number, a colon, and the
/// line without its line break.
pub open spec fn history_entry(index: int, line: Seq<char>) -> Seq<char> {
    decimal(index) + ": "@ + without_newline(line)
}

/// The history as it is listed, in the order in which it was entered.
pub fn history_listing(history: &Vec<String>) -> (listing: Vec<String>)
    ensures
        listing.len() == history.len(),
        forall|i: int|
            0 <= i < listing.len() ==> (#[trigger] listing@[i])@ == history_entry(
                i,
                history@[i]@,
            ),
{
    let mut listing: Vec<String> = Vec::new();
    let mut i: usize = 0;
    while i < history.len()
        invariant
            i <= history.len(),
            listing.len() == i,
            forall|j: int|
                0 <= j < i ==> (#[trigger] listing@[j])@ == history_entry(j, history@[j]@),
        decreases history.len() - i,
    {
        let mut line = history[i].clone();
        trim_newline(&mut line);
        let mut entry = String::new();
        append_decimal(&mut entry, i as i128);
        entry.append(": ");
        entry.append(line.as_str());
        assert(entry@ =~= history_entry(i as int, history@[i as int]@));
        listing.push(entry);
        i += 1;
    }
    listing
}

} // verus!
