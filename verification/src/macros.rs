//! Built-in templates of statements, with placeholders between dollar signs.
use vstd::prelude::*;
use vstd::string::StringExecFns;
use crate::order::lemma_text_order_skip;
use crate::order::lemma_text_order_total;
use crate::order::lemma_text_order_transitive;
use crate::order::strictly_ascending;
use crate::order::text_equal;
use crate::order::text_less;
use crate::order::text_lt;
use crate::request::RequestType;
use crate::split::concat;
use crate::split::join;
use crate::split::lemma_join_split;
use crate::split::lemma_split_nonempty;
use crate::split::pieces;
use crate::split::replace_all;
use crate::split::replaced;
use crate::split::slice_of;
use crate::split::split;
use crate::split::split_on;
use crate::text::chars_of;
use crate::text::same_text;
use crate::text::string_of;
use crate::text::texts;
use crate::text::trim;
use crate::text::trimmed;

verus! {

/// The character on both sides of a placeholder.
pub const DOLLAR: char = '$';

/// The character that ends a statement.
pub const SEMICOLON: char = ';';

/// Why a template could not be used.
#[derive(Clone, Copy, Debug, PartialEq, Eq, Structural)]
pub enum MacroError {
    /// No template has that name.
    NotFound,
    /// The body holds an odd number of dollar signs.
    Malformed,
    /// A placeholder was given no value.
    MissingValue,
}

/// The positions of the dollar signs of a body, in ascending order.
pub open spec fn dollar_positions(body: Seq<char>) -> Seq<int>
    decreases body.len(),
{
    if body.len() == 0 {
        Seq::empty()
    } else {
        let before = dollar_positions(body.drop_last());
        if body.last() == DOLLAR {
            before.push(body.len() - 1)
        } else {
            before
        }
    }
}

/// The tokens of a body in the order in which they occur: the dollar signs
/// are paired in order, and a token is the text from an opening dollar sign
/// to its closing one, both included. `None` where a dollar sign is left
/// without a partner.
pub open spec fn tokens(body: Seq<char>) -> Option<Seq<Seq<char>>> {
    let at = dollar_positions(body);
    if at.len() % 2 != 0 {
        None
    } else {
        Some(Seq::new(at.len() / 2, |k: int| body.subrange(at[2 * k], at[2 * k + 1] + 1)))
    }
}

/// Whether `names` lists the placeholders of the given tokens: each token
/// once, in ascending order. There is exactly one such list.
pub open spec fn lists_placeholders(names: Seq<Seq<char>>, found: Seq<Seq<char>>) -> bool {
    &&& strictly_ascending(names)
    &&& forall|t: Seq<char>| names.contains(t) <==> found.contains(t)
}

/// The value given for a placeholder: that of the first pair that names it.
pub open spec fn value_for(values: Seq<(String, String)>, name: Seq<char>) -> Option<Seq<char>>
    decreases values.len(),
{
    if values.len() == 0 {
        None
    } else if values[0].0@ == name {
        Some(values[0].1@)
    } else {
        value_for(values.drop_first(), name)
    }
}

/// The body after the first `upto` placeholders were substituted, one after
/// the other: every occurrence of a placeholder is replaced by its value.
/// `None` where one of them has no value.
pub open spec fn substituted(
    body: Seq<char>,
    names: Seq<Seq<char>>,
    values: Seq<(String, String)>,
    upto: int,
) -> Option<Seq<char>>
    decreases upto,
{
    if upto <= 0 {
        Some(body)
    } else {
        match substituted(body, names, values, upto - 1) {
            None => None,
            Some(text) => match value_for(values, names[upto - 1]) {
                None => None,
                Some(value) => Some(replace_all(text, names[upto - 1], value)),
            },
        }
    }
}

/// A piece of text as a statement: trimmed, with a semicolon behind it.
pub open spec fn statement(piece: Seq<char>) -> Seq<char> {
    trim(piece).push(SEMICOLON)
}

/// The statements of a text: the text is trimmed and split at semicolons,
/// the last piece, which is what follows the last semicolon, is dropped,
/// and every other piece becomes a statement. Their order is that of the
/// text.
pub open spec fn statements(text: Seq<char>) -> Seq<Seq<char>> {
    let parts = split(trim(text), SEMICOLON);
    Seq::new((parts.len() - 1) as nat, |i: int| statement(parts[i]))
}

/// What expanding a body comes to: its statements after substitution, or
/// the error where a placeholder has no value.
pub open spec fn expansion(
    body: Seq<char>,
    names: Seq<Seq<char>>,
    values: Seq<(String, String)>,
) -> Result<Seq<Seq<char>>, MacroError> {
    match substituted(body, names, values, names.len() as int) {
        None => Err(MacroError::MissingValue),
        Some(text) => Ok(statements(text)),
    }
}

/// The tokens of a body in the order in which they occur.
pub fn scan_tokens(body: &Vec<char>) -> (r: Option<Vec<Vec<char>>>)
    ensures
        match r {
            Some(found) => tokens(body@) == Some(pieces(found@)),
            None => tokens(body@) is None,
        },
{
    let n = body.len();
    let mut at: Vec<usize> = Vec::new();
    let mut i: usize = 0;
    while i < n
        invariant
            i <= n,
            n == body.len(),
            at.len() == dollar_positions(body@.take(i as int)).len(),
            forall|k: int|
                0 <= k < at.len() ==> #[trigger] at@[k] == dollar_positions(
                    body@.take(i as int),
                )[k],
            forall|k: int| 0 <= k < at.len() ==> #[trigger] at@[k] < i,
            forall|a: int, b: int| 0 <= a < b < at.len() ==> #[trigger] at@[a] < #[trigger] at@[b],
        decreases n - i,
    {
        proof {
            let upto = body@.take(i + 1);
            assert(upto.drop_last() =~= body@.take(i as int));
            assert(upto.last() == body@[i as int]);
        }
        if body[i] == DOLLAR {
            at.push(i);
        }
        i += 1;
    }
    assert(body@.take(n as int) =~= body@);
    if at.len() % 2 != 0 {
        return None;
    }
    let mut found: Vec<Vec<char>> = Vec::new();
    let mut k: usize = 0;
    while k < at.len() / 2
        invariant
            k <= at.len() / 2,
            at.len() % 2 == 0,
            n == body.len(),
            found.len() == k,
            forall|j: int| 0 <= j < at.len() ==> #[trigger] at@[j] < n,
            forall|a: int, b: int| 0 <= a < b < at.len() ==> #[trigger] at@[a] < #[trigger] at@[b],
            forall|j: int|
                0 <= j < k ==> (#[trigger] found@[j])@ == body@.subrange(
                    at@[2 * j] as int,
                    at@[2 * j + 1] + 1,
                ),
        decreases at.len() / 2 - k,
    {
        let open = at[2 * k];
        let close = at[2 * k + 1];
        found.push(slice_of(body, open, close + 1));
        k += 1;
    }
    assert(pieces(found@) =~= tokens(body@)->0);
    Some(found)
}

/// Puts a text into an ascending list, unless the list holds it already.
pub fn insert_ascending(list: &mut Vec<Vec<char>>, text: Vec<char>)
    requires
        strictly_ascending(pieces(old(list)@)),
    ensures
        strictly_ascending(pieces(final(list)@)),
        forall|t: Seq<char>|
            pieces(final(list)@).contains(t) <==> (pieces(old(list)@).contains(t) || t == text@),
{
    let ghost before = pieces(list@);
    let mut p: usize = 0;
    while p < list.len() && text_less(&list[p], &text)
        invariant
            p <= list.len(),
            before == pieces(list@),
            forall|j: int| 0 <= j < p ==> text_lt(#[trigger] before[j], text@),
        decreases list.len() - p,
    {
        p += 1;
    }
    if p < list.len() && text_equal(&list[p], &text) {
        proof {
            assert(before[p as int] == text@);
            assert(before.contains(text@));
        }
        return ;
    }
    proof {
        // what stands at `p` and behind it comes after the new text
        assert forall|j: int| p <= j < before.len() implies text_lt(text@, #[trigger] before[j]) by {
            lemma_text_order_total(before[p as int], text@);
            if j > p {
                lemma_text_order_transitive(text@, before[p as int], before[j]);
            }
        }
    }
    list.insert(p, text);
    proof {
        let after = pieces(list@);
        assert(after =~= before.insert(p as int, text@));
        assert forall|a: int, b: int| 0 <= a < b < after.len() implies text_lt(
            #[trigger] after[a],
            #[trigger] after[b],
        ) by {
            if b < p {
                assert(after[a] == before[a] && after[b] == before[b]);
            } else if b == p {
                assert(after[a] == before[a]);
            } else if a < p {
                assert(after[a] == before[a] && after[b] == before[b - 1]);
            } else if a == p {
                assert(after[b] == before[b - 1]);
            } else {
                assert(after[a] == before[a - 1] && after[b] == before[b - 1]);
            }
        }
        assert forall|t: Seq<char>| after.contains(t) <==> (before.contains(t) || t == text@) by {
            if after.contains(t) {
                let k = choose|k: int| 0 <= k < after.len() && after[k] == t;
                if k < p {
                    assert(before[k] == t);
                } else if k > p {
                    assert(before[k - 1] == t);
                }
            }
            if before.contains(t) {
                let k = choose|k: int| 0 <= k < before.len() && before[k] == t;
                if k < p {
                    assert(after[k] == t);
                } else {
                    assert(after[k + 1] == t);
                }
            }
            if t == text@ {
                assert(after[p as int] == t);
            }
        }
    }
}

fn strings_of(list: &Vec<Vec<char>>) -> (r: Vec<String>)
    ensures
        texts(r@) == pieces(list@),
{
    let mut r: Vec<String> = Vec::new();
    let mut i: usize = 0;
    while i < list.len()
        invariant
            i <= list.len(),
            r.len() == i,
            forall|j: int| 0 <= j < i ==> (#[trigger] r@[j])@ == list@[j]@,
        decreases list.len() - i,
    {
        r.push(string_of(&list[i]));
        i += 1;
    }
    assert(texts(r@) =~= pieces(list@));
    r
}

/// The placeholders of a body: each token once, in ascending order, so that
/// asking for their values goes the same way every time. A body with an odd
/// number of dollar signs is malformed.
pub fn placeholders(body: &str) -> (r: Result<Vec<String>, MacroError>)
    ensures
        match r {
            Ok(names) => tokens(body@) matches Some(found) && lists_placeholders(
                texts(names@),
                found,
            ),
            Err(e) => e == MacroError::Malformed && tokens(body@) is None,
        },
{
    let chars = chars_of(body);
    let found = match scan_tokens(&chars) {
        Some(found) => found,
        None => {
            return Err(MacroError::Malformed);
        },
    };
    let mut list: Vec<Vec<char>> = Vec::new();
    let mut i: usize = 0;
    while i < found.len()
        invariant
            i <= found.len(),
            strictly_ascending(pieces(list@)),
            forall|t: Seq<char>|
                pieces(list@).contains(t) <==> pieces(found@).take(i as int).contains(t),
        decreases found.len() - i,
    {
        let ghost before = pieces(list@);
        let token = slice_of(&found[i], 0, found[i].len());
        assert(token@ =~= found@[i as int]@);
        insert_ascending(&mut list, token);
        proof {
            let upto = pieces(found@).take(i + 1);
            let prior = pieces(found@).take(i as int);
            assert forall|t: Seq<char>| pieces(list@).contains(t) <==> upto.contains(t) by {
                if upto.contains(t) {
                    let k = choose|k: int| 0 <= k < upto.len() && upto[k] == t;
                    if k < i {
                        assert(prior[k] == t);
                    }
                }
                if prior.contains(t) {
                    let k = choose|k: int| 0 <= k < prior.len() && prior[k] == t;
                    assert(upto[k] == t);
                }
                if t == token@ {
                    assert(upto[i as int] == t);
                }
            }
        }
        i += 1;
    }
    assert(pieces(found@).take(found.len() as int) =~= pieces(found@));
    Ok(strings_of(&list))
}

fn find_value<'a>(values: &'a Vec<(String, String)>, name: &str) -> (r: Option<&'a String>)
    ensures
        match r {
            Some(value) => value_for(values@, name@) == Some(value@),
            None => value_for(values@, name@) is None,
        },
{
    let mut k: usize = 0;
    assert(values@.subrange(0, values.len() as int) =~= values@);
    while k < values.len()
        invariant
            k <= values.len(),
            value_for(values@, name@) == value_for(
                values@.subrange(k as int, values.len() as int),
                name@,
            ),
        decreases values.len() - k,
    {
        let ghost rest = values@.subrange(k as int, values.len() as int);
        assert(rest[0] == values@[k as int]);
        if same_text(values[k].0.as_str(), name) {
            return Some(&values[k].1);
        }
        assert(rest.drop_first() =~= values@.subrange(k + 1, values.len() as int));
        k += 1;
    }
    None
}

/// The statements of a text.
pub fn split_statements(text: &Vec<char>) -> (r: Vec<String>)
    ensures
        texts(r@) == statements(text@),
{
    let whole = trimmed(text);
    let parts = split_on(&whole, SEMICOLON);
    let mut r: Vec<String> = Vec::new();
    let mut i: usize = 0;
    while i + 1 < parts.len()
        invariant
            i + 1 <= parts.len(),
            r.len() == i,
            forall|j: int| 0 <= j < i ==> (#[trigger] r@[j])@ == statement(parts@[j]@),
        decreases parts.len() - i,
    {
        let mut piece = trimmed(&parts[i]);
        piece.push(SEMICOLON);
        r.push(string_of(&piece));
        i += 1;
    }
    assert(texts(r@) =~= statements(text@));
    r
}

/// Expands a body: substitutes the value of each placeholder for every
/// occurrence of it, one placeholder after the other, and splits the
/// result into statements.
pub fn expand(body: &str, names: &Vec<String>, values: &Vec<(String, String)>) -> (r: Result<
    Vec<String>,
    MacroError,
>)
    ensures
        match r {
            Ok(list) => expansion(body@, texts(names@), values@) == Ok::<
                Seq<Seq<char>>,
                MacroError,
            >(texts(list@)),
            Err(e) => expansion(body@, texts(names@), values@) == Err::<
                Seq<Seq<char>>,
                MacroError,
            >(e),
        },
{
    let mut text = chars_of(body);
    let mut i: usize = 0;
    while i < names.len()
        invariant
            i <= names.len(),
            substituted(body@, texts(names@), values@, i as int) == Some(text@),
        decreases names.len() - i,
    {
        let name = &names[i];
        match find_value(values, name.as_str()) {
            None => {
                proof {
                    lemma_missing_value_stays(
                        body@,
                        texts(names@),
                        values@,
                        i + 1,
                        names.len() as int,
                    );
                }
                return Err(MacroError::MissingValue);
            },
            Some(value) => {
                let pattern = chars_of(name.as_str());
                let replacement = chars_of(value.as_str());
                text = replaced(&text, &pattern, &replacement);
            },
        }
        i += 1;
    }
    Ok(split_statements(&text))
}

/// Once a placeholder has no value, the substitution has no result.
pub proof fn lemma_missing_value_stays(
    body: Seq<char>,
    names: Seq<Seq<char>>,
    values: Seq<(String, String)>,
    k: int,
    n: int,
)
    requires
        0 <= k <= n,
        substituted(body, names, values, k) is None,
    ensures
        substituted(body, names, values, n) is None,
    decreases n - k,
{
    if k < n {
        lemma_missing_value_stays(body, names, values, k, n - 1);
    }
}


/// A built-in template.
pub struct Macro {
    pub name: String,
    pub body: String,
    pub request_type: RequestType,
    pub description: String,
}

/// The value of a template.
pub ghost struct MacroView {
    pub name: Seq<char>,
    pub body: Seq<char>,
    pub request_type: RequestType,
    pub description: Seq<char>,
}

impl View for Macro {
    type V = MacroView;

    open spec fn view(&self) -> MacroView {
        MacroView {
            name: self.name@,
            body: self.body@,
            request_type: self.request_type,
            description: self.description@,
        }
    }
}

/// The values of a list of templates.
pub open spec fn macro_views(list: Seq<Macro>) -> Seq<MacroView> {
    Seq::new(list.len(), |i: int| list[i]@)
}

/// The built-in templates, in the ascending order of their names.
pub open spec fn builtin_macros() -> Seq<MacroView> {
    seq![
        MacroView {
            name: "drop_db"@,
            body: "UPDATE pg_database SET datallowconn = false WHERE datname = '$DB_NAME$'; SELECT pg_terminate_backend(pid) FROM pg_stat_activity WHERE datname='$DB_NAME$'; DROP DATABASE $DB_NAME$;"@,
            request_type: RequestType::Command,
            description: "CLOSE ALL CONNECTIONS AND DROPS DB $DB_NAME$"@,
        },
        MacroView {
            name: "pg_leader_status"@,
            body: "SELECT application_name, client_addr, client_port, state, sync_state FROM pg_stat_replication;"@,
            request_type: RequestType::Query,
            description: "SHOWS POSTGRES LEADER REPLICATION STATUS FOR EVERY NODE IN GROUP"@,
        },
        MacroView {
            name: "pg_replica_status"@,
            body: "SELECT status, last_msg_send_time, slot_name, sender_host FROM pg_stat_wal_receiver;"@,
            request_type: RequestType::Query,
            description: "SHOWS POSTGRES REPLICA REPLICATION STATUS FOR EVERY NODE IN GROUP"@,
        },
        MacroView {
            name: "pg_replication_status"@,
            body: "SELECT application_name, client_addr, client_port, state, sync_state FROM pg_stat_replication;"@
                + "SELECT status, last_msg_send_time, slot_name, sender_host FROM pg_stat_wal_receiver;"@,
            request_type: RequestType::Query,
            description: "SHOWS ALL POSTGRES REPLICATION STATUS FOR EVERY NODE IN GROUP"@,
        },
    ]
}

/// The template with the given name: the first of the list that has it.
pub open spec fn macro_named(list: Seq<MacroView>, name: Seq<char>) -> Option<MacroView>
    decreases list.len(),
{
    if list.len() == 0 {
        None
    } else if list[0].name == name {
        Some(list[0])
    } else {
        macro_named(list.drop_first(), name)
    }
}

/// The names that were handed in, or none.
pub open spec fn names_given(names: Option<Vec<String>>) -> Seq<Seq<char>> {
    match names {
        Some(list) => texts(list@),
        None => Seq::empty(),
    }
}

/// The registry of built-in templates.
pub struct MacroProvider {
    macros: Vec<Macro>,
}

impl View for MacroProvider {
    type V = Seq<MacroView>;

    closed spec fn view(&self) -> Seq<MacroView> {
        macro_views(self.macros@)
    }
}

impl MacroProvider {
    /// The registry with the built-in templates.
    pub fn new() -> (provider: Self)
        ensures
            provider@ == builtin_macros(),
    {
        let mut replication = String::from_str(
            "SELECT application_name, client_addr, client_port, state, sync_state FROM pg_stat_replication;",
        );
        replication.append(
            "SELECT status, last_msg_send_time, slot_name, sender_host FROM pg_stat_wal_receiver;",
        );
        let mut macros: Vec<Macro> = Vec::new();
        macros.push(
            Macro {
                name: String::from_str("drop_db"),
                body: String::from_str(
                    "UPDATE pg_database SET datallowconn = false WHERE datname = '$DB_NAME$'; SELECT pg_terminate_backend(pid) FROM pg_stat_activity WHERE datname='$DB_NAME$'; DROP DATABASE $DB_NAME$;",
                ),
                request_type: RequestType::Command,
                description: String::from_str("CLOSE ALL CONNECTIONS AND DROPS DB $DB_NAME$"),
            },
        );
        macros.push(
            Macro {
                name: String::from_str("pg_leader_status"),
                body: String::from_str(
                    "SELECT application_name, client_addr, client_port, state, sync_state FROM pg_stat_replication;",
                ),
                request_type: RequestType::Query,
                description: String::from_str(
                    "SHOWS POSTGRES LEADER REPLICATION STATUS FOR EVERY NODE IN GROUP",
                ),
            },
        );
        macros.push(
            Macro {
                name: String::from_str("pg_replica_status"),
                body: String::from_str(
                    "SELECT status, last_msg_send_time, slot_name, sender_host FROM pg_stat_wal_receiver;",
                ),
                request_type: RequestType::Query,
                description: String::from_str(
                    "SHOWS POSTGRES REPLICA REPLICATION STATUS FOR EVERY NODE IN GROUP",
                ),
            },
        );
        macros.push(
            Macro {
                name: String::from_str("pg_replication_status"),
                body: replication,
                request_type: RequestType::Query,
                description: String::from_str(
                    "SHOWS ALL POSTGRES REPLICATION STATUS FOR EVERY NODE IN GROUP",
                ),
            },
        );
        assert(macro_views(macros@) =~= builtin_macros());
        Self { macros }
    }

    fn find(&self, name: &str) -> (r: Option<&Macro>)
        ensures
            match r {
                Some(m) => macro_named(self@, name@) == Some(m@),
                None => macro_named(self@, name@) is None,
            },
    {
        let ghost list = macro_views(self.macros@);
        let mut k: usize = 0;
        assert(list.subrange(0, list.len() as int) =~= list);
        while k < self.macros.len()
            invariant
                k <= self.macros.len(),
                list == macro_views(self.macros@),
                macro_named(list, name@) == macro_named(
                    list.subrange(k as int, list.len() as int),
                    name@,
                ),
            decreases self.macros.len() - k,
        {
            let ghost rest = list.subrange(k as int, list.len() as int);
            assert(rest[0] == self.macros@[k as int]@);
            if same_text(self.macros[k].name.as_str(), name) {
                return Some(&self.macros[k]);
            }
            assert(rest.drop_first() =~= list.subrange(k + 1, list.len() as int));
            k += 1;
        }
        None
    }

    /// Whether the named template can be used: it exists, and the dollar
    /// signs of its body pair up.
    pub fn check_macro(&self, name: &str) -> (r: Result<(), MacroError>)
        ensures
            r == match macro_named(self@, name@) {
                None => Err::<(), MacroError>(MacroError::NotFound),
                Some(m) => if tokens(m.body) is None {
                    Err::<(), MacroError>(MacroError::Malformed)
                } else {
                    Ok::<(), MacroError>(())
                },
            },
    {
        match self.find(name) {
            None => Err(MacroError::NotFound),
            Some(m) => match placeholders(m.body.as_str()) {
                Err(_) => Err(MacroError::Malformed),
                Ok(_) => Ok(()),
            },
        }
    }

    /// Whether there is a template with that name.
    pub fn is_macro_exists(&self, macro_name: &str) -> (exists: bool)
        ensures
            exists == macro_named(self@, macro_name@) is Some,
    {
        self.find(macro_name).is_some()
    }

    /// The name and the description of every template, in the order of the
    /// registry.
    pub fn get_macro_names(&self) -> (names: Vec<(String, String)>)
        ensures
            names.len() == self@.len(),
            forall|i: int|
                0 <= i < names.len() ==> (#[trigger] names@[i]).0@ == self@[i].name
                    && names@[i].1@ == self@[i].description,
    {
        let mut names: Vec<(String, String)> = Vec::new();
        let mut i: usize = 0;
        while i < self.macros.len()
            invariant
                i <= self.macros.len(),
                names.len() == i,
                forall|j: int|
                    0 <= j < i ==> (#[trigger] names@[j]).0@ == self.macros@[j].name@
                        && names@[j].1@ == self.macros@[j].description@,
            decreases self.macros.len() - i,
        {
            names.push((self.macros[i].name.clone(), self.macros[i].description.clone()));
            i += 1;
        }
        names
    }

    /// The placeholders of the named template, each once and in ascending
    /// order. `None` where there is no such template, where its body is
    /// malformed, and where its body has no placeholder.
    pub fn get_macro_parameters(&self, name: &str) -> (r: Option<Vec<String>>)
        ensures
            match r {
                Some(names) => macro_named(self@, name@) matches Some(m) && tokens(m.body) matches Some(
                    found,
                ) && found.len() > 0 && lists_placeholders(texts(names@), found),
                None => macro_named(self@, name@) matches Some(m) ==> (tokens(m.body) matches Some(
                    found,
                ) ==> found.len() == 0),
            },
    {
        match self.find(name) {
            None => None,
            Some(m) => match placeholders(m.body.as_str()) {
                Err(_) => None,
                Ok(names) => {
                    if names.len() == 0 {
                        proof {
                            let found = tokens(m.body@)->0;
                            if found.len() > 0 {
                                assert(found.contains(found[0]));
                                assert(texts(names@).contains(found[0]));
                            }
                        }
                        None
                    } else {
                        proof {
                            let found = tokens(m.body@)->0;
                            assert(texts(names@).contains(texts(names@)[0]));
                        }
                        Some(names)
                    }
                },
            },
        }
    }

    /// The statements of the named template, with the given value in place
    /// of every occurrence of each of the given placeholders. `None` where
    /// there is no such template, and where a placeholder has no value.
    pub fn get_macro(
        &self,
        name: &str,
        macro_parameters: Option<Vec<String>>,
        macro_values: Vec<(String, String)>,
    ) -> (r: Option<Vec<String>>)
        ensures
            match r {
                Some(list) => macro_named(self@, name@) matches Some(m) && expansion(
                    m.body,
                    names_given(macro_parameters),
                    macro_values@,
                ) == Ok::<Seq<Seq<char>>, MacroError>(texts(list@)),
                None => macro_named(self@, name@) matches Some(m) ==> expansion(
                    m.body,
                    names_given(macro_parameters),
                    macro_values@,
                ) is Err,
            },
    {
        match self.find(name) {
            None => None,
            Some(m) => {
                let expanded = match &macro_parameters {
                    Some(names) => expand(m.body.as_str(), names, &macro_values),
                    None => {
                        let none: Vec<String> = Vec::new();
                        assert(texts(none@) =~= Seq::<Seq<char>>::empty());
                        expand(m.body.as_str(), &none, &macro_values)
                    },
                };
                match expanded {
                    Ok(list) => Some(list),
                    Err(_) => None,
                }
            },
        }
    }

    /// The kind of the statements of the named template.
    pub fn get_macro_request_type(&self, request_type: &str) -> (kind: Option<RequestType>)
        ensures
            kind == match macro_named(self@, request_type@) {
                Some(m) => Some(m.request_type),
                None => None,
            },
    {
        match self.find(request_type) {
            Some(m) => Some(m.request_type),
            None => None,
        }
    }
}

/// The names of a list of templates.
pub open spec fn macro_names(list: Seq<MacroView>) -> Seq<Seq<char>> {
    Seq::new(list.len(), |i: int| list[i].name)
}

/// The built-in templates stand in the ascending order of their names, so
/// that listing them goes the same way every time.
pub proof fn law_builtin_names_ascend()
    ensures
        strictly_ascending(macro_names(builtin_macros())),
{
    reveal_strlit("drop_db");
    reveal_strlit("pg_leader_status");
    reveal_strlit("pg_replica_status");
    reveal_strlit("pg_replication_status");
    let a = "drop_db"@;
    let b = "pg_leader_status"@;
    let c = "pg_replica_status"@;
    let d = "pg_replication_status"@;
    assert(text_lt(a, b)) by {
        assert(a[0] == 'd' && b[0] == 'p');
    }
    assert(text_lt(b, c)) by {
        lemma_text_order_skip(b, c, 3);
        let rb = b.subrange(3, b.len() as int);
        let rc = c.subrange(3, c.len() as int);
        assert(rb[0] == 'l' && rc[0] == 'r');
    }
    assert(text_lt(c, d)) by {
        lemma_text_order_skip(c, d, 10);
        let rc = c.subrange(10, c.len() as int);
        let rd = d.subrange(10, d.len() as int);
        assert(rc[0] == '_' && rd[0] == 't');
    }
    lemma_text_order_transitive(a, b, c);
    lemma_text_order_transitive(b, c, d);
    lemma_text_order_transitive(a, c, d);
    let names = macro_names(builtin_macros());
    assert(names[0] == a && names[1] == b && names[2] == c && names[3] == d);
}

/// The pieces but the last, each with a semicolon behind it.
pub open spec fn closed(parts: Seq<Seq<char>>) -> Seq<Seq<char>> {
    Seq::new((parts.len() - 1) as nat, |i: int| parts[i].push(SEMICOLON))
}

/// Putting the semicolons back gives the text back: the pieces but the
/// last, each closed by a semicolon, followed by the last piece, are the
/// pieces joined by semicolons.
pub proof fn lemma_closed_pieces_join(parts: Seq<Seq<char>>)
    requires
        parts.len() >= 1,
    ensures
        concat(closed(parts)) + parts.last() == join(parts, SEMICOLON),
    decreases parts.len(),
{
    if parts.len() == 1 {
        assert(closed(parts) =~= Seq::<Seq<char>>::empty());
        assert(concat(closed(parts)) + parts.last() =~= join(parts, SEMICOLON));
    } else {
        let shorter = parts.drop_last();
        lemma_closed_pieces_join(shorter);
        assert(closed(parts).drop_last() =~= closed(shorter));
        assert(closed(parts).last() == shorter.last().push(SEMICOLON));
        assert(concat(closed(parts)) =~= (concat(closed(shorter)) + shorter.last()).push(
            SEMICOLON,
        ));
        assert(concat(closed(parts)) + parts.last() =~= join(parts, SEMICOLON));
    }
}

/// The statements of a text are its pieces but the last, in the order of
/// the text, each trimmed and closed by a semicolon. Where no piece has
/// white space around it, the statements one after another, followed by
/// what stands behind the last semicolon, are the trimmed text itself.
pub proof fn law_statements_round_trip(text: Seq<char>)
    ensures
        statements(text).len() + 1 == split(trim(text), SEMICOLON).len(),
        forall|i: int|
            0 <= i < statements(text).len() ==> #[trigger] statements(text)[i] == trim(
                split(trim(text), SEMICOLON)[i],
            ).push(SEMICOLON),
        (forall|i: int|
            0 <= i < statements(text).len() ==> trim(#[trigger] split(trim(text), SEMICOLON)[i])
                == split(trim(text), SEMICOLON)[i]) ==> concat(statements(text)) + split(
            trim(text),
            SEMICOLON,
        ).last() == trim(text),
{
    let parts = split(trim(text), SEMICOLON);
    lemma_split_nonempty(trim(text), SEMICOLON);
    if forall|i: int| 0 <= i < statements(text).len() ==> trim(#[trigger] parts[i]) == parts[i] {
        assert(statements(text) =~= closed(parts));
        lemma_closed_pieces_join(parts);
        lemma_join_split(trim(text), SEMICOLON);
    }
}

/// Expanding a body and putting the statements together again gives the
/// substituted text back: the statements are the pieces of the substituted
/// and trimmed text in their order, each trimmed and closed by a semicolon;
/// and where no piece has white space around it and nothing follows the
/// last semicolon, the statements one after another are that text.
pub proof fn law_expansion_round_trip(
    body: Seq<char>,
    names: Seq<Seq<char>>,
    values: Seq<(String, String)>,
)
    requires
        substituted(body, names, values, names.len() as int) is Some,
    ensures
        ({
            let text = trim(substituted(body, names, values, names.len() as int)->0);
            let parts = split(text, SEMICOLON);
            &&& expansion(body, names, values) matches Ok(list)
            &&& list.len() + 1 == parts.len()
            &&& forall|i: int| 0 <= i < list.len() ==> #[trigger] list[i] == trim(parts[i]).push(SEMICOLON)
            &&& ((forall|i: int| 0 <= i < list.len() ==> trim(#[trigger] parts[i]) == parts[i])
                && parts.last().len() == 0) ==> concat(list) == text
        }),
{
    let whole = substituted(body, names, values, names.len() as int)->0;
    law_statements_round_trip(whole);
    let parts = split(trim(whole), SEMICOLON);
    if parts.last().len() == 0 {
        assert(concat(statements(whole)) + parts.last() =~= concat(statements(whole)));
    }
}

/// A body without a dollar sign has no placeholder to ask for, and expands
/// to its own statements whatever values are at hand.
pub proof fn law_no_placeholders(body: Seq<char>, values: Seq<(String, String)>)
    requires
        !body.contains(DOLLAR),
    ensures
        tokens(body) == Some(Seq::<Seq<char>>::empty()),
        expansion(body, Seq::<Seq<char>>::empty(), values) == Ok::<Seq<Seq<char>>, MacroError>(
            statements(body),
        ),
{
    lemma_no_dollar_positions(body);
    assert(tokens(body)->0 =~= Seq::<Seq<char>>::empty());
}

/// A body without a dollar sign has no dollar position.
pub proof fn lemma_no_dollar_positions(body: Seq<char>)
    requires
        !body.contains(DOLLAR),
    ensures
        dollar_positions(body).len() == 0,
    decreases body.len(),
{
    if body.len() > 0 {
        let shorter = body.drop_last();
        assert(body.last() == body[body.len() - 1]);
        assert(!shorter.contains(DOLLAR)) by {
            if shorter.contains(DOLLAR) {
                let k = choose|k: int| 0 <= k < shorter.len() && shorter[k] == DOLLAR;
                assert(body[k] == DOLLAR);
            }
        }
        lemma_no_dollar_positions(shorter);
    }
}

} // verus!
