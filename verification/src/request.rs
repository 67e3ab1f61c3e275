//! A line of the console as a request: which group it addresses, of what
//! kind it is, and what it asks for.
use vstd::prelude::*;
use vstd::string::StringExecFns;
use crate::decimal::append_decimal;
use crate::decimal::decimal;
use crate::split::find_char;
use crate::split::first_index;
use crate::split::slice_of;
use crate::text::chars_of;
use crate::text::lowercase;
use crate::text::lowercase_of;
use crate::text::push_char;
use crate::text::string_of;
use crate::text::trim;
use crate::text::trimmed;

verus! {

/// The kinds of request.
#[derive(Clone, Copy, Debug, PartialEq, Eq, Structural)]
pub enum RequestType {
    /// A statement that yields rows.
    Query,
    /// A statement that yields a count of affected rows.
    Command,
    /// The name of a built-in template.
    Macro,
    /// Not a request.
    Unknown,
}

/// The separator of queries.
pub const QUERY_SEPARATOR: char = '?';

/// The separator of commands.
pub const COMMAND_SEPARATOR: char = '!';

/// The separator of macros.
pub const MACRO_SEPARATOR: char = '$';

/// The width of the line that separates sections of output.
pub const SEPARATOR_WIDTH: usize = 80;

/// The kind of request that a line is: a query where it holds a question
/// mark, else a command where it holds an exclamation mark, else a macro
/// where it holds a dollar sign, else no request.
pub open spec fn request_kind(line: Seq<char>) -> RequestType {
    if line.contains(QUERY_SEPARATOR) {
        RequestType::Query
    } else if line.contains(COMMAND_SEPARATOR) {
        RequestType::Command
    } else if line.contains(MACRO_SEPARATOR) {
        RequestType::Macro
    } else {
        RequestType::Unknown
    }
}

/// The separator of a kind of request.
pub open spec fn separator_of(kind: RequestType) -> Option<char> {
    match kind {
        RequestType::Query => Some(QUERY_SEPARATOR),
        RequestType::Command => Some(COMMAND_SEPARATOR),
        RequestType::Macro => Some(MACRO_SEPARATOR),
        RequestType::Unknown => None,
    }
}

/// What stands before the first separator.
pub open spec fn before_separator(line: Seq<char>, separator: char) -> Seq<char> {
    line.subrange(0, first_index(line, separator))
}

/// What stands behind the first separator.
pub open spec fn behind_separator(line: Seq<char>, separator: char) -> Seq<char> {
    line.subrange(first_index(line, separator) + 1, line.len() as int)
}

/// One half of a line as the dispatcher reads it: trimmed, in lower case.
pub open spec fn folded(half: Seq<char>) -> Seq<char> {
    lowercase_of(trim(half))
}

/// The kind of request that a line is.
pub fn get_request_type(command: &String) -> (kind: RequestType)
    ensures
        kind == request_kind(command@),
{
    let chars = chars_of(command.as_str());
    if find_char(&chars, QUERY_SEPARATOR) < chars.len() {
        RequestType::Query
    } else if find_char(&chars, COMMAND_SEPARATOR) < chars.len() {
        RequestType::Command
    } else if find_char(&chars, MACRO_SEPARATOR) < chars.len() {
        RequestType::Macro
    } else {
        RequestType::Unknown
    }
}

fn fold(half: &Vec<char>) -> (r: String)
    ensures
        r@ == folded(half@),
{
    let kept = string_of(&trimmed(half));
    lowercase(kept.as_str())
}

/// The group and the body of a request: the line is split at the first
/// separator of its kind, and both halves are trimmed and put in lower
/// case.
pub fn get_raw_command(command: &String, request_type: &RequestType) -> (halves: (String, String))
    requires
        separator_of(*request_type) matches Some(separator) && command@.contains(separator),
    ensures
        halves.0@ == folded(before_separator(command@, separator_of(*request_type)->0)),
        halves.1@ == folded(behind_separator(command@, separator_of(*request_type)->0)),
{
    let separator = match request_type {
        RequestType::Query => QUERY_SEPARATOR,
        RequestType::Command => COMMAND_SEPARATOR,
        _ => MACRO_SEPARATOR,
    };
    let chars = chars_of(command.as_str());
    let at = find_char(&chars, separator);
    let before = slice_of(&chars, 0, at);
    let behind = slice_of(&chars, at + 1, chars.len());
    (fold(&before), fold(&behind))
}

/// A request as the dispatcher takes it.
#[derive(Debug, PartialEq, Eq)]
pub struct Request {
    pub request_type: RequestType,
    /// The name of the group that the request addresses.
    pub group: String,
    /// What is asked for, trimmed and in lower case: for a macro its name.
    pub body: String,
    /// What stands behind the separator, as it was entered.
    pub entered: String,
}

/// The value of a request.
pub ghost struct RequestView {
    pub request_type: RequestType,
    pub group: Seq<char>,
    pub body: Seq<char>,
    pub entered: Seq<char>,
}

impl View for Request {
    type V = RequestView;

    open spec fn view(&self) -> RequestView {
        RequestView {
            request_type: self.request_type,
            group: self.group@,
            body: self.body@,
            entered: self.entered@,
        }
    }
}

/// The request that a line is, if it is one.
pub open spec fn request_of(line: Seq<char>) -> Option<RequestView> {
    match separator_of(request_kind(line)) {
        None => None,
        Some(separator) => Some(
            RequestView {
                request_type: request_kind(line),
                group: folded(before_separator(line, separator)),
                body: folded(behind_separator(line, separator)),
                entered: behind_separator(line, separator),
            },
        ),
    }
}

/// The value of an optional request.
pub open spec fn request_view(r: Option<Request>) -> Option<RequestView> {
    match r {
        Some(request) => Some(request@),
        None => None,
    }
}

/// Reads a line as a request: `None` where the line holds no separator.
pub fn parse_request(line: &String) -> (r: Option<Request>)
    ensures
        request_view(r) == request_of(line@),
{
    let kind = get_request_type(line);
    let separator = match kind {
        RequestType::Query => QUERY_SEPARATOR,
        RequestType::Command => COMMAND_SEPARATOR,
        RequestType::Macro => MACRO_SEPARATOR,
        RequestType::Unknown => {
            return None;
        },
    };
    let halves = get_raw_command(line, &kind);
    let chars = chars_of(line.as_str());
    let at = find_char(&chars, separator);
    let entered = string_of(&slice_of(&chars, at + 1, chars.len()));
    Some(Request { request_type: kind, group: halves.0, body: halves.1, entered })
}

/// The line that separates sections of output: eighty asterisks.
pub open spec fn separator_line() -> Seq<char> {
    Seq::new(SEPARATOR_WIDTH as nat, |i: int| '*')
}

/// The line that separates sections of output.
pub fn build_separator() -> (line: String)
    ensures
        line@ == separator_line(),
{
    let mut line = String::new();
    let mut i: usize = 0;
    while i < SEPARATOR_WIDTH
        invariant
            i <= SEPARATOR_WIDTH,
            line@ == Seq::new(i as nat, |k: int| '*'),
        decreases SEPARATOR_WIDTH - i,
    {
        push_char(&mut line, '*');
        assert(line@ =~= Seq::new((i + 1) as nat, |k: int| '*'));
        i += 1;
    }
    line
}

/// A line without the line break at its end: a line feed is dropped, and
/// with it a carriage return in front of it.
pub open spec fn without_newline(s: Seq<char>) -> Seq<char> {
    if s.len() > 0 && s.last() == '\n' {
        let shorter = s.drop_last();
        if shorter.len() > 0 && shorter.last() == '\r' {
            shorter.drop_last()
        } else {
            shorter
        }
    } else {
        s
    }
}

/// Drops the line break at the end of a line.
pub fn trim_newline(s: &mut String)
    ensures
        final(s)@ == without_newline(old(s)@),
{
    let chars = chars_of(s.as_str());
    let n = chars.len();
    if n > 0 && chars[n - 1] == '\n' {
        let kept = if n > 1 && chars[n - 2] == '\r' {
            slice_of(&chars, 0, n - 2)
        } else {
            slice_of(&chars, 0, n - 1)
        };
        proof {
            let shorter = old(s)@.drop_last();
            assert(shorter =~= old(s)@.subrange(0, n - 1));
            if n > 1 {
                assert(shorter.last() == old(s)@[n - 2]);
                assert(shorter.drop_last() =~= old(s)@.subrange(0, n - 2));
            }
        }
        *s = string_of(&kept);
    }
}

/// The sum of the row counts of the tasks of a batch.
pub open spec fn sum_of(counts: Seq<u64>) -> int
    decreases counts.len(),
{
    if counts.len() == 0 {
        0
    } else {
        sum_of(counts.drop_last()) + counts.last()
    }
}

/// The sum of the row counts of the tasks of a batch, or `None` where the
/// sum does not fit in sixty-four bits.
pub fn total_rows(counts: &Vec<u64>) -> (total: Option<u64>)
    ensures
        match total {
            Some(n) => n == sum_of(counts@),
            None => sum_of(counts@) > u64::MAX,
        },
{
    let mut total: u64 = 0;
    let mut i: usize = 0;
    assert(counts@.take(0) =~= Seq::<u64>::empty());
    while i < counts.len()
        invariant
            i <= counts.len(),
            total == sum_of(counts@.take(i as int)),
        decreases counts.len() - i,
    {
        proof {
            let upto = counts@.take(i + 1);
            assert(upto.drop_last() =~= counts@.take(i as int));
            assert(upto.last() == counts@[i as int]);
        }
        if counts[i] > u64::MAX - total {
            proof {
                lemma_sum_grows(counts@, i + 1, counts.len() as int);
                assert(counts@.take(counts.len() as int) =~= counts@);
            }
            return None;
        }
        total = total + counts[i];
        i += 1;
    }
    assert(counts@.take(counts.len() as int) =~= counts@);
    Some(total)
}

/// The sum of more counts is not smaller.
pub proof fn lemma_sum_grows(counts: Seq<u64>, k: int, n: int)
    requires
        0 <= k <= n <= counts.len(),
    ensures
        sum_of(counts.take(k)) <= sum_of(counts.take(n)),
    decreases n - k,
{
    if k < n {
        lemma_sum_grows(counts, k, n - 1);
        let upto = counts.take(n);
        assert(upto.drop_last() =~= counts.take(n - 1));
    }
}

/// The block that closes the output of a batch: between two separator
/// lines the total of the rows.
pub open spec fn total_text(total: int) -> Seq<char> {
    "\n"@ + separator_line() + "\n"@ + "Total rows: "@ + decimal(total) + "\n"@ + separator_line()
        + "\n"@
}

/// The block that closes the output of a batch.
pub fn total_rows_block(total: u64) -> (block: String)
    ensures
        block@ == total_text(total as int),
{
    let separator = build_separator();
    let mut block = String::from_str("\n");
    block.append(separator.as_str());
    block.append("\n");
    block.append("Total rows: ");
    append_decimal(&mut block, total as i128);
    block.append("\n");
    block.append(separator.as_str());
    block.append("\n");
    block
}

} // verus!
