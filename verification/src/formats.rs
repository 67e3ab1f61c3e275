//! The texts of values as the formatting crates write them: tables, exact
//! decimals, identifiers, dates and times.
use vstd::prelude::*;
use vstd::arithmetic::power::pow;
use crate::decimal::decimal;
use crate::decimal::decimal_nat;
use crate::text::chars_of;
use crate::text::grid;
use crate::text::text_view;

verus! {

/// The character that stands in front of a terminal control sequence.
pub const ESCAPE: char = '\u{1b}';

/// Whether a text holds the start of a control sequence: the escape
/// character with an opening square bracket directly behind it.
pub open spec fn opens_sequence(t: Seq<char>) -> bool {
    exists|i: int| 0 <= i && i + 1 < t.len() && #[trigger] t[i] == ESCAPE && t[i + 1] == '['
}

/// Whether every character of a text is a plain one, below U+007F.
pub open spec fn plain(t: Seq<char>) -> bool {
    forall|i: int| 0 <= i < t.len() ==> (#[trigger] t[i] as u32) < 0x7F
}

/// Whether the table drawer can measure a cell: the cell holds no start of
/// a control sequence, or only plain characters.
pub open spec fn measurable_text(t: Seq<char>) -> bool {
    !opens_sequence(t) || plain(t)
}

/// Whether the table drawer can measure every cell of the rows.
pub open spec fn measurable(rows: Seq<Seq<Seq<char>>>) -> bool {
    forall|i: int, j: int|
        0 <= i < rows.len() && 0 <= j < rows[i].len() ==> measurable_text(#[trigger] rows[i][j])
}

/// The drawing of a table whose rows hold the given cells.
pub uninterp spec fn table_text(rows: Seq<Seq<Seq<char>>>) -> Seq<char>;

/// Draws a table, one row of cells per inner vector.
///
/// Trusted: builds a `prettytable::Table` from `Cell::new` and `Row::new`
/// with `add_row`, and returns its `to_string()`. The drawing uses the
/// crate's constant default format and depends on the cells alone, so the
/// contract gives it a name. The crate measures each line of a cell with an
/// assertion: the width of the line is at least the number of characters
/// that it counts as hidden. It counts a character as hidden only behind an
/// escape character that is directly followed by `[`; and in a line of
/// characters below U+007F every character adds one to the width and at
/// most one to the hidden ones. Cells that are neither are kept out.
#[verifier::external_body]
pub(crate) fn table_string(rows: &Vec<Vec<String>>) -> (text: String)
    requires
        measurable(grid(rows@)),
    ensures
        text@ == table_text(grid(rows@)),
{
    let mut table = prettytable::Table::new();
    for row in rows.iter() {
        let mut cells: Vec<prettytable::Cell> = Vec::new();
        for cell in row.iter() {
            cells.push(prettytable::Cell::new(cell));
        }
        table.add_row(prettytable::Row::new(cells));
    }
    table.to_string()
}

/// A table as it is handed out: drawn, or as its cells where the drawer
/// cannot measure one of them.
#[derive(Debug, PartialEq, Eq)]
pub enum Drawing {
    /// The drawn table.
    Table(String),
    /// The cells of the table, row by row, left for the caller to draw.
    Cells(Vec<Vec<String>>),
}

/// The value of a [`Drawing`].
pub ghost enum DrawingView {
    Table(Seq<char>),
    Cells(Seq<Seq<Seq<char>>>),
}

impl View for Drawing {
    type V = DrawingView;

    open spec fn view(&self) -> DrawingView {
        match self {
            Drawing::Table(text) => DrawingView::Table(text@),
            Drawing::Cells(rows) => DrawingView::Cells(grid(rows@)),
        }
    }
}

/// What drawing the given cells comes to: the drawn table where every cell
/// can be measured, else the cells as they are.
pub open spec fn drawing_of(cells: Seq<Seq<Seq<char>>>) -> DrawingView {
    if measurable(cells) {
        DrawingView::Table(table_text(cells))
    } else {
        DrawingView::Cells(cells)
    }
}

/// A whole number in decimal holds plain characters only, so the table
/// drawer can measure it.
pub proof fn lemma_decimal_plain(n: int)
    ensures
        plain(decimal(n)),
        measurable_text(decimal(n)),
{
    if n < 0 {
        lemma_decimal_nat_plain((-n) as nat);
    } else {
        lemma_decimal_nat_plain(n as nat);
    }
}

proof fn lemma_decimal_nat_plain(n: nat)
    ensures
        plain(decimal_nat(n)),
    decreases n,
{
    if n >= 10 {
        lemma_decimal_nat_plain(n / 10);
    }
}

/// Whether a text holds the start of a control sequence.
pub fn holds_sequence_start(chars: &Vec<char>) -> (b: bool)
    ensures
        b == opens_sequence(chars@),
{
    if chars.len() < 2 {
        return false;
    }
    let last = chars.len() - 1;
    let mut i: usize = 0;
    while i < last
        invariant
            i <= last,
            last + 1 == chars.len(),
            forall|k: int|
                0 <= k < i ==> !(#[trigger] chars@[k] == ESCAPE && chars@[k + 1] == '['),
        decreases last - i,
    {
        if chars[i] == ESCAPE && chars[i + 1] == '[' {
            return true;
        }
        i += 1;
    }
    false
}

/// Whether every character of a text is a plain one.
pub fn is_plain(chars: &Vec<char>) -> (b: bool)
    ensures
        b == plain(chars@),
{
    let mut i: usize = 0;
    while i < chars.len()
        invariant
            i <= chars.len(),
            forall|k: int| 0 <= k < i ==> (#[trigger] chars@[k] as u32) < 0x7F,
        decreases chars.len() - i,
    {
        if chars[i] as u32 >= 0x7F {
            return false;
        }
        i += 1;
    }
    true
}

/// Whether the table drawer can measure a cell with this text.
pub fn is_measurable(text: &str) -> (b: bool)
    ensures
        b == measurable_text(text@),
{
    let chars = chars_of(text);
    !holds_sequence_start(&chars) || is_plain(&chars)
}

/// Draws a table, one row of cells per inner vector, where every cell can
/// be measured; else hands the cells back as they came.
pub fn draw_table(rows: Vec<Vec<String>>) -> (drawing: Drawing)
    ensures
        drawing@ == drawing_of(grid(rows@)),
{
    let ghost cells = grid(rows@);
    let mut i: usize = 0;
    while i < rows.len()
        invariant
            i <= rows.len(),
            cells == grid(rows@),
            forall|a: int, b: int|
                0 <= a < i && 0 <= b < cells[a].len() ==> measurable_text(#[trigger] cells[a][b]),
        decreases rows.len() - i,
    {
        let row = &rows[i];
        let mut j: usize = 0;
        while j < row.len()
            invariant
                j <= row.len(),
                i < rows.len(),
                row == rows@[i as int],
                cells == grid(rows@),
                forall|b: int| 0 <= b < j ==> measurable_text(#[trigger] cells[i as int][b]),
            decreases row.len() - j,
        {
            if !is_measurable(row[j].as_str()) {
                assert(!measurable_text(cells[i as int][j as int]));
                return Drawing::Cells(rows);
            }
            j += 1;
        }
        i += 1;
    }
    assert(measurable(cells));
    Drawing::Table(table_string(&rows))
}

/// Whether an exact decimal with these digits and this scale exists: the
/// scale is at most 28 and the digits fit in ninety-six bits.
pub open spec fn numeric_in_range(mantissa: int, scale: int) -> bool {
    &&& scale <= 28
    &&& -0xFFFF_FFFF_FFFF_FFFF_FFFF_FFFF <= mantissa <= 0xFFFF_FFFF_FFFF_FFFF_FFFF_FFFF
}

/// The text of the exact decimal `mantissa / 10^scale`, or `None` where no
/// such decimal exists.
pub uninterp spec fn numeric_text(mantissa: int, scale: int) -> Option<Seq<char>>;

/// The text of an exact decimal.
///
/// Trusted: `rust_decimal::Decimal::try_from_i128_with_scale`, then
/// `to_string()` on the decimal. The constructor refuses a scale above 28
/// and digits beyond ninety-six bits, and nothing else; the text depends on
/// the two numbers alone, so the contract gives it a name.
#[verifier::external_body]
pub(crate) fn numeric_string(mantissa: i128, scale: u32) -> (text: Option<String>)
    ensures
        text_view(text) == numeric_text(mantissa as int, scale as int),
        text is Some <==> numeric_in_range(mantissa as int, scale as int),
{
    match rust_decimal::Decimal::try_from_i128_with_scale(mantissa, scale) {
        Ok(number) => Some(number.to_string()),
        Err(_) => None,
    }
}

/// The character of a single hexadecimal digit, in lower case.
pub open spec fn hex_digit(d: int) -> char
    recommends
        0 <= d < 16,
{
    if d < 10 {
        crate::decimal::digit_char(d)
    } else if d == 10 {
        'a'
    } else if d == 11 {
        'b'
    } else if d == 12 {
        'c'
    } else if d == 13 {
        'd'
    } else if d == 14 {
        'e'
    } else {
        'f'
    }
}

/// The character at position `i` of an identifier in its canonical form:
/// thirty-two hexadecimal digits, most significant first, in groups of
/// 8, 4, 4, 4 and 12 with a hyphen between groups.
pub open spec fn uuid_char(v: u128, i: int) -> char
    recommends
        0 <= i < 36,
{
    if i == 8 || i == 13 || i == 18 || i == 23 {
        '-'
    } else {
        let hyphens_before: int = if i > 23 {
            4
        } else if i > 18 {
            3
        } else if i > 13 {
            2
        } else if i > 8 {
            1
        } else {
            0
        };
        let digit = i - hyphens_before;
        hex_digit((v as int / pow(16, (31 - digit) as nat)) % 16)
    }
}

/// The canonical text of a 128-bit identifier.
pub open spec fn uuid_text(v: u128) -> Seq<char> {
    Seq::new(36, |i: int| uuid_char(v, i))
}

/// The canonical text of a 128-bit identifier.
///
/// Trusted: `uuid::Uuid::from_u128`, which takes the number's bytes most
/// significant first, then `to_string()`, which writes the hyphenated form
/// in lower case.
#[verifier::external_body]
pub(crate) fn uuid_string(v: u128) -> (text: String)
    ensures
        text@ == uuid_text(v),
{
    uuid::Uuid::from_u128(v).to_string()
}

/// The number of the first day of a year in the proleptic Gregorian
/// calendar, where day 1 is the first of January of the year 1.
pub open spec fn first_day_of_year(year: int) -> int {
    365 * (year - 1) + (year - 1) / 4 - (year - 1) / 100 + (year - 1) / 400 + 1
}

/// Whether the calendar reaches the day with this number: it holds the
/// years from -262143 to 262142, both in full.
pub open spec fn date_in_range(days: int) -> bool {
    first_day_of_year(-262143) <= days < first_day_of_year(262143)
}

/// Whether there is a time of day that lies `secs` seconds and `nanos`
/// nanoseconds after midnight. A billion nanoseconds and more stand for a
/// leap second, which only the last second of a minute can have.
pub open spec fn time_in_range(secs: int, nanos: int) -> bool {
    &&& 0 <= secs < 86_400
    &&& 0 <= nanos < 2_000_000_000
    &&& (nanos < 1_000_000_000 || secs % 60 == 59)
}

/// Whether there is a date and time that lies `secs` seconds and `nanos`
/// nanoseconds after the start of 1970: the day is within the calendar, and
/// what is left of the seconds is a time of day.
pub open spec fn timestamp_in_range(secs: int, nanos: int) -> bool {
    date_in_range(secs / 86_400 + 719_163) && time_in_range(secs % 86_400, nanos)
}

/// The text of the date and time that lies `secs` seconds and `nanos`
/// nanoseconds after the start of 1970, or `None` where there is none.
pub uninterp spec fn timestamp_text(secs: int, nanos: int) -> Option<Seq<char>>;

/// The text of a date and time without a zone.
///
/// Trusted: `chrono::DateTime::from_timestamp`, then `naive_utc()` and
/// `to_string()`. The constructor splits the seconds into whole days and a
/// rest, counts the days from day 719163 (the first of January 1970), and
/// accepts what its constructors of the date and of the time of day accept.
/// The text depends on the two numbers alone, so the contract gives it a
/// name.
#[verifier::external_body]
pub(crate) fn timestamp_string(secs: i64, nanos: u32) -> (text: Option<String>)
    ensures
        text_view(text) == timestamp_text(secs as int, nanos as int),
        text is Some <==> timestamp_in_range(secs as int, nanos as int),
{
    match chrono::DateTime::from_timestamp(secs, nanos) {
        Some(moment) => Some(moment.naive_utc().to_string()),
        None => None,
    }
}

/// The text of the calendar date that lies `days` days after the last day
/// of the year 1 BCE, or `None` where the calendar does not reach that far.
pub uninterp spec fn date_text(days: int) -> Option<Seq<char>>;

/// The text of a calendar date.
///
/// Trusted: `chrono::NaiveDate::from_num_days_from_ce_opt`, then
/// `to_string()`. The constructor takes the day's number in the proleptic
/// Gregorian calendar and refuses a day whose year lies below the crate's
/// least year, -262143, or above its greatest, 262142, and nothing else.
/// The text depends on the number alone, so the contract gives it a name.
#[verifier::external_body]
pub(crate) fn date_string(days: i32) -> (text: Option<String>)
    ensures
        text_view(text) == date_text(days as int),
        text is Some <==> date_in_range(days as int),
{
    match chrono::NaiveDate::from_num_days_from_ce_opt(days) {
        Some(date) => Some(date.to_string()),
        None => None,
    }
}

/// The text of the time of day that lies `secs` seconds and `nanos`
/// nanoseconds after midnight, or `None` where there is no such time.
pub uninterp spec fn time_text(secs: int, nanos: int) -> Option<Seq<char>>;

/// The text of a time of day.
///
/// Trusted: `chrono::NaiveTime::from_num_seconds_from_midnight_opt`, then
/// `to_string()`. The constructor refuses 86400 seconds and more, two
/// billion nanoseconds and more, and a billion nanoseconds and more in a
/// second that is not the last of its minute, and nothing else. The text
/// depends on the two numbers alone, so the contract gives it a name.
#[verifier::external_body]
pub(crate) fn time_string(secs: u32, nanos: u32) -> (text: Option<String>)
    ensures
        text_view(text) == time_text(secs as int, nanos as int),
        text is Some <==> time_in_range(secs as int, nanos as int),
{
    match chrono::NaiveTime::from_num_seconds_from_midnight_opt(secs, nanos) {
        Some(time) => Some(time.to_string()),
        None => None,
    }
}

} // verus!
