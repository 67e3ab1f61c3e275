//! Rendering of query results: each cell by the declared type of its column,
//! the cells as a table, the table as a block of text that names its node.
use vstd::prelude::*;
use vstd::string::StringExecFns;
use crate::decimal::decimal;
use crate::decimal::decimal_string;
use crate::formats::date_string;
use crate::formats::date_text;
use crate::formats::numeric_string;
use crate::formats::numeric_text;
use crate::formats::time_string;
use crate::formats::time_text;
use crate::formats::timestamp_string;
use crate::formats::timestamp_text;
use crate::formats::uuid_string;
use crate::formats::uuid_text;
use crate::formats::date_in_range;
use crate::formats::draw_table;
use crate::formats::lemma_decimal_plain;
use crate::formats::measurable_text;
use crate::formats::measurable;
use crate::formats::numeric_in_range;
use crate::formats::table_text;
use crate::formats::time_in_range;
use crate::formats::timestamp_in_range;
use crate::formats::Drawing;
use crate::decimal::append_decimal;
use crate::text::grid;
use crate::text::text_view;
use crate::text::texts;
use crate::text::same_text;

verus! {

/// The families of column types that the renderer tells apart.
#[derive(Clone, Copy, Debug, PartialEq, Eq, Structural)]
pub enum ColumnFamily {
    SmallInt,
    Integer,
    BigInt,
    Numeric,
    Real,
    Double,
    Money,
    Character,
    Bytea,
    Timestamp,
    TimestampTz,
    Time,
    TimeTz,
    Date,
    Interval,
    Boolean,
    Uuid,
    Oid,
    Inet,
    Unknown,
}

/// The family of a column type, by the type's name.
pub open spec fn family_of(t: Seq<char>) -> ColumnFamily {
    if t == "int2"@ || t == "smallint"@ || t == "smallserial"@ {
        ColumnFamily::SmallInt
    } else if t == "int4"@ || t == "int"@ || t == "serial"@ || t == "xid"@ {
        ColumnFamily::Integer
    } else if t == "int8"@ || t == "bigint"@ || t == "bigserial"@ {
        ColumnFamily::BigInt
    } else if t == "decimal"@ || t == "numeric"@ {
        ColumnFamily::Numeric
    } else if t == "real"@ || t == "float4"@ {
        ColumnFamily::Real
    } else if t == "double precision"@ || t == "float8"@ {
        ColumnFamily::Double
    } else if t == "money"@ {
        ColumnFamily::Money
    } else if t == "varchar"@ || t == "text"@ || t == "bpchar"@ || t == "character"@ || t
        == "char"@ {
        ColumnFamily::Character
    } else if t == "bytea"@ {
        ColumnFamily::Bytea
    } else if t == "timestamp"@ {
        ColumnFamily::Timestamp
    } else if t == "timestamptz"@ {
        ColumnFamily::TimestampTz
    } else if t == "time"@ {
        ColumnFamily::Time
    } else if t == "timetz"@ {
        ColumnFamily::TimeTz
    } else if t == "date"@ {
        ColumnFamily::Date
    } else if t == "interval"@ {
        ColumnFamily::Interval
    } else if t == "boolean"@ || t == "bool"@ {
        ColumnFamily::Boolean
    } else if t == "uuid"@ {
        ColumnFamily::Uuid
    } else if t == "oid"@ {
        ColumnFamily::Oid
    } else if t == "inet"@ {
        ColumnFamily::Inet
    } else {
        ColumnFamily::Unknown
    }
}

/// The family of a column type, by the type's name.
pub fn column_family(column_type: &str) -> (family: ColumnFamily)
    ensures
        family == family_of(column_type@),
{
    let t = column_type;
    if same_text(t, "int2") || same_text(t, "smallint") || same_text(t, "smallserial") {
        ColumnFamily::SmallInt
    } else if same_text(t, "int4") || same_text(t, "int") || same_text(t, "serial") || same_text(
        t,
        "xid",
    ) {
        ColumnFamily::Integer
    } else if same_text(t, "int8") || same_text(t, "bigint") || same_text(t, "bigserial") {
        ColumnFamily::BigInt
    } else if same_text(t, "decimal") || same_text(t, "numeric") {
        ColumnFamily::Numeric
    } else if same_text(t, "real") || same_text(t, "float4") {
        ColumnFamily::Real
    } else if same_text(t, "double precision") || same_text(t, "float8") {
        ColumnFamily::Double
    } else if same_text(t, "money") {
        ColumnFamily::Money
    } else if same_text(t, "varchar") || same_text(t, "text") || same_text(t, "bpchar")
        || same_text(t, "character") || same_text(t, "char") {
        ColumnFamily::Character
    } else if same_text(t, "bytea") {
        ColumnFamily::Bytea
    } else if same_text(t, "timestamp") {
        ColumnFamily::Timestamp
    } else if same_text(t, "timestamptz") {
        ColumnFamily::TimestampTz
    } else if same_text(t, "time") {
        ColumnFamily::Time
    } else if same_text(t, "timetz") {
        ColumnFamily::TimeTz
    } else if same_text(t, "date") {
        ColumnFamily::Date
    } else if same_text(t, "interval") {
        ColumnFamily::Interval
    } else if same_text(t, "boolean") || same_text(t, "bool") {
        ColumnFamily::Boolean
    } else if same_text(t, "uuid") {
        ColumnFamily::Uuid
    } else if same_text(t, "oid") {
        ColumnFamily::Oid
    } else if same_text(t, "inet") {
        ColumnFamily::Inet
    } else {
        ColumnFamily::Unknown
    }
}

/// A value of one cell, decoded from the row as its column's family asks.
///
/// `Text` carries character data, and also every value whose text only its
/// source can write: floating-point numbers, network addresses, and moments
/// shown in the machine's own time zone.
#[derive(Debug, PartialEq, Eq)]
pub enum CellValue {
    SmallInt(i16),
    Integer(i32),
    BigInt(i64),
    /// The exact decimal `mantissa / 10^scale`.
    Numeric { mantissa: i128, scale: u32 },
    Text(String),
    Boolean(bool),
    /// The 128 bits of the identifier, most significant first.
    Uuid(u128),
    /// Seconds and nanoseconds since the start of 1970, without a zone.
    Timestamp { secs: i64, nanos: u32 },
    /// Days since the last day of the year 1 BCE.
    Date { days: i32 },
    /// Seconds and nanoseconds since midnight.
    Time { secs_of_day: u32, nanos: u32 },
    Oid(u32),
    /// Nothing was decoded, as for a column whose family has a fixed text.
    Absent,
}

impl Clone for CellValue {
    fn clone(&self) -> (copy: Self)
        ensures
            copy == *self,
    {
        match self {
            CellValue::SmallInt(n) => CellValue::SmallInt(*n),
            CellValue::Integer(n) => CellValue::Integer(*n),
            CellValue::BigInt(n) => CellValue::BigInt(*n),
            CellValue::Numeric { mantissa, scale } => CellValue::Numeric {
                mantissa: *mantissa,
                scale: *scale,
            },
            CellValue::Text(t) => CellValue::Text(t.clone()),
            CellValue::Boolean(b) => CellValue::Boolean(*b),
            CellValue::Uuid(v) => CellValue::Uuid(*v),
            CellValue::Timestamp { secs, nanos } => CellValue::Timestamp {
                secs: *secs,
                nanos: *nanos,
            },
            CellValue::Date { days } => CellValue::Date { days: *days },
            CellValue::Time { secs_of_day, nanos } => CellValue::Time {
                secs_of_day: *secs_of_day,
                nanos: *nanos,
            },
            CellValue::Oid(n) => CellValue::Oid(*n),
            CellValue::Absent => CellValue::Absent,
        }
    }
}

/// Why a cell could not be rendered.
#[derive(Clone, Copy, Debug, PartialEq, Eq, Structural)]
pub enum CellError {
    /// The value is not of the kind that the column's family holds.
    Mismatch,
    /// The value lies outside what its kind can express.
    OutOfRange,
}

/// The text that stands for every cell of a family whose values are not
/// decoded, or `None` where the family's values are.
pub open spec fn fixed_text(family: ColumnFamily) -> Option<Seq<char>> {
    match family {
        ColumnFamily::Money => Some("?money?"@),
        ColumnFamily::Bytea => Some("?bytea?"@),
        ColumnFamily::Interval => Some("?interval?"@),
        ColumnFamily::Unknown => Some("?"@),
        _ => None,
    }
}

/// Whether a value is of the kind that a family of decoded values holds.
pub open spec fn fits(family: ColumnFamily, value: CellValue) -> bool {
    match family {
        ColumnFamily::SmallInt => value is SmallInt,
        ColumnFamily::Integer => value is Integer,
        ColumnFamily::BigInt => value is BigInt,
        ColumnFamily::Numeric => value is Numeric,
        ColumnFamily::Real | ColumnFamily::Double | ColumnFamily::Character
        | ColumnFamily::TimestampTz | ColumnFamily::TimeTz | ColumnFamily::Inet => value is Text,
        ColumnFamily::Timestamp => value is Timestamp,
        ColumnFamily::Time => value is Time,
        ColumnFamily::Date => value is Date,
        ColumnFamily::Boolean => value is Boolean,
        ColumnFamily::Uuid => value is Uuid,
        ColumnFamily::Oid => value is Oid,
        _ => false,
    }
}

/// The text of a value by its kind, or `None` where the value lies outside
/// what its kind can express.
pub open spec fn value_text(value: CellValue) -> Option<Seq<char>> {
    match value {
        CellValue::SmallInt(n) => Some(decimal(n as int)),
        CellValue::Integer(n) => Some(decimal(n as int)),
        CellValue::BigInt(n) => Some(decimal(n as int)),
        CellValue::Numeric { mantissa, scale } => numeric_text(mantissa as int, scale as int),
        CellValue::Text(t) => Some(t@),
        CellValue::Boolean(b) => Some(
            if b {
                "true"@
            } else {
                "false"@
            },
        ),
        CellValue::Uuid(v) => Some(uuid_text(v)),
        CellValue::Timestamp { secs, nanos } => timestamp_text(secs as int, nanos as int),
        CellValue::Date { days } => date_text(days as int),
        CellValue::Time { secs_of_day, nanos } => time_text(secs_of_day as int, nanos as int),
        CellValue::Oid(n) => Some(decimal(n as int)),
        CellValue::Absent => None,
    }
}

/// Whether a value lies within what its kind can express: an exact decimal
/// has a scale of at most 28 and digits within ninety-six bits, a date and a
/// time are ones that the calendar and the clock have, and nothing stands
/// for a value that was not decoded.
pub open spec fn in_range(value: CellValue) -> bool {
    match value {
        CellValue::Numeric { mantissa, scale } => numeric_in_range(mantissa as int, scale as int),
        CellValue::Timestamp { secs, nanos } => timestamp_in_range(secs as int, nanos as int),
        CellValue::Date { days } => date_in_range(days as int),
        CellValue::Time { secs_of_day, nanos } => time_in_range(secs_of_day as int, nanos as int),
        CellValue::Absent => false,
        _ => true,
    }
}

/// What rendering one cell comes to: its text, or the reason why it has none.
pub open spec fn cell_outcome(column_type: Seq<char>, value: CellValue) -> Result<
    Seq<char>,
    CellError,
> {
    let family = family_of(column_type);
    match fixed_text(family) {
        Some(t) => Ok(t),
        None => if !fits(family, value) {
            Err(CellError::Mismatch)
        } else {
            match value_text(value) {
                None => Err(CellError::OutOfRange),
                Some(t) => Ok(t),
            }
        },
    }
}

/// The characters of a rendered text, or the error as it is.
pub open spec fn rendered<E>(r: Result<String, E>) -> Result<Seq<char>, E> {
    match r {
        Ok(s) => Ok(s@),
        Err(e) => Err(e),
    }
}

fn fixed_string(family: ColumnFamily) -> (r: Option<String>)
    ensures
        text_view(r) == fixed_text(family),
{
    match family {
        ColumnFamily::Money => Some(String::from_str("?money?")),
        ColumnFamily::Bytea => Some(String::from_str("?bytea?")),
        ColumnFamily::Interval => Some(String::from_str("?interval?")),
        ColumnFamily::Unknown => Some(String::from_str("?")),
        _ => None,
    }
}

fn value_string(value: &CellValue) -> (r: Option<String>)
    ensures
        text_view(r) == value_text(*value),
        r is Some <==> in_range(*value),
{
    match value {
        CellValue::SmallInt(n) => Some(decimal_string(*n as i128)),
        CellValue::Integer(n) => Some(decimal_string(*n as i128)),
        CellValue::BigInt(n) => Some(decimal_string(*n as i128)),
        CellValue::Numeric { mantissa, scale } => numeric_string(*mantissa, *scale),
        CellValue::Text(t) => Some(t.clone()),
        CellValue::Boolean(b) => Some(
            if *b {
                String::from_str("true")
            } else {
                String::from_str("false")
            },
        ),
        CellValue::Uuid(v) => Some(uuid_string(*v)),
        CellValue::Timestamp { secs, nanos } => timestamp_string(*secs, *nanos),
        CellValue::Date { days } => date_string(*days),
        CellValue::Time { secs_of_day, nanos } => time_string(*secs_of_day, *nanos),
        CellValue::Oid(n) => Some(decimal_string(*n as i128)),
        CellValue::Absent => None,
    }
}

fn value_fits(family: ColumnFamily, value: &CellValue) -> (b: bool)
    ensures
        b == fits(family, *value),
{
    match family {
        ColumnFamily::SmallInt => matches!(value, CellValue::SmallInt(_)),
        ColumnFamily::Integer => matches!(value, CellValue::Integer(_)),
        ColumnFamily::BigInt => matches!(value, CellValue::BigInt(_)),
        ColumnFamily::Numeric => matches!(value, CellValue::Numeric { .. }),
        ColumnFamily::Real | ColumnFamily::Double | ColumnFamily::Character
        | ColumnFamily::TimestampTz | ColumnFamily::TimeTz | ColumnFamily::Inet => matches!(
            value,
            CellValue::Text(_)
        ),
        ColumnFamily::Timestamp => matches!(value, CellValue::Timestamp { .. }),
        ColumnFamily::Time => matches!(value, CellValue::Time { .. }),
        ColumnFamily::Date => matches!(value, CellValue::Date { .. }),
        ColumnFamily::Boolean => matches!(value, CellValue::Boolean(_)),
        ColumnFamily::Uuid => matches!(value, CellValue::Uuid(_)),
        ColumnFamily::Oid => matches!(value, CellValue::Oid(_)),
        _ => false,
    }
}

/// Renders one cell by the declared type of its column. A cell of a family
/// with a fixed text always has that text. Any other cell has the text of
/// its value, unless the value is of another kind than the family holds, or
/// lies outside what its kind can express.
pub fn render_cell(column_type: &str, value: &CellValue) -> (r: Result<String, CellError>)
    ensures
        rendered(r) == cell_outcome(column_type@, *value),
        r is Err <==> fixed_text(family_of(column_type@)) is None && (!fits(
            family_of(column_type@),
            *value,
        ) || !in_range(*value)),
        r == Err::<String, CellError>(CellError::OutOfRange) <==> fixed_text(
            family_of(column_type@),
        ) is None && fits(family_of(column_type@), *value) && !in_range(*value),
{
    let family = column_family(column_type);
    match fixed_string(family) {
        Some(t) => Ok(t),
        None => {
            if !value_fits(family, value) {
                return Err(CellError::Mismatch);
            }
            match value_string(value) {
                None => Err(CellError::OutOfRange),
                Some(t) => Ok(t),
            }
        },
    }
}

/// A column of a query result: its name and the name of its declared type.
#[derive(Debug, PartialEq, Eq)]
pub struct Column {
    pub name: String,
    pub column_type: String,
}

impl Clone for Column {
    fn clone(&self) -> (copy: Self)
        ensures
            copy == *self,
    {
        Column { name: self.name.clone(), column_type: self.column_type.clone() }
    }
}

/// Why a query result has no cells.
#[derive(Clone, Copy, Debug, PartialEq, Eq, Structural)]
pub enum RenderError {
    /// This row does not have one cell for each column.
    Shape { row: usize },
    /// This cell has no text, for the reason given.
    Cell { row: usize, column: usize, reason: CellError },
}

/// The header of a column: its name, and behind a colon the name of its
/// type where data types are shown.
pub open spec fn header_text(column: Column, show_data_types: bool) -> Seq<char> {
    if show_data_types {
        column.name@ + ":"@ + column.column_type@
    } else {
        column.name@
    }
}

/// The header row: a blank cell first, then one header for each column.
pub open spec fn header_row(columns: Seq<Column>, show_data_types: bool) -> Seq<Seq<char>> {
    seq![Seq::<char>::empty()] + Seq::new(
        columns.len(),
        |i: int| header_text(columns[i], show_data_types),
    )
}

/// Row number `row` up to, not including, column `upto`: the row's number
/// first, counted from zero, then one cell for each column.
pub open spec fn cells_outcome(
    columns: Seq<Column>,
    cells: Seq<CellValue>,
    row: int,
    upto: int,
) -> Result<Seq<Seq<char>>, RenderError>
    decreases upto,
{
    if upto <= 0 {
        Ok(seq![decimal(row)])
    } else {
        match cells_outcome(columns, cells, row, upto - 1) {
            Err(e) => Err(e),
            Ok(done) => match cell_outcome(columns[upto - 1].column_type@, cells[upto - 1]) {
                Err(reason) => Err(
                    RenderError::Cell { row: row as usize, column: (upto - 1) as usize, reason },
                ),
                Ok(t) => Ok(done.push(t)),
            },
        }
    }
}

/// Row number `row` in full, where it has one cell for each column.
pub open spec fn row_outcome(columns: Seq<Column>, cells: Seq<CellValue>, row: int) -> Result<
    Seq<Seq<char>>,
    RenderError,
> {
    if cells.len() != columns.len() {
        Err(RenderError::Shape { row: row as usize })
    } else {
        cells_outcome(columns, cells, row, columns.len() as int)
    }
}

/// The cells of the table up to, not including, row `upto`: the header row
/// first, then one row for each row of the result. The first thing that
/// cannot be rendered, in reading order, decides the error.
pub open spec fn grid_outcome(
    columns: Seq<Column>,
    rows: Seq<Vec<CellValue>>,
    show_data_types: bool,
    upto: int,
) -> Result<Seq<Seq<Seq<char>>>, RenderError>
    decreases upto,
{
    if upto <= 0 {
        Ok(seq![header_row(columns, show_data_types)])
    } else {
        match grid_outcome(columns, rows, show_data_types, upto - 1) {
            Err(e) => Err(e),
            Ok(done) => match row_outcome(columns, rows[upto - 1]@, upto - 1) {
                Err(e) => Err(e),
                Ok(cells) => Ok(done.push(cells)),
            },
        }
    }
}

/// Once a cell cannot be rendered, its row cannot.
pub proof fn lemma_cell_error_stays(
    columns: Seq<Column>,
    cells: Seq<CellValue>,
    row: int,
    k: int,
    n: int,
)
    requires
        0 <= k <= n,
        cells_outcome(columns, cells, row, k) is Err,
    ensures
        cells_outcome(columns, cells, row, n) == cells_outcome(columns, cells, row, k),
    decreases n - k,
{
    if k < n {
        lemma_cell_error_stays(columns, cells, row, k, n - 1);
    }
}

/// Once a row cannot be rendered, the table cannot.
pub proof fn lemma_grid_error_stays(
    columns: Seq<Column>,
    rows: Seq<Vec<CellValue>>,
    show_data_types: bool,
    k: int,
    n: int,
)
    requires
        0 <= k <= n,
        grid_outcome(columns, rows, show_data_types, k) is Err,
    ensures
        grid_outcome(columns, rows, show_data_types, n) == grid_outcome(
            columns,
            rows,
            show_data_types,
            k,
        ),
    decreases n - k,
{
    if k < n {
        lemma_grid_error_stays(columns, rows, show_data_types, k, n - 1);
    }
}

/// A row that has its cells has one for its number and one for each
/// column.
pub proof fn lemma_row_shape(columns: Seq<Column>, cells: Seq<CellValue>, row: int, upto: int)
    requires
        0 <= upto,
        cells_outcome(columns, cells, row, upto) is Ok,
    ensures
        cells_outcome(columns, cells, row, upto)->Ok_0.len() == upto + 1,
        cells_outcome(columns, cells, row, upto)->Ok_0[0] == decimal(row),
    decreases upto,
{
    if upto > 0 {
        lemma_row_shape(columns, cells, row, upto - 1);
    }
}

/// The table of a result has one row more than the result: the header row
/// first, a blank cell and then the header of each column; and then for
/// each row of the result its number, counted from zero, and one cell for
/// each column.
pub proof fn law_table_shape(
    columns: Seq<Column>,
    rows: Seq<Vec<CellValue>>,
    show_data_types: bool,
    upto: int,
)
    requires
        0 <= upto,
        grid_outcome(columns, rows, show_data_types, upto) is Ok,
    ensures
        ({
            let cells = grid_outcome(columns, rows, show_data_types, upto)->Ok_0;
            &&& cells.len() == upto + 1
            &&& cells[0] == header_row(columns, show_data_types)
            &&& cells[0].len() == columns.len() + 1
            &&& forall|r: int|
                1 <= r <= upto ==> (#[trigger] cells[r]).len() == columns.len() + 1 && cells[r][0]
                    == decimal(r - 1)
        }),
    decreases upto,
{
    if upto > 0 {
        law_table_shape(columns, rows, show_data_types, upto - 1);
        lemma_row_shape(columns, rows[upto - 1]@, upto - 1, columns.len() as int);
    }
}

/// A row that has its cells holds, behind its number, the text of each of
/// its cells.
pub proof fn lemma_row_cells(columns: Seq<Column>, cells: Seq<CellValue>, row: int, upto: int)
    requires
        0 <= upto,
        cells_outcome(columns, cells, row, upto) is Ok,
    ensures
        forall|c: int|
            0 <= c < upto ==> cell_outcome(#[trigger] columns[c].column_type@, cells[c]) == Ok::<
                Seq<char>,
                CellError,
            >(cells_outcome(columns, cells, row, upto)->Ok_0[c + 1]),
    decreases upto,
{
    if upto > 0 {
        lemma_row_cells(columns, cells, row, upto - 1);
        lemma_row_shape(columns, cells, row, upto - 1);
    }
}

/// Each row of a table behind the header row is the row of the result with
/// that number.
pub proof fn lemma_grid_rows(
    columns: Seq<Column>,
    rows: Seq<Vec<CellValue>>,
    show_data_types: bool,
    upto: int,
)
    requires
        0 <= upto,
        grid_outcome(columns, rows, show_data_types, upto) is Ok,
    ensures
        forall|r: int|
            1 <= r <= upto ==> row_outcome(columns, rows[r - 1]@, r - 1) == Ok::<
                Seq<Seq<char>>,
                RenderError,
            >(#[trigger] grid_outcome(columns, rows, show_data_types, upto)->Ok_0[r]),
    decreases upto,
{
    if upto > 0 {
        lemma_grid_rows(columns, rows, show_data_types, upto - 1);
        law_table_shape(columns, rows, show_data_types, upto - 1);
    }
}

/// A result of one or more rows is drawn as a table in a block wherever
/// every cell has a text and the table drawer can measure every header and
/// every such text. Text that holds the escape character but no start of a
/// control sequence is among what it can measure.
pub proof fn law_measurable_result_is_drawn(
    host: Seq<char>,
    db_name: Seq<char>,
    columns: Seq<Column>,
    rows: Seq<Vec<CellValue>>,
    show_data_types: bool,
)
    requires
        rows.len() >= 1,
        grid_outcome(columns, rows, show_data_types, rows.len() as int) is Ok,
        forall|c: int|
            0 <= c < columns.len() ==> measurable_text(
                #[trigger] header_text(columns[c], show_data_types),
            ),
        forall|r: int, c: int|
            0 <= r < rows.len() && 0 <= c < columns.len() ==> measurable_text(
                (#[trigger] cell_outcome(columns[c].column_type@, rows[r]@[c]))->Ok_0,
            ),
    ensures
        query_outcome(host, db_name, columns, rows, show_data_types) == Ok::<
            QueryOutputView,
            RenderError,
        >(
            QueryOutputView::Block(
                block_text(
                    host,
                    db_name,
                    table_text(
                        grid_outcome(columns, rows, show_data_types, rows.len() as int)->Ok_0,
                    ),
                ),
            ),
        ),
{
    let n = rows.len() as int;
    let cells = grid_outcome(columns, rows, show_data_types, n)->Ok_0;
    law_table_shape(columns, rows, show_data_types, n);
    lemma_grid_rows(columns, rows, show_data_types, n);
    assert forall|i: int, j: int| 0 <= i < cells.len() && 0 <= j < cells[i].len() implies measurable_text(
        #[trigger] cells[i][j],
    ) by {
        if i == 0 {
            if j > 0 {
                assert(cells[0][j] == header_text(columns[j - 1], show_data_types));
            }
        } else {
            let line = cells[i];
            assert(row_outcome(columns, rows[i - 1]@, i - 1) == Ok::<Seq<Seq<char>>, RenderError>(
                line,
            ));
            if j == 0 {
                lemma_decimal_plain(i - 1);
            } else {
                lemma_row_cells(columns, rows[i - 1]@, i - 1, columns.len() as int);
                assert(cell_outcome(columns[j - 1].column_type@, rows[i - 1]@[j - 1]) == Ok::<
                    Seq<char>,
                    CellError,
                >(line[(j - 1) + 1]));
            }
        }
    }
}

/// The line that names the node and the database in front of a block.
pub open spec fn block_label(host: Seq<char>, db_name: Seq<char>) -> Seq<char> {
    "\n["@ + host + ":"@ + db_name + "] \n"@
}

/// A block of output: the label, the body, and a line break.
pub open spec fn block_text(host: Seq<char>, db_name: Seq<char>, body: Seq<char>) -> Seq<char> {
    block_label(host, db_name) + body + "\n"@
}

/// What one node has to show for a query.
#[derive(Debug, PartialEq, Eq)]
pub enum QueryOutput {
    /// The result has no row, and there is nothing to show.
    Nothing,
    /// The result as a drawn table, in a block that names the node.
    Block(String),
    /// The cells of the table, header row first, left for the caller to
    /// draw: the table drawer cannot measure one of them.
    Cells(Vec<Vec<String>>),
}

/// The value of a [`QueryOutput`].
pub ghost enum QueryOutputView {
    Nothing,
    Block(Seq<char>),
    Cells(Seq<Seq<Seq<char>>>),
}

impl View for QueryOutput {
    type V = QueryOutputView;

    open spec fn view(&self) -> QueryOutputView {
        match self {
            QueryOutput::Nothing => QueryOutputView::Nothing,
            QueryOutput::Block(block) => QueryOutputView::Block(block@),
            QueryOutput::Cells(rows) => QueryOutputView::Cells(grid(rows@)),
        }
    }
}

/// What a node's answer to a query comes to: nothing where the result has
/// no row; else the reason why a cell has no text; else the table, drawn in
/// a block where every cell can be measured, and as its cells where not.
pub open spec fn query_outcome(
    host: Seq<char>,
    db_name: Seq<char>,
    columns: Seq<Column>,
    rows: Seq<Vec<CellValue>>,
    show_data_types: bool,
) -> Result<QueryOutputView, RenderError> {
    if rows.len() == 0 {
        Ok(QueryOutputView::Nothing)
    } else {
        match grid_outcome(columns, rows, show_data_types, rows.len() as int) {
            Err(e) => Err(e),
            Ok(cells) => if measurable(cells) {
                Ok(QueryOutputView::Block(block_text(host, db_name, table_text(cells))))
            } else {
                Ok(QueryOutputView::Cells(cells))
            },
        }
    }
}

/// The block that a node's acknowledgement of a command comes to.
pub open spec fn command_text(host: Seq<char>, db_name: Seq<char>, affected: int) -> Seq<char> {
    "\n["@ + host + ":"@ + db_name + "]: rows "@ + decimal(affected) + "\n"@
}

/// Frames a body of text as the output of one node: the line that names
/// the node and its database, the body, a line break. The body is a drawn
/// table, or the text of an error.
pub fn frame_block(host: &str, db_name: &str, body: &str) -> (block: String)
    ensures
        block@ == block_text(host@, db_name@, body@),
{
    let mut block = String::from_str("\n[");
    block.append(host);
    block.append(":");
    block.append(db_name);
    block.append("] \n");
    block.append(body);
    block.append("\n");
    block
}

/// The output of one node for a command: the node, its database and the
/// number of rows that the database reports as affected.
pub fn command_result_block(host: &str, db_name: &str, affected: u64) -> (block: String)
    ensures
        block@ == command_text(host@, db_name@, affected as int),
{
    let mut block = String::from_str("\n[");
    block.append(host);
    block.append(":");
    block.append(db_name);
    block.append("]: rows ");
    append_decimal(&mut block, affected as i128);
    block.append("\n");
    block
}

/// The header row of a table.
pub fn render_header(columns: &Vec<Column>, show_data_types: bool) -> (cells: Vec<String>)
    ensures
        texts(cells@) == header_row(columns@, show_data_types),
{
    let mut cells: Vec<String> = Vec::new();
    cells.push(String::new());
    let mut k: usize = 0;
    while k < columns.len()
        invariant
            k <= columns.len(),
            cells.len() == k + 1,
            cells@[0]@ == Seq::<char>::empty(),
            forall|j: int|
                0 <= j < k ==> (#[trigger] cells@[j + 1])@ == header_text(
                    columns@[j],
                    show_data_types,
                ),
        decreases columns.len() - k,
    {
        let column = &columns[k];
        let mut t = column.name.clone();
        if show_data_types {
            t.append(":");
            t.append(column.column_type.as_str());
        }
        cells.push(t);
        k += 1;
    }
    proof {
        let expected = header_row(columns@, show_data_types);
        assert forall|j: int| 0 <= j < expected.len() implies texts(cells@)[j] == expected[j] by {
            if j > 0 {
                assert(cells@[(j - 1) + 1]@ == header_text(columns@[j - 1], show_data_types));
            }
        }
        assert(texts(cells@) =~= expected);
    }
    cells
}

/// One row of a table: the row's number, then its cells.
pub fn render_row(columns: &Vec<Column>, cells: &Vec<CellValue>, row: usize) -> (r: Result<
    Vec<String>,
    RenderError,
>)
    ensures
        match r {
            Ok(line) => row_outcome(columns@, cells@, row as int) == Ok::<
                Seq<Seq<char>>,
                RenderError,
            >(texts(line@)),
            Err(e) => row_outcome(columns@, cells@, row as int) == Err::<
                Seq<Seq<char>>,
                RenderError,
            >(e),
        },
{
    if cells.len() != columns.len() {
        return Err(RenderError::Shape { row });
    }
    let mut line: Vec<String> = Vec::new();
    line.push(decimal_string(row as i128));
    assert(texts(line@) =~= seq![decimal(row as int)]);
    let mut k: usize = 0;
    while k < columns.len()
        invariant
            k <= columns.len(),
            cells.len() == columns.len(),
            cells_outcome(columns@, cells@, row as int, k as int) == Ok::<
                Seq<Seq<char>>,
                RenderError,
            >(texts(line@)),
        decreases columns.len() - k,
    {
        match render_cell(columns[k].column_type.as_str(), &cells[k]) {
            Err(reason) => {
                proof {
                    lemma_cell_error_stays(
                        columns@,
                        cells@,
                        row as int,
                        k + 1,
                        columns.len() as int,
                    );
                }
                return Err(RenderError::Cell { row, column: k, reason });
            },
            Ok(t) => {
                let ghost before = texts(line@);
                line.push(t);
                assert(texts(line@) =~= before.push(t@));
            },
        }
        k += 1;
    }
    Ok(line)
}

/// The cells of the table for a query result: the header row, then one row
/// for each row of the result.
pub fn render_grid(columns: &Vec<Column>, rows: &Vec<Vec<CellValue>>, show_data_types: bool) -> (r:
    Result<Vec<Vec<String>>, RenderError>)
    ensures
        match r {
            Ok(lines) => grid_outcome(columns@, rows@, show_data_types, rows.len() as int) == Ok::<
                Seq<Seq<Seq<char>>>,
                RenderError,
            >(grid(lines@)) && lines.len() == rows.len() + 1 && texts(lines@[0]@) == header_row(
                columns@,
                show_data_types,
            ),
            Err(e) => grid_outcome(columns@, rows@, show_data_types, rows.len() as int) == Err::<
                Seq<Seq<Seq<char>>>,
                RenderError,
            >(e),
        },
{
    let mut lines: Vec<Vec<String>> = Vec::new();
    let header = render_header(columns, show_data_types);
    lines.push(header);
    assert(grid(lines@) =~= seq![header_row(columns@, show_data_types)]);
    let mut i: usize = 0;
    while i < rows.len()
        invariant
            i <= rows.len(),
            lines.len() == i + 1,
            texts(lines@[0]@) == header_row(columns@, show_data_types),
            grid_outcome(columns@, rows@, show_data_types, i as int) == Ok::<
                Seq<Seq<Seq<char>>>,
                RenderError,
            >(grid(lines@)),
        decreases rows.len() - i,
    {
        match render_row(columns, &rows[i], i) {
            Err(e) => {
                proof {
                    lemma_grid_error_stays(
                        columns@,
                        rows@,
                        show_data_types,
                        i + 1,
                        rows.len() as int,
                    );
                }
                return Err(e);
            },
            Ok(line) => {
                let ghost before = grid(lines@);
                lines.push(line);
                assert(grid(lines@) =~= before.push(texts(line@)));
            },
        }
        i += 1;
    }
    Ok(lines)
}

/// The value of what a node has to show, or the error as it is.
pub open spec fn shown<E>(r: Result<QueryOutput, E>) -> Result<QueryOutputView, E> {
    match r {
        Ok(output) => Ok(output@),
        Err(e) => Err(e),
    }
}

/// The output of one node for a query: nothing where the result has no
/// row, else the result as a table. The table is drawn and framed in a
/// block; where the table drawer cannot measure a cell, the cells are
/// handed out instead. A value of the wrong kind or out of range is an
/// error, and the first such cell in reading order is reported.
pub fn query_result_block(
    host: &str,
    db_name: &str,
    columns: &Vec<Column>,
    rows: &Vec<Vec<CellValue>>,
    show_data_types: bool,
) -> (r: Result<QueryOutput, RenderError>)
    ensures
        shown(r) == query_outcome(host@, db_name@, columns@, rows@, show_data_types),
{
    if rows.len() == 0 {
        return Ok(QueryOutput::Nothing);
    }
    match render_grid(columns, rows, show_data_types) {
        Err(e) => Err(e),
        Ok(lines) => match draw_table(lines) {
            Drawing::Table(table) => Ok(
                QueryOutput::Block(frame_block(host, db_name, table.as_str())),
            ),
            Drawing::Cells(cells) => Ok(QueryOutput::Cells(cells)),
        },
    }
}

} // verus!
