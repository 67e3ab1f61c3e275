use chrono::Datelike;
use taco::formats::draw_table;
use taco::formats::holds_sequence_start;
use taco::formats::is_measurable;
use taco::formats::is_plain;
use taco::formats::Drawing;
use taco::render::column_family;
use taco::render::command_result_block;
use taco::render::frame_block;
use taco::render::query_result_block;
use taco::render::render_cell;
use taco::render::render_grid;
use taco::render::render_header;
use taco::render::render_row;
use taco::render::CellError;
use taco::render::CellValue;
use taco::render::Column;
use taco::render::ColumnFamily;
use taco::render::QueryOutput;
use taco::render::RenderError;
use taco::request::total_rows;
use taco::request::total_rows_block;

fn column(name: &str, column_type: &str) -> Column {
    Column { name: name.to_string(), column_type: column_type.to_string() }
}

fn text(value: &str) -> CellValue {
    CellValue::Text(value.to_string())
}

fn strings(items: &[&str]) -> Vec<String> {
    items.iter().map(|s| s.to_string()).collect()
}

#[test]
fn families_by_type_name() {
    for name in ["int2", "smallint", "smallserial"] {
        assert_eq!(column_family(name), ColumnFamily::SmallInt);
    }
    for name in ["int4", "int", "serial", "xid"] {
        assert_eq!(column_family(name), ColumnFamily::Integer);
    }
    for name in ["int8", "bigint", "bigserial"] {
        assert_eq!(column_family(name), ColumnFamily::BigInt);
    }
    for name in ["decimal", "numeric"] {
        assert_eq!(column_family(name), ColumnFamily::Numeric);
    }
    for name in ["real", "float4"] {
        assert_eq!(column_family(name), ColumnFamily::Real);
    }
    for name in ["double precision", "float8"] {
        assert_eq!(column_family(name), ColumnFamily::Double);
    }
    for name in ["varchar", "text", "bpchar", "character", "char"] {
        assert_eq!(column_family(name), ColumnFamily::Character);
    }
    for name in ["bool", "boolean"] {
        assert_eq!(column_family(name), ColumnFamily::Boolean);
    }
    assert_eq!(column_family("money"), ColumnFamily::Money);
    assert_eq!(column_family("bytea"), ColumnFamily::Bytea);
    assert_eq!(column_family("timestamp"), ColumnFamily::Timestamp);
    assert_eq!(column_family("timestamptz"), ColumnFamily::TimestampTz);
    assert_eq!(column_family("time"), ColumnFamily::Time);
    assert_eq!(column_family("timetz"), ColumnFamily::TimeTz);
    assert_eq!(column_family("date"), ColumnFamily::Date);
    assert_eq!(column_family("interval"), ColumnFamily::Interval);
    assert_eq!(column_family("uuid"), ColumnFamily::Uuid);
    assert_eq!(column_family("oid"), ColumnFamily::Oid);
    assert_eq!(column_family("inet"), ColumnFamily::Inet);
}

#[test]
fn other_type_names_are_unknown() {
    for name in ["json", "jsonb", "INT4", "int 4", "", "pg_lsn", "name"] {
        assert_eq!(column_family(name), ColumnFamily::Unknown);
    }
}

#[test]
fn whole_numbers_in_decimal() {
    assert_eq!(render_cell("int2", &CellValue::SmallInt(-32768)), Ok("-32768".to_string()));
    assert_eq!(render_cell("smallint", &CellValue::SmallInt(32767)), Ok("32767".to_string()));
    assert_eq!(render_cell("int4", &CellValue::Integer(1)), Ok("1".to_string()));
    assert_eq!(render_cell("int", &CellValue::Integer(0)), Ok("0".to_string()));
    assert_eq!(
        render_cell("serial", &CellValue::Integer(i32::MIN)),
        Ok("-2147483648".to_string())
    );
    assert_eq!(render_cell("xid", &CellValue::Integer(i32::MAX)), Ok("2147483647".to_string()));
    assert_eq!(
        render_cell("int8", &CellValue::BigInt(i64::MIN)),
        Ok("-9223372036854775808".to_string())
    );
    assert_eq!(
        render_cell("bigint", &CellValue::BigInt(i64::MAX)),
        Ok("9223372036854775807".to_string())
    );
    assert_eq!(render_cell("oid", &CellValue::Oid(u32::MAX)), Ok("4294967295".to_string()));
    assert_eq!(render_cell("oid", &CellValue::Oid(10)), Ok("10".to_string()));
}

#[test]
fn booleans_as_words() {
    assert_eq!(render_cell("bool", &CellValue::Boolean(true)), Ok("true".to_string()));
    assert_eq!(render_cell("boolean", &CellValue::Boolean(false)), Ok("false".to_string()));
}

#[test]
fn strings_as_they_are() {
    assert_eq!(render_cell("text", &text("Hello, World")), Ok("Hello, World".to_string()));
    assert_eq!(render_cell("varchar", &text("")), Ok("".to_string()));
    assert_eq!(render_cell("bpchar", &text(" x ")), Ok(" x ".to_string()));
}

#[test]
fn texts_written_by_the_source() {
    assert_eq!(render_cell("float4", &text("1.5")), Ok("1.5".to_string()));
    assert_eq!(render_cell("double precision", &text("-0.25")), Ok("-0.25".to_string()));
    assert_eq!(render_cell("inet", &text("10.0.0.1")), Ok("10.0.0.1".to_string()));
    assert_eq!(
        render_cell("timestamptz", &text("2015-05-15 00:00:00 +02:00")),
        Ok("2015-05-15 00:00:00 +02:00".to_string())
    );
    assert_eq!(render_cell("timetz", &text("x")), Ok("x".to_string()));
}

#[test]
fn exact_decimals() {
    assert_eq!(
        render_cell("numeric", &CellValue::Numeric { mantissa: 3141, scale: 3 }),
        Ok("3.141".to_string())
    );
    assert_eq!(
        render_cell("decimal", &CellValue::Numeric { mantissa: -5, scale: 2 }),
        Ok("-0.05".to_string())
    );
    assert_eq!(
        render_cell("numeric", &CellValue::Numeric { mantissa: 0, scale: 0 }),
        Ok("0".to_string())
    );
    assert_eq!(
        render_cell("numeric", &CellValue::Numeric { mantissa: 1200, scale: 2 }),
        Ok("12.00".to_string())
    );
    assert_eq!(
        render_cell(
            "numeric",
            &CellValue::Numeric { mantissa: 79228162514264337593543950335, scale: 28 }
        ),
        Ok("7.9228162514264337593543950335".to_string())
    );
}

#[test]
fn decimals_out_of_range() {
    assert_eq!(
        render_cell("numeric", &CellValue::Numeric { mantissa: 1, scale: 29 }),
        Err(CellError::OutOfRange)
    );
    assert_eq!(
        render_cell(
            "numeric",
            &CellValue::Numeric { mantissa: 79228162514264337593543950336, scale: 0 }
        ),
        Err(CellError::OutOfRange)
    );
    assert_eq!(
        render_cell(
            "numeric",
            &CellValue::Numeric { mantissa: -79228162514264337593543950336, scale: 0 }
        ),
        Err(CellError::OutOfRange)
    );
}

#[test]
fn identifiers_in_canonical_form() {
    assert_eq!(
        render_cell("uuid", &CellValue::Uuid(0xa1a2a3a4b1b2c1c2d1d2d3d4d5d6d7d8)),
        Ok("a1a2a3a4-b1b2-c1c2-d1d2-d3d4d5d6d7d8".to_string())
    );
    assert_eq!(
        render_cell("uuid", &CellValue::Uuid(0)),
        Ok("00000000-0000-0000-0000-000000000000".to_string())
    );
    assert_eq!(
        render_cell("uuid", &CellValue::Uuid(u128::MAX)),
        Ok("ffffffff-ffff-ffff-ffff-ffffffffffff".to_string())
    );
    assert_eq!(
        render_cell("uuid", &CellValue::Uuid(0x0123456789abcdef0123456789abcdef)),
        Ok("01234567-89ab-cdef-0123-456789abcdef".to_string())
    );
}

#[test]
fn dates_and_times() {
    assert_eq!(
        render_cell("timestamp", &CellValue::Timestamp { secs: 1431648000, nanos: 0 }),
        Ok("2015-05-15 00:00:00".to_string())
    );
    assert_eq!(
        render_cell("timestamp", &CellValue::Timestamp { secs: 0, nanos: 500_000_000 }),
        Ok("1970-01-01 00:00:00.500".to_string())
    );
    assert_eq!(
        render_cell("timestamp", &CellValue::Timestamp { secs: -1, nanos: 0 }),
        Ok("1969-12-31 23:59:59".to_string())
    );
    assert_eq!(
        render_cell("date", &CellValue::Date { days: 719163 }),
        Ok("1970-01-01".to_string())
    );
    assert_eq!(render_cell("date", &CellValue::Date { days: 1 }), Ok("0001-01-01".to_string()));
    assert_eq!(
        render_cell("time", &CellValue::Time { secs_of_day: 3661, nanos: 0 }),
        Ok("01:01:01".to_string())
    );
    assert_eq!(
        render_cell("time", &CellValue::Time { secs_of_day: 86399, nanos: 1000 }),
        Ok("23:59:59.000001".to_string())
    );
}

#[test]
fn dates_and_times_out_of_range() {
    assert_eq!(
        render_cell("timestamp", &CellValue::Timestamp { secs: i64::MAX, nanos: 0 }),
        Err(CellError::OutOfRange)
    );
    assert_eq!(
        render_cell("date", &CellValue::Date { days: i32::MAX }),
        Err(CellError::OutOfRange)
    );
    assert_eq!(
        render_cell("time", &CellValue::Time { secs_of_day: 86400, nanos: 0 }),
        Err(CellError::OutOfRange)
    );
}

#[test]
fn fixed_texts() {
    assert_eq!(render_cell("money", &CellValue::Absent), Ok("?money?".to_string()));
    assert_eq!(render_cell("bytea", &CellValue::Absent), Ok("?bytea?".to_string()));
    assert_eq!(render_cell("interval", &CellValue::Absent), Ok("?interval?".to_string()));
    assert_eq!(render_cell("jsonb", &CellValue::Absent), Ok("?".to_string()));
    // whatever the value is
    assert_eq!(render_cell("money", &CellValue::Integer(5)), Ok("?money?".to_string()));
    assert_eq!(render_cell("pg_lsn", &text("\u{1b}")), Ok("?".to_string()));
}

#[test]
fn value_of_another_kind_is_a_mismatch() {
    assert_eq!(render_cell("int2", &CellValue::Integer(1)), Err(CellError::Mismatch));
    assert_eq!(render_cell("int4", &text("1")), Err(CellError::Mismatch));
    assert_eq!(render_cell("text", &CellValue::Boolean(true)), Err(CellError::Mismatch));
    assert_eq!(render_cell("uuid", &CellValue::Absent), Err(CellError::Mismatch));
    assert_eq!(render_cell("oid", &CellValue::Integer(1)), Err(CellError::Mismatch));
    assert_eq!(
        render_cell("date", &CellValue::Time { secs_of_day: 0, nanos: 0 }),
        Err(CellError::Mismatch)
    );
}

#[test]
fn text_with_escape_character_is_a_raw_string() {
    assert_eq!(render_cell("text", &text("\u{1b}")), Ok("\u{1b}".to_string()));
    assert_eq!(render_cell("text", &text("a\u{1b}[0m")), Ok("a\u{1b}[0m".to_string()));
    assert_eq!(render_cell("varchar", &text("\u{1b}[31mé")), Ok("\u{1b}[31mé".to_string()));
}

#[test]
fn start_of_a_control_sequence() {
    let chars = |t: &str| t.chars().collect::<Vec<char>>();
    assert!(holds_sequence_start(&chars("a\u{1b}[31mb")));
    assert!(holds_sequence_start(&chars("\u{1b}[")));
    assert!(holds_sequence_start(&chars("\u{1b}\u{1b}[")));
    assert!(!holds_sequence_start(&chars("a[31mb")));
    assert!(!holds_sequence_start(&chars("\u{1b}")));
    assert!(!holds_sequence_start(&chars("\u{1b} [")));
    assert!(!holds_sequence_start(&chars("[\u{1b}")));
    assert!(!holds_sequence_start(&chars("")));
}

#[test]
fn plain_characters_lie_below_delete() {
    let chars = |t: &str| t.chars().collect::<Vec<char>>();
    assert!(is_plain(&chars("")));
    assert!(is_plain(&chars("abc \t\n\u{1b}[0m~")));
    assert!(!is_plain(&chars("\u{7f}")));
    assert!(!is_plain(&chars("abcé")));
    assert!(!is_plain(&chars("日本")));
}

#[test]
fn cells_that_the_drawer_can_measure() {
    assert!(is_measurable(""));
    assert!(is_measurable("héllo"));
    assert!(is_measurable("\u{1b}"));
    assert!(is_measurable("é\u{1b}"));
    assert!(is_measurable("é\u{1b}m["));
    assert!(is_measurable("\u{1b}[31mred\u{1b}[0m"));
    assert!(!is_measurable("\u{1b}[31mé"));
    assert!(!is_measurable("é\u{1b}["));
    assert!(!is_measurable("\u{1b}[\u{7f}"));
}

#[test]
fn table_is_drawn_where_every_cell_can_be_measured() {
    let rows = vec![strings(&["a", "b"]), strings(&["1", "22"])];
    let expected = "\
+---+----+\n\
| a | b  |\n\
+---+----+\n\
| 1 | 22 |\n\
+---+----+\n";
    assert_eq!(draw_table(rows), Drawing::Table(expected.to_string()));
    assert_eq!(draw_table(Vec::new()), Drawing::Table("++\n++\n".to_string()));
}

#[test]
fn table_with_a_lone_escape_character_is_drawn() {
    let rows = vec![strings(&["é\u{1b}", "b"])];
    assert!(matches!(draw_table(rows), Drawing::Table(_)));
    let coloured = vec![strings(&["\u{1b}[31mred\u{1b}[0m"])];
    assert!(matches!(draw_table(coloured), Drawing::Table(t) if t.contains("\u{1b}[31mred\u{1b}[0m")));
}

#[test]
fn cells_are_handed_back_where_one_cannot_be_measured() {
    let rows = vec![strings(&["a", "b"]), strings(&["1", "\u{1b}[31mé"])];
    assert_eq!(draw_table(rows.clone()), Drawing::Cells(rows));
}

#[test]
fn header_with_and_without_types() {
    let columns = vec![column("id", "int4"), column("name", "text")];
    assert_eq!(render_header(&columns, true), strings(&["", "id:int4", "name:text"]));
    assert_eq!(render_header(&columns, false), strings(&["", "id", "name"]));
    assert_eq!(render_header(&Vec::new(), true), strings(&[""]));
}

#[test]
fn header_with_escape_character() {
    let columns = vec![column("id", "int4"), column("na\u{1b}me", "text")];
    assert_eq!(render_header(&columns, false), strings(&["", "id", "na\u{1b}me"]));
    let typed = vec![column("\u{1b}", "int\u{1b}[")];
    assert_eq!(render_header(&typed, true), strings(&["", "\u{1b}:int\u{1b}["]));
    assert_eq!(render_header(&typed, false), strings(&["", "\u{1b}"]));
}

#[test]
fn row_starts_with_its_number() {
    let columns = vec![column("id", "int4"), column("name", "text"), column("m", "money")];
    let cells = vec![CellValue::Integer(7), text("x"), CellValue::Absent];
    assert_eq!(render_row(&columns, &cells, 0), Ok(strings(&["0", "7", "x", "?money?"])));
    assert_eq!(render_row(&columns, &cells, 12), Ok(strings(&["12", "7", "x", "?money?"])));
}

#[test]
fn row_errors() {
    let columns = vec![column("id", "int4"), column("name", "text")];
    assert_eq!(
        render_row(&columns, &vec![CellValue::Integer(7)], 3),
        Err(RenderError::Shape { row: 3 })
    );
    assert_eq!(
        render_row(&columns, &vec![CellValue::Integer(7), text("x"), text("y")], 0),
        Err(RenderError::Shape { row: 0 })
    );
    assert_eq!(
        render_row(&columns, &vec![text("7"), CellValue::Absent], 2),
        Err(RenderError::Cell { row: 2, column: 0, reason: CellError::Mismatch })
    );
    assert_eq!(
        render_row(&columns, &vec![CellValue::Integer(7), text("\u{1b}[é")], 2),
        Ok(strings(&["2", "7", "\u{1b}[é"]))
    );
}

#[test]
fn first_error_in_reading_order_is_reported() {
    let columns = vec![column("a", "numeric"), column("b", "int4")];
    let rows = vec![
        vec![CellValue::Numeric { mantissa: 1, scale: 0 }, CellValue::Integer(1)],
        vec![CellValue::Numeric { mantissa: 1, scale: 99 }, text("x")],
        vec![CellValue::Absent],
    ];
    assert_eq!(
        render_grid(&columns, &rows, true),
        Err(RenderError::Cell { row: 1, column: 0, reason: CellError::OutOfRange })
    );
    let shape_first = vec![vec![CellValue::Absent], vec![text("x"), text("y")]];
    assert_eq!(render_grid(&columns, &shape_first, true), Err(RenderError::Shape { row: 0 }));
}

#[test]
fn grid_has_header_and_rows() {
    let columns = vec![column("n", "int8"), column("ok", "bool")];
    let rows = vec![
        vec![CellValue::BigInt(10), CellValue::Boolean(true)],
        vec![CellValue::BigInt(-1), CellValue::Boolean(false)],
    ];
    assert_eq!(
        render_grid(&columns, &rows, true),
        Ok(vec![
            strings(&["", "n:int8", "ok:bool"]),
            strings(&["0", "10", "true"]),
            strings(&["1", "-1", "false"]),
        ])
    );
}

#[test]
fn blocks_name_the_node() {
    assert_eq!(frame_block("h1", "postgres", "boom"), "\n[h1:postgres] \nboom\n");
    assert_eq!(frame_block("", "", ""), "\n[:] \n\n");
    assert_eq!(command_result_block("h1", "postgres", 0), "\n[h1:postgres]: rows 0\n");
    assert_eq!(
        command_result_block("w2", "app", 18446744073709551615),
        "\n[w2:app]: rows 18446744073709551615\n"
    );
}

#[test]
fn query_without_rows_has_no_block() {
    let columns = vec![column("?column?", "int4")];
    assert_eq!(
        query_result_block("h1", "postgres", &columns, &Vec::new(), true),
        Ok(QueryOutput::Nothing)
    );
    assert_eq!(
        query_result_block("h1", "postgres", &Vec::new(), &Vec::new(), false),
        Ok(QueryOutput::Nothing)
    );
}

#[test]
fn query_result_is_a_table_in_a_block() {
    let columns = vec![column("?column?", "int4")];
    let rows = vec![vec![CellValue::Integer(1)]];
    let expected = "\n[h1:postgres] \n\
+---+---------------+\n\
|   | ?column?:int4 |\n\
+---+---------------+\n\
| 0 | 1             |\n\
+---+---------------+\n\
\n";
    assert_eq!(
        query_result_block("h1", "postgres", &columns, &rows, true),
        Ok(QueryOutput::Block(expected.to_string()))
    );
    let untyped = "\n[h1:postgres] \n\
+---+----------+\n\
|   | ?column? |\n\
+---+----------+\n\
| 0 | 1        |\n\
+---+----------+\n\
\n";
    assert_eq!(
        query_result_block("h1", "postgres", &columns, &rows, false),
        Ok(QueryOutput::Block(untyped.to_string()))
    );
}

#[test]
fn query_fan_out() {
    let columns = vec![column("?column?", "int4")];
    let rows = vec![vec![CellValue::Integer(1)]];
    let mut counts: Vec<u64> = Vec::new();
    for host in ["h1", "h2", "h3"] {
        let block = match query_result_block(host, "postgres", &columns, &rows, true) {
            Ok(QueryOutput::Block(block)) => block,
            other => panic!("no block: {:?}", other),
        };
        assert!(block.starts_with(&format!("\n[{}:postgres] \n", host)));
        assert!(block.contains("| 0 | 1             |"));
        assert!(block.contains("|   | ?column?:int4 |"));
        counts.push(rows.len() as u64);
    }
    let total = total_rows(&counts).unwrap();
    assert_eq!(total, 3);
    assert!(total_rows_block(total).contains("\nTotal rows: 3\n"));
}

#[test]
fn query_result_with_a_bad_cell() {
    let columns = vec![column("a", "int4")];
    let rows = vec![vec![CellValue::Integer(1)], vec![text("1")]];
    assert_eq!(
        query_result_block("h1", "postgres", &columns, &rows, true),
        Err(RenderError::Cell { row: 1, column: 0, reason: CellError::Mismatch })
    );
}

#[test]
fn test_query_data_types() {
    let columns = vec![
        column("a", "int2"),
        column("b", "int4"),
        column("c", "int8"),
        column("d", "numeric"),
        column("e", "float8"),
        column("f", "money"),
        column("g", "text"),
        column("h", "bytea"),
        column("i", "timestamp"),
        column("j", "date"),
        column("k", "time"),
        column("l", "interval"),
        column("m", "bool"),
        column("n", "uuid"),
        column("o", "oid"),
        column("p", "inet"),
        column("q", "json"),
    ];
    let row = vec![
        CellValue::SmallInt(1),
        CellValue::Integer(2),
        CellValue::BigInt(3),
        CellValue::Numeric { mantissa: 45, scale: 1 },
        text("5.5"),
        CellValue::Absent,
        text("six"),
        CellValue::Absent,
        CellValue::Timestamp { secs: 86400, nanos: 0 },
        CellValue::Date { days: 719164 },
        CellValue::Time { secs_of_day: 60, nanos: 0 },
        CellValue::Absent,
        CellValue::Boolean(true),
        CellValue::Uuid(1),
        CellValue::Oid(7),
        text("::1"),
        CellValue::Absent,
    ];
    assert_eq!(
        render_row(&columns, &row, 0),
        Ok(strings(&[
            "0",
            "1",
            "2",
            "3",
            "4.5",
            "5.5",
            "?money?",
            "six",
            "?bytea?",
            "1970-01-02 00:00:00",
            "1970-01-02",
            "00:01:00",
            "?interval?",
            "true",
            "00000000-0000-0000-0000-000000000001",
            "7",
            "::1",
            "?",
        ]))
    );
}

#[test]
fn column_named_by_the_escape_character_is_drawn() {
    let columns = vec![column("\u{1b}", "int4")];
    let rows = vec![vec![CellValue::Integer(1)], vec![CellValue::Integer(2)]];
    let expected = "\n[h1:postgres] \n\
+---+---+\n\
|   | \u{1b} |\n\
+---+---+\n\
| 0 | 1 |\n\
+---+---+\n\
| 1 | 2 |\n\
+---+---+\n\
\n";
    assert_eq!(
        query_result_block("h1", "postgres", &columns, &rows, false),
        Ok(QueryOutput::Block(expected.to_string()))
    );
}

#[test]
fn cell_of_the_escape_character_alone_is_drawn() {
    let columns = vec![column("c", "text")];
    let rows = vec![vec![text("\u{1b}")]];
    let expected = "\n[h1:postgres] \n\
+---+--------+\n\
|   | c:text |\n\
+---+--------+\n\
| 0 | \u{1b}      |\n\
+---+--------+\n\
\n";
    assert_eq!(
        query_result_block("h1", "postgres", &columns, &rows, true),
        Ok(QueryOutput::Block(expected.to_string()))
    );
}

#[test]
fn coloured_plain_text_is_drawn() {
    let columns = vec![column("c", "text")];
    let rows = vec![vec![text("\u{1b}[31mred\u{1b}[0m")]];
    match query_result_block("h1", "postgres", &columns, &rows, true) {
        Ok(QueryOutput::Block(block)) => {
            assert!(block.starts_with("\n[h1:postgres] \n+---+"));
            assert!(block.contains("| 0 | \u{1b}[31mred\u{1b}[0m"));
            assert!(block.ends_with("+\n\n"));
        }
        other => panic!("no block: {:?}", other),
    }
}

#[test]
fn cells_that_cannot_be_measured_are_handed_out() {
    let columns = vec![column("c", "text"), column("n", "int4")];
    let rows = vec![
        vec![text("plain"), CellValue::Integer(1)],
        vec![text("\u{1b}[31mé\u{1b}[0m"), CellValue::Integer(2)],
    ];
    assert_eq!(
        query_result_block("h1", "postgres", &columns, &rows, true),
        Ok(QueryOutput::Cells(vec![
            strings(&["", "c:text", "n:int4"]),
            strings(&["0", "plain", "1"]),
            strings(&["1", "\u{1b}[31mé\u{1b}[0m", "2"]),
        ]))
    );
}

#[test]
fn table_has_one_row_more_than_the_result() {
    let columns = vec![column("a", "int4"), column("b", "money")];
    let rows = vec![
        vec![CellValue::Integer(5), CellValue::Absent],
        vec![CellValue::Integer(6), CellValue::Absent],
        vec![CellValue::Integer(7), CellValue::Absent],
    ];
    let grid = render_grid(&columns, &rows, false).unwrap();
    assert_eq!(grid.len(), rows.len() + 1);
    assert_eq!(grid[0], strings(&["", "a", "b"]));
    for (i, line) in grid.iter().skip(1).enumerate() {
        assert_eq!(line.len(), columns.len() + 1);
        assert_eq!(line[0], i.to_string());
        assert_eq!(line[2], "?money?");
    }
}

#[test]
fn calendar_reaches_from_its_least_to_its_greatest_year() {
    assert_eq!(chrono::NaiveDate::MIN.num_days_from_ce(), -95_746_129);
    assert_eq!(chrono::NaiveDate::MAX.num_days_from_ce(), 95_745_399);
    assert_eq!(
        render_cell("date", &CellValue::Date { days: -95_746_129 }),
        Ok("-262143-01-01".to_string())
    );
    assert_eq!(
        render_cell("date", &CellValue::Date { days: -95_746_130 }),
        Err(CellError::OutOfRange)
    );
    assert_eq!(
        render_cell("date", &CellValue::Date { days: 95_745_399 }),
        Ok("+262142-12-31".to_string())
    );
    assert_eq!(
        render_cell("date", &CellValue::Date { days: 95_745_400 }),
        Err(CellError::OutOfRange)
    );
    assert_eq!(render_cell("date", &CellValue::Date { days: 0 }), Ok("0000-12-31".to_string()));
    assert_eq!(
        render_cell("date", &CellValue::Date { days: i32::MIN }),
        Err(CellError::OutOfRange)
    );
}

#[test]
fn timestamps_reach_as_far_as_the_calendar() {
    assert_eq!(
        render_cell("timestamp", &CellValue::Timestamp { secs: 8_210_266_876_799, nanos: 0 }),
        Ok("+262142-12-31 23:59:59".to_string())
    );
    assert_eq!(
        render_cell("timestamp", &CellValue::Timestamp { secs: 8_210_266_876_800, nanos: 0 }),
        Err(CellError::OutOfRange)
    );
    assert_eq!(
        render_cell("timestamp", &CellValue::Timestamp { secs: -8_334_601_228_800, nanos: 0 }),
        Ok("-262143-01-01 00:00:00".to_string())
    );
    assert_eq!(
        render_cell("timestamp", &CellValue::Timestamp { secs: -8_334_601_228_801, nanos: 0 }),
        Err(CellError::OutOfRange)
    );
    assert_eq!(
        render_cell("timestamp", &CellValue::Timestamp { secs: i64::MIN, nanos: 0 }),
        Err(CellError::OutOfRange)
    );
}

#[test]
fn leap_second_belongs_to_the_last_second_of_a_minute() {
    assert_eq!(
        render_cell("time", &CellValue::Time { secs_of_day: 59, nanos: 1_000_000_000 }),
        Ok("00:00:60".to_string())
    );
    assert_eq!(
        render_cell("time", &CellValue::Time { secs_of_day: 86_399, nanos: 1_999_999_999 }),
        Ok("23:59:60.999999999".to_string())
    );
    assert_eq!(
        render_cell("time", &CellValue::Time { secs_of_day: 58, nanos: 1_000_000_000 }),
        Err(CellError::OutOfRange)
    );
    assert_eq!(
        render_cell("time", &CellValue::Time { secs_of_day: 59, nanos: 2_000_000_000 }),
        Err(CellError::OutOfRange)
    );
    assert_eq!(
        render_cell("time", &CellValue::Time { secs_of_day: 0, nanos: 999_999_999 }),
        Ok("00:00:00.999999999".to_string())
    );
    assert_eq!(
        render_cell("timestamp", &CellValue::Timestamp { secs: 59, nanos: 1_500_000_000 }),
        Ok("1970-01-01 00:00:60.500".to_string())
    );
    assert_eq!(
        render_cell("timestamp", &CellValue::Timestamp { secs: 60, nanos: 1_500_000_000 }),
        Err(CellError::OutOfRange)
    );
    assert_eq!(
        render_cell("timestamp", &CellValue::Timestamp { secs: -1, nanos: 1_000_000_000 }),
        Ok("1969-12-31 23:59:60".to_string())
    );
}
