use taco::repl::address;
use taco::repl::history_listing;
use taco::repl::interpret;
use taco::repl::SessionCommand;
use taco::request::build_separator;
use taco::request::get_raw_command;
use taco::request::get_request_type;
use taco::request::parse_request;
use taco::request::total_rows;
use taco::request::total_rows_block;
use taco::request::trim_newline;
use taco::request::Request;
use taco::request::RequestType;
use taco::server::Server;
use taco::settings::SettingsProvider;

fn line(text: &str) -> String {
    text.to_string()
}

#[test]
fn separator_is_eighty_asterisks() {
    assert_eq!(build_separator(), "*".repeat(80));
}

#[test]
fn kinds_by_separator() {
    assert_eq!(get_request_type(&line("all ? select 1;")), RequestType::Query);
    assert_eq!(get_request_type(&line("dr ! create extension citus;")), RequestType::Command);
    assert_eq!(get_request_type(&line("prw $ drop_db")), RequestType::Macro);
    assert_eq!(get_request_type(&line("hello")), RequestType::Unknown);
    assert_eq!(get_request_type(&line("")), RequestType::Unknown);
}

#[test]
fn question_mark_wins_over_the_other_separators() {
    assert_eq!(get_request_type(&line("all ! x ? y $ z")), RequestType::Query);
    assert_eq!(get_request_type(&line("all $ x ! y")), RequestType::Command);
}

#[test]
fn halves_are_trimmed_and_lower_case() {
    let request = line("  ALL  ?  SELECT 1;  \n");
    assert_eq!(
        get_raw_command(&request, &RequestType::Query),
        ("all".to_string(), "select 1;".to_string())
    );
    assert_eq!(
        get_raw_command(&line("Primary!VACUUM"), &RequestType::Command),
        ("primary".to_string(), "vacuum".to_string())
    );
    assert_eq!(
        get_raw_command(&line("PRW $ Drop_DB\n"), &RequestType::Macro),
        ("prw".to_string(), "drop_db".to_string())
    );
}

#[test]
fn line_is_split_at_the_first_separator() {
    assert_eq!(
        get_raw_command(&line("all ? select 1 ? 2 : 3;"), &RequestType::Query),
        ("all".to_string(), "select 1 ? 2 : 3;".to_string())
    );
    assert_eq!(
        get_raw_command(&line("?select 1;"), &RequestType::Query),
        ("".to_string(), "select 1;".to_string())
    );
    assert_eq!(get_raw_command(&line("all?"), &RequestType::Query), ("all".to_string(), "".to_string()));
}

#[test]
fn lower_case_reaches_beyond_ascii() {
    assert_eq!(
        get_raw_command(&line("ÄLL ? ÉTÉ"), &RequestType::Query),
        ("äll".to_string(), "été".to_string())
    );
}

#[test]
fn request_keeps_what_was_entered() {
    assert_eq!(
        parse_request(&line("All ? SELECT 'Ab' ;\n")),
        Some(Request {
            request_type: RequestType::Query,
            group: "all".to_string(),
            body: "select 'ab' ;".to_string(),
            entered: " SELECT 'Ab' ;\n".to_string(),
        })
    );
    assert_eq!(parse_request(&line("help")), None);
}

#[test]
fn session_verbs() {
    assert_eq!(interpret(&line("exit\n")), SessionCommand::Exit);
    assert_eq!(interpret(&line("  HELP  \r\n")), SessionCommand::Help);
    assert_eq!(interpret(&line("History")), SessionCommand::History);
    assert_eq!(interpret(&line("use foo\n")), SessionCommand::Use("foo".to_string()));
    assert_eq!(interpret(&line("USE Foo bar\n")), SessionCommand::Use("foo".to_string()));
    assert_eq!(interpret(&line("use\n")), SessionCommand::UseUsage);
    assert_eq!(
        interpret(&line("show datatypes false\n")),
        SessionCommand::ShowDataTypes("false".to_string())
    );
    assert_eq!(interpret(&line("show datatypes\n")), SessionCommand::ShowDataTypesUsage);
    assert_eq!(interpret(&line("show macro\n")), SessionCommand::ShowMacro);
}

#[test]
fn unknown_lines() {
    assert_eq!(interpret(&line("\n")), SessionCommand::Unknown);
    assert_eq!(interpret(&line("   ")), SessionCommand::Unknown);
    assert_eq!(interpret(&line("")), SessionCommand::Unknown);
    assert_eq!(interpret(&line("select 1;\n")), SessionCommand::Unknown);
    assert_eq!(interpret(&line("show\n")), SessionCommand::Unknown);
    assert_eq!(interpret(&line("show tables\n")), SessionCommand::Unknown);
}

#[test]
fn verbs_are_whole_words() {
    // a group whose name begins like a verb is still a group
    assert_eq!(
        interpret(&line("users ? select 1;\n")),
        SessionCommand::Dispatch(Request {
            request_type: RequestType::Query,
            group: "users".to_string(),
            body: "select 1;".to_string(),
            entered: " select 1;\n".to_string(),
        })
    );
    assert_eq!(interpret(&line("exit now\n")), SessionCommand::Unknown);
}

#[test]
fn requests_are_dispatched() {
    assert_eq!(
        interpret(&line("all ? select 1;\n")),
        SessionCommand::Dispatch(Request {
            request_type: RequestType::Query,
            group: "all".to_string(),
            body: "select 1;".to_string(),
            entered: " select 1;\n".to_string(),
        })
    );
    assert_eq!(
        interpret(&line("zzz ? select 1;")),
        SessionCommand::Dispatch(Request {
            request_type: RequestType::Query,
            group: "zzz".to_string(),
            body: "select 1;".to_string(),
            entered: " select 1;".to_string(),
        })
    );
}

#[test]
fn newline_is_dropped_once() {
    let mut unix = line("abc\n");
    trim_newline(&mut unix);
    assert_eq!(unix, "abc");
    let mut dos = line("abc\r\n");
    trim_newline(&mut dos);
    assert_eq!(dos, "abc");
    let mut twice = line("abc\n\n");
    trim_newline(&mut twice);
    assert_eq!(twice, "abc\n");
    let mut bare = line("abc\r");
    trim_newline(&mut bare);
    assert_eq!(bare, "abc\r");
    let mut plain = line("abc");
    trim_newline(&mut plain);
    assert_eq!(plain, "abc");
    let mut empty = line("");
    trim_newline(&mut empty);
    assert_eq!(empty, "");
    let mut only = line("\n");
    trim_newline(&mut only);
    assert_eq!(only, "");
    let mut pair = line("\r\n");
    trim_newline(&mut pair);
    assert_eq!(pair, "");
}

#[test]
fn history_is_listed_in_order() {
    let history = vec![line("all ? select 1;\n"), line("dr ! vacuum;\r\n"), line("x ? y")];
    assert_eq!(
        history_listing(&history),
        vec![line("0: all ? select 1;"), line("1: dr ! vacuum;"), line("2: x ? y")]
    );
    assert!(history_listing(&Vec::new()).is_empty());
}

#[test]
fn rows_are_summed() {
    assert_eq!(total_rows(&vec![1, 1, 1]), Some(3));
    assert_eq!(total_rows(&Vec::new()), Some(0));
    assert_eq!(total_rows(&vec![0, 7, 0, 35]), Some(42));
    assert_eq!(total_rows(&vec![u64::MAX]), Some(u64::MAX));
    assert_eq!(total_rows(&vec![u64::MAX, 0]), Some(u64::MAX));
    assert_eq!(total_rows(&vec![u64::MAX, 1]), None);
    assert_eq!(total_rows(&vec![1, u64::MAX, 5]), None);
}

#[test]
fn total_stands_between_separators() {
    let separator = "*".repeat(80);
    assert_eq!(
        total_rows_block(3),
        format!("\n{}\nTotal rows: 3\n{}\n", separator, separator)
    );
    assert_eq!(
        total_rows_block(u64::MAX),
        format!("\n{}\nTotal rows: 18446744073709551615\n{}\n", separator, separator)
    );
}

#[test]
fn task_addresses_the_database_of_the_session() {
    let mut settings = SettingsProvider::new();
    let mut server = Server::new("h1");
    server.db_name = Some("own".to_string());
    server.port = Some(5432);
    address(&mut server, &settings);
    assert_eq!(server.db_name, Some("own".to_string()));
    settings.set_key("current_db".to_string(), "foo".to_string());
    address(&mut server, &settings);
    assert_eq!(server.db_name, Some("foo".to_string()));
    assert_eq!(server.port, Some(5432));
    assert_eq!(server.host, "h1");
}
