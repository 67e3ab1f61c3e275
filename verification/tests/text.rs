use taco::decimal::decimal_string;
use taco::order::text_equal;
use taco::order::text_less;
use taco::server::Server;
use taco::split::find_char;
use taco::split::matches_at;
use taco::split::replaced;
use taco::split::slice_of;
use taco::split::split_on;
use taco::text::char_is_whitespace;
use taco::text::chars_of;
use taco::text::same_text;
use taco::text::string_of;
use taco::text::trimmed;

fn chars(text: &str) -> Vec<char> {
    text.chars().collect()
}

fn string(v: &Vec<char>) -> String {
    v.iter().collect()
}

#[test]
fn characters_and_back() {
    for text in ["", "a", "héllo wörld", "日本語", "a\u{1b}b", "\n\r\t"] {
        assert_eq!(chars_of(text), chars(text));
        assert_eq!(string_of(&chars(text)), text);
        assert_eq!(string_of(&chars_of(text)), text);
    }
}

#[test]
fn white_space_is_what_the_language_says() {
    let mut code: u32 = 0;
    while code < 0x3100 {
        if let Some(c) = char::from_u32(code) {
            assert_eq!(char_is_whitespace(c), c.is_whitespace());
        }
        code += 1;
    }
    assert!(!char_is_whitespace('\u{200B}'));
    assert!(!char_is_whitespace('\u{FEFF}'));
    assert!(!char_is_whitespace('\u{10FFFF}'));
}

#[test]
fn trimming_is_what_the_language_says() {
    for text in [
        "",
        " ",
        "   ",
        "a",
        " a",
        "a ",
        "  a b  ",
        "\t\n a \r\n",
        "\u{a0}x\u{3000}",
        "\u{2003}\u{2003}",
        " \u{200B} ",
    ] {
        assert_eq!(string(&trimmed(&chars(text))), text.trim());
    }
}

#[test]
fn first_position_of_a_character() {
    assert_eq!(find_char(&chars("a?b?c"), '?'), 1);
    assert_eq!(find_char(&chars("?"), '?'), 0);
    assert_eq!(find_char(&chars("abc"), '?'), 3);
    assert_eq!(find_char(&chars(""), '?'), 0);
}

#[test]
fn slices() {
    assert_eq!(string(&slice_of(&chars("hello"), 1, 3)), "el");
    assert_eq!(string(&slice_of(&chars("hello"), 0, 5)), "hello");
    assert_eq!(string(&slice_of(&chars("hello"), 5, 5)), "");
}

#[test]
fn splitting_is_what_the_language_says() {
    for text in ["", ";", "a", "a;b", "a;;b", ";a;", "a;b;", ";;", "select 1; select 2;"] {
        let parts: Vec<String> = split_on(&chars(text), ';').iter().map(string).collect();
        let expected: Vec<String> = text.split(';').map(|p| p.to_string()).collect();
        assert_eq!(parts, expected);
        assert_eq!(parts.join(";"), text);
    }
}

#[test]
fn pattern_at_a_position() {
    assert!(matches_at(&chars("abcabc"), 3, &chars("abc")));
    assert!(matches_at(&chars("abcabc"), 0, &chars("abc")));
    assert!(!matches_at(&chars("abcabc"), 1, &chars("abc")));
    assert!(!matches_at(&chars("abcabc"), 4, &chars("abc")));
    assert!(matches_at(&chars("abc"), 3, &chars("")));
    assert!(!matches_at(&chars("abc"), 3, &chars("a")));
}

#[test]
fn replacing_is_what_the_language_says() {
    let cases = [
        ("", "a", "b"),
        ("aaa", "a", "b"),
        ("aaa", "aa", "b"),
        ("aaaa", "aa", "a"),
        ("abcabc", "bc", ""),
        ("abc", "abcd", "x"),
        ("abc", "", "-"),
        ("", "", "-"),
        ("$A$ and $A$", "$A$", "$A$$A$"),
        ("ababab", "aba", "x"),
        ("héllo", "é", "e"),
    ];
    for (text, pattern, replacement) in cases {
        assert_eq!(
            string(&replaced(&chars(text), &chars(pattern), &chars(replacement))),
            text.replace(pattern, replacement)
        );
    }
}

#[test]
fn numbers_in_decimal() {
    assert_eq!(decimal_string(0), "0");
    assert_eq!(decimal_string(7), "7");
    assert_eq!(decimal_string(10), "10");
    assert_eq!(decimal_string(-1), "-1");
    assert_eq!(decimal_string(1234567890), "1234567890");
    assert_eq!(decimal_string(i128::MAX), "170141183460469231731687303715884105727");
    assert_eq!(decimal_string(i128::MIN), "-170141183460469231731687303715884105728");
    let mut n: i128 = -1000;
    while n <= 1000 {
        assert_eq!(decimal_string(n), n.to_string());
        n += 1;
    }
}

#[test]
fn order_of_texts_is_that_of_strings() {
    let words = ["", "a", "A", "aa", "ab", "b", "$", "$$", "$A$", "é", "z", "日本"];
    for x in words {
        for y in words {
            assert_eq!(text_less(&chars(x), &chars(y)), x < y);
            assert_eq!(text_equal(&chars(x), &chars(y)), x == y);
            assert_eq!(same_text(x, y), x == y);
        }
    }
}

#[test]
fn connection_string_of_a_declared_server() {
    let mut server = Server::new("db1.example");
    server.port = Some(5432);
    server.db_name = Some("app".to_string());
    server.user = Some("admin".to_string());
    server.password = Some("SECRET-REDACTED".to_string());
    server.connect_timeout_sec = Some(10);
    assert_eq!(
        server.connection_string(),
        "host=db1.example port=5432 dbname=app user=admin password=SECRET-REDACTED connect_timeout=10 application_name=taco"
    );
}

#[test]
fn connection_string_with_gaps() {
    assert_eq!(
        Server::new("h1").connection_string(),
        "host=h1 port=0 dbname=default_dbname user=default_user password=default_password connect_timeout=0 application_name=taco"
    );
    let mut negative = Server::new("h1");
    negative.port = Some(-1);
    negative.connect_timeout_sec = Some(i32::MIN);
    assert_eq!(
        negative.connection_string(),
        "host=h1 port=-1 dbname=default_dbname user=default_user password=default_password connect_timeout=-2147483648 application_name=taco"
    );
}

#[test]
fn database_can_be_changed() {
    let mut server = Server::new("h1");
    server.port = Some(1);
    server.is_node_online = Some(true);
    let mut expected = server.clone();
    server.set_db_name("other".to_string());
    expected.db_name = Some("other".to_string());
    assert_eq!(server, expected);
}

#[test]
fn new_server_knows_nothing() {
    let server = Server::new("h1");
    assert_eq!(server.host, "h1");
    assert_eq!(server.port, None);
    assert_eq!(server.db_name, None);
    assert_eq!(server.is_node_online, None);
    assert_eq!(server.is_node_consistent, None);
    assert_eq!(server.citus_group_id, None);
    assert_eq!(server.patroni_is_read_only, None);
}
