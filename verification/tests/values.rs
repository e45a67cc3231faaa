use codex_control::clock;
use codex_control::clock::{MILLISECOND, SECOND};
use codex_control::json;
use codex_control::json::Json;
use codex_control::path;
use codex_control::path::FilePath;
use codex_control::table::Table;
use codex_control::text;

#[test]
fn json_texts_are_read_and_written() {
    let value = json::parse_text("{\"b\":[1,-2,2.5,null,true],\"a\":\"x\\n\"}").unwrap();
    assert_eq!(value.get_text("a").unwrap(), "x\n");
    let items = value.get_items("b").unwrap();
    assert_eq!(items.len(), 5);
    assert_eq!(items[0].as_number(), Some(1));
    assert!(matches!(&items[1], Json::Negative(-2)));
    assert!(matches!(&items[2], Json::Fraction(number) if number.to_string() == "2.5"));
    assert!(matches!(&items[3], Json::Null));
    assert!(matches!(&items[4], Json::Bool(true)));
    assert_eq!(value.to_text(), "{\"a\":\"x\\n\",\"b\":[1,-2,2.5,null,true]}");
    assert_eq!(value.clone().to_text(), value.to_text());
}

#[test]
fn numbers_are_shown_as_they_were_read() {
    let mut texts: Vec<String> = Vec::new();
    for text in [
        "0", "-0", "-0.0", "1.0", "1e3", "-1", "0.1", "1.7976931348623157e308", "5e-324",
        "9223372036854775807", "-9223372036854775808", "-9223372036854775809",
        "18446744073709551615", "18446744073709551616", "123456789012345678901234567890",
    ] {
        texts.push(text.to_owned());
    }
    let mut seed: u64 = 1;
    for _ in 0..20_000 {
        seed = seed.wrapping_mul(6364136223846793005).wrapping_add(1442695040888963407);
        let exponent = (seed >> 54) as i64 % 300;
        texts.push(format!("{}.{}e{}", seed % 10, seed >> 3, exponent));
        texts.push(format!("-{}.{}e-{}", seed % 10, seed >> 3, exponent));
    }
    for text in texts {
        match serde_json::from_str::<serde_json::Value>(&text) {
            Ok(outside) => {
                let shown = outside.to_string();
                let read = json::parse_text(&text).unwrap();
                assert_eq!(read.to_text(), shown, "{}", text);
                assert_eq!(read.clone().to_text(), shown, "{}", text);
                assert!(read == read.clone());
            }
            Err(error) => {
                assert_eq!(json::parse_text(&text).unwrap_err(), error.to_string());
            }
        }
    }
}

#[test]
fn every_character_is_trimmed_that_is_white_space() {
    let mut count: u32 = 0;
    for code in 0..=0x10ffff {
        if let Some(c) = char::from_u32(code) {
            let alone = c.to_string();
            assert_eq!(text::trim(&alone), alone.trim(), "{:x}", code);
            if c.is_whitespace() {
                count += 1;
            }
        }
    }
    assert_eq!(count, 25);
}

#[test]
fn json_bytes_are_read() {
    assert_eq!(
        json::parse_bytes(b"[\"y\"]").unwrap().to_text(),
        "[\"y\"]"
    );
    assert!(json::parse_bytes(b"\xff").is_err());
}

#[test]
fn what_is_no_json_is_refused_with_words() {
    assert_eq!(
        json::parse_text("{").unwrap_err(),
        "EOF while parsing an object at line 1 column 1"
    );
}

#[test]
fn the_last_member_under_a_key_counts() {
    let value = Json::object()
        .with("k", Json::Number(1))
        .with("k", Json::Number(2));
    assert_eq!(value.get("k").unwrap().as_number(), Some(2));
    assert_eq!(value.to_text(), "{\"k\":2}");
    assert!(value.get("other").is_none());
    assert!(Json::Null.get("k").is_none());
}

#[test]
fn only_objects_are_objects() {
    assert!(json::require_object(&Json::object()).is_ok());
    assert_eq!(
        json::require_object(&Json::array()).unwrap_err(),
        "invalid type: sequence, expected a map"
    );
    assert!(json::require_object(&Json::Null).is_err());
}

#[test]
fn lines_end_at_line_feeds() {
    assert_eq!(
        text::split_lines("a\r\nb\n\nc"),
        vec!["a", "b", "", "c"]
    );
    assert_eq!(text::split_lines(""), Vec::<String>::new());
    assert_eq!(text::split_lines("a\n"), vec!["a"]);
}

#[test]
fn white_space_is_trimmed_and_letters_are_lowered() {
    assert_eq!(text::trim(" \t\u{2003}x y\n"), "x y");
    assert_eq!(text::trim(" \n"), "");
    assert_eq!(text::to_lower("NoT FoUnD \u{c9}"), "not found \u{c9}");
}

#[test]
fn numbers_are_spelled_in_decimal() {
    assert_eq!(text::decimal_text(0), "0");
    assert_eq!(text::decimal_text(u64::MAX), "18446744073709551615");
    assert_eq!(text::parse_number("18446744073709551615"), Some(u64::MAX));
    assert_eq!(text::parse_number("18446744073709551616"), None);
    assert_eq!(text::parse_number("+7"), Some(7));
    assert_eq!(text::parse_number("007"), Some(7));
    assert_eq!(text::parse_number("-7"), None);
    assert_eq!(text::parse_number("+"), None);
    assert_eq!(text::parse_number(""), None);
    assert_eq!(text::parse_number("7 "), None);
}

#[test]
fn paths_are_joined_with_one_slash() {
    let home = FilePath::from_text("/home/u");
    assert_eq!(home.join("x/y").to_text().unwrap(), "/home/u/x/y");
    assert_eq!(home.join("/abs").to_text().unwrap(), "/abs");
    assert_eq!(
        FilePath::from_text("/").join("x").to_text().unwrap(),
        "/x"
    );
    let odd = FilePath {
        bytes: vec![b'a', 0xff],
    };
    assert!(odd.to_text().is_none());
    assert_eq!(odd.to_text_lossy(), "a\u{fffd}");
}

#[test]
fn normal_roots_are_recognised() {
    for good in ["/", "/tmp", "/tmp/skills", "/a/..b/.c"] {
        assert!(path::check_normal_root(&FilePath::from_text(good)), "{}", good);
    }
    for bad in [
        "", "relative", "/tmp/", "//tmp", "/tmp//x", "/tmp/.", "/tmp/../x", "/tmp/./x", "..",
    ] {
        assert!(!path::check_normal_root(&FilePath::from_text(bad)), "{}", bad);
    }
}

#[test]
fn the_longest_enclosing_bundle_is_found() {
    let bundle = |text: &str| {
        path::application_bundle(&FilePath::from_text(text))
            .to_text()
            .unwrap()
    };
    assert_eq!(bundle("/mock/ChatGPT"), "/mock/ChatGPT");
    assert_eq!(bundle("/A.app/B.app/x"), "/A.app/B.app");
    assert_eq!(bundle("/A.app/x/"), "/A.app");
    assert_eq!(bundle("/A.app"), "/A.app");
    assert_eq!(bundle("/.app/x"), "/.app/x");
}

#[test]
fn waits_double_up_to_a_limit() {
    assert_eq!(
        clock::double_up_to(100 * MILLISECOND, 5 * SECOND),
        200 * MILLISECOND
    );
    assert_eq!(clock::double_up_to(3 * SECOND, 5 * SECOND), 5 * SECOND);
}

#[test]
fn a_table_holds_one_value_under_a_key() {
    let mut table: Table<String, u64> = Table::new();
    table.insert("a".to_owned(), 1);
    table.insert("b".to_owned(), 2);
    table.insert("a".to_owned(), 3);
    assert_eq!(table.len(), 2);
    assert_eq!(table.get(&"a".to_owned()), Some(&3));
    assert_eq!(table.remove(&"a".to_owned()), Some(3));
    assert_eq!(table.remove(&"a".to_owned()), None);
    assert_eq!(table.into_rows(), vec![("b".to_owned(), 2)]);
}
