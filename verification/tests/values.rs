use esift::json::{
    clone_items, fill, float_text_as_integer, float_text_as_number, from_value, get,
    integer_as_float, parse, put, reversed, take, Json,
};
use esift::number::{decimal, integer, padded, parse_digits, parse_i64, parse_u32};
use esift::order::{before, sort};
use esift::text::{
    append_text, byte_chars_of, chars_of, ends_with, join2, join3, join4, same_opt, same_text,
    slice_of, split_at, starts_with, string_of, trim_text, white,
};

fn j(text: &str) -> Json {
    parse(text).unwrap()
}

#[test]
fn values_survive_parsing_and_printing() {
    for text in [
        "null",
        "true",
        "18446744073709551615",
        "-9223372036854775808",
        "1.5",
        "\"a\\nb\"",
        "[1,[2,{}],\"x\"]",
        "{\"a\":{\"b\":[null]},\"c\":-1}",
    ] {
        assert_eq!(j(text).to_text(), text);
        assert_eq!(j(text).clone().to_text(), text);
        assert_eq!(from_value(j(text).to_value()).to_text(), text);
    }
    assert!(parse("{").is_err());
    assert!(parse("").unwrap_err().starts_with("EOF while parsing"));
}

#[test]
fn values_are_read_by_kind() {
    assert_eq!(j("7").as_u64(), Some(7));
    assert_eq!(j("-7").as_u64(), None);
    assert_eq!(j("-7").as_i64(), Some(-7));
    assert_eq!(j("9223372036854775808").as_i64(), None);
    assert_eq!(j("1.0").as_i64(), None);
    assert_eq!(j("\"x\"").as_str(), Some("x"));
    assert_eq!(j("1").as_str(), None);
    assert_eq!(j("{\"k\": \"v\"}").text_field("k"), Some("v".to_string()));
    assert_eq!(j("{\"k\": 1}").text_field("k"), None);
    assert!(j("[1]").get("k").is_none());
}

#[test]
fn entries_behave_as_a_map() {
    let mut e: Vec<(String, Json)> = Vec::new();
    put(&mut e, "a", j("1"));
    put(&mut e, "b", j("2"));
    put(&mut e, "a", j("3"));
    assert_eq!(get(&e, "a").unwrap().to_text(), "3");
    let more = vec![
        ("b".to_string(), j("9")),
        ("c".to_string(), j("4")),
    ];
    fill(&mut e, &more);
    assert_eq!(Json::Object(e).to_text(), r#"{"a":3,"b":2,"c":4}"#);
    let mut e = vec![("x".to_string(), j("1")), ("y".to_string(), j("2"))];
    assert_eq!(take(&mut e, "x").unwrap().to_text(), "1");
    assert!(take(&mut e, "x").is_none());
    assert_eq!(e.len(), 1);
    assert_eq!(reversed(vec![1, 2, 3]), vec![3, 2, 1]);
    assert_eq!(clone_items(&vec![j("1"), j("{}")])[1].to_text(), "{}");
}

#[test]
fn floats_come_from_texts_and_integers() {
    assert_eq!(float_text_as_integer("2.9"), Some(2));
    assert_eq!(float_text_as_integer("-2.9"), Some(-2));
    assert_eq!(float_text_as_integer("1e30"), Some(i64::MAX));
    assert_eq!(float_text_as_integer("x"), None);
    assert_eq!(float_text_as_number("0.5").unwrap().to_text(), "0.5");
    assert!(float_text_as_number("nan").is_none());
    assert_eq!(integer_as_float(3).to_text(), "3.0");
    assert!(integer_as_float(i128::MIN).to_text().starts_with("-1.7014118346046923e"));
    assert!(integer_as_float(i128::MAX).to_text().starts_with("1.7014118346046923e"));
}

#[test]
fn decimals_read_back() {
    for n in [0, 7, 10, 999, u64::MAX] {
        let text = decimal(n);
        assert_eq!(text, n.to_string());
        assert_eq!(parse_digits(&chars_of(&text), 0, u64::MAX), Some(n));
    }
    assert_eq!(integer(i64::MIN), i64::MIN.to_string());
    assert_eq!(padded(7, 3), "007");
    assert_eq!(padded(1234, 3), "1234");
    assert_eq!(parse_i64(&chars_of("-0012")), Some(-12));
    assert_eq!(parse_i64(&chars_of("+5")), Some(5));
    assert_eq!(parse_i64(&chars_of("9223372036854775808")), None);
    assert_eq!(
        parse_i64(&chars_of("-9223372036854775808")),
        Some(i64::MIN)
    );
    assert_eq!(parse_i64(&chars_of("")), None);
    assert_eq!(parse_i64(&chars_of("-")), None);
    assert_eq!(parse_u32(&chars_of("4294967295")), Some(u32::MAX));
    assert_eq!(parse_u32(&chars_of("4294967296")), None);
    assert_eq!(parse_u32(&chars_of("-1")), None);
    assert_eq!(parse_digits(&chars_of("x12"), 1, 11), None);
}

#[test]
fn texts_are_sorted_by_code_point() {
    let texts = |v: &[&str]| -> Vec<String> { v.iter().map(|s| s.to_string()).collect() };
    assert_eq!(
        sort(&texts(&["b", "\u{e9}", "", "a", "ab", "B", "a"])),
        texts(&["", "B", "a", "a", "ab", "b", "\u{e9}"])
    );
    assert!(before("a", "ab"));
    assert!(!before("ab", "a"));
    assert!(!before("a", "a"));
    assert!(sort(&vec![]).is_empty());
}

#[test]
fn texts_are_taken_apart_and_joined() {
    assert_eq!(join2("a", "b"), "ab");
    assert_eq!(join3("a", "b", "c"), "abc");
    assert_eq!(join4("a", "b", "c", "d"), "abcd");
    let mut s = "x".to_string();
    append_text(&mut s, "\u{e9}");
    assert_eq!(s, "x\u{e9}");
    assert!(same_text("\u{e9}", "\u{e9}"));
    assert!(!same_text("a", "ab"));
    assert!(same_opt(&None, &None));
    assert!(!same_opt(&Some("".into()), &None));
    assert_eq!(trim_text("\u{a0}\t a b \n"), "a b");
    assert!(white('\u{3000}'));
    assert!(!white('a'));
    let cs = chars_of("a,b,,");
    let parts: Vec<String> = split_at(&cs, ',').iter().map(string_of).collect();
    assert_eq!(parts, vec!["a", "b", "", ""]);
    assert_eq!(string_of(&slice_of(&cs, 1, 3)), ",b");
    assert!(starts_with(&cs, &chars_of("a,")));
    assert!(ends_with(&cs, &chars_of(",,")));
    assert!(!ends_with(&chars_of("a"), &cs));
    assert_eq!(byte_chars_of("\u{e9}").len(), 2);
}
