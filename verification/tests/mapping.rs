use esift::json::{parse, Json};
use esift::mapping::{coerce_value, Transformer};
use esift::transform::Transform;
use esift::Document;

fn j(text: &str) -> Json {
    parse(text).unwrap()
}

fn doc(text: &str) -> Document {
    Document::new("idx", "id1", j(text))
}

fn same(a: &Json, text: &str) {
    assert_eq!(a.to_text(), j(text).to_text());
}

fn coerce(to: &str) -> Transformer {
    Transformer::new(vec![Transform::Coerce {
        field: "n".into(),
        to: to.into(),
    }])
}

#[test]
fn identity_passes_body_through_unchanged() {
    let out = Transformer::identity().apply(doc(r#"{"a": 1, "b": "x"}"#));
    same(&out.body, r#"{"a": 1, "b": "x"}"#);
    assert_eq!(out.index, "idx");
    assert_eq!(out.id, "id1");
}

#[test]
fn rename_moves_value_to_new_key() {
    let t = Transformer::new(vec![Transform::Rename {
        from: "a".into(),
        to: "z".into(),
    }]);
    same(&t.apply(doc(r#"{"a": 1}"#)).body, r#"{"z": 1}"#);
}

#[test]
fn drop_removes_the_field() {
    let t = Transformer::new(vec![Transform::Drop {
        field: "secret".into(),
    }]);
    same(
        &t.apply(doc(r#"{"secret": "x", "keep": 1}"#)).body,
        r#"{"keep": 1}"#,
    );
}

#[test]
fn set_timestamp_copies_field_without_removing_source() {
    let t = Transformer::new(vec![Transform::SetTimestamp {
        from: "created_at".into(),
    }]);
    let out = t.apply(doc(r#"{"created_at": "2024-01-01"}"#)).body;
    same(out.get("_timestamp").unwrap(), r#""2024-01-01""#);
    same(out.get("created_at").unwrap(), r#""2024-01-01""#);
}

#[test]
fn non_object_body_is_left_untouched() {
    let t = Transformer::new(vec![Transform::Drop { field: "x".into() }]);
    same(&t.apply(doc("[1, 2, 3]")).body, "[1, 2, 3]");
}

#[test]
fn lowercase_lowercases_a_string_field_in_place() {
    let t = Transformer::new(vec![Transform::Lowercase {
        field: "level".into(),
    }]);
    let out = t.apply(doc(r#"{"level": "ERROR", "n": 1}"#)).body;
    same(&out, r#"{"level": "error", "n": 1}"#);
}

#[test]
fn lowercase_reaches_beyond_ascii() {
    let t = Transformer::new(vec![Transform::Lowercase {
        field: "w".into(),
    }]);
    same(&t.apply(doc(r#"{"w": "ÀÉÎ"}"#)).body, r#"{"w": "àéî"}"#);
}

#[test]
fn lowercase_leaves_non_string_values_unchanged() {
    let t = Transformer::new(vec![Transform::Lowercase { field: "n".into() }]);
    same(&t.apply(doc(r#"{"n": 5}"#)).body, r#"{"n": 5}"#);
}

#[test]
fn copy_clones_value_into_new_key_keeping_source() {
    let t = Transformer::new(vec![Transform::Copy {
        from: "a".into(),
        to: "b".into(),
    }]);
    let out = t.apply(doc(r#"{"a": "x"}"#)).body;
    same(&out, r#"{"a": "x", "b": "x"}"#);
}

#[test]
fn copy_is_a_noop_when_source_is_missing() {
    let t = Transformer::new(vec![Transform::Copy {
        from: "missing".into(),
        to: "b".into(),
    }]);
    same(&t.apply(doc(r#"{"a": 1}"#)).body, r#"{"a": 1}"#);
}

#[test]
fn coerce_string_to_int() {
    same(&coerce("int").apply(doc(r#"{"n": "42"}"#)).body, r#"{"n": 42}"#);
}

#[test]
fn coerce_int_to_string() {
    same(
        &coerce("string").apply(doc(r#"{"n": 42}"#)).body,
        r#"{"n": "42"}"#,
    );
}

#[test]
fn coerce_string_to_float() {
    same(
        &coerce("float").apply(doc(r#"{"n": "3.5"}"#)).body,
        r#"{"n": 3.5}"#,
    );
}

#[test]
fn coerce_string_to_bool() {
    let t = Transformer::new(vec![Transform::Coerce {
        field: "flag".into(),
        to: "bool".into(),
    }]);
    same(
        &t.apply(doc(r#"{"flag": "true"}"#)).body,
        r#"{"flag": true}"#,
    );
}

#[test]
fn coerce_leaves_uncoercible_value_unchanged() {
    same(
        &coerce("int").apply(doc(r#"{"n": "not-a-number"}"#)).body,
        r#"{"n": "not-a-number"}"#,
    );
}

#[test]
fn coerce_to_int_covers_every_kind_of_value() {
    let int = |text: &str| coerce_value(&j(text), "int").map(|v| v.to_text());
    assert_eq!(int("7"), Some("7".to_string()));
    assert_eq!(int("-7"), Some("-7".to_string()));
    assert_eq!(int("2.9"), Some("2".to_string()));
    assert_eq!(int("-2.9"), Some("-2".to_string()));
    assert_eq!(
        int("18446744073709551615"),
        Some("9223372036854775807".to_string())
    );
    assert_eq!(int(r#"" +12 ""#), Some("12".to_string()));
    assert_eq!(int(r#""1e3""#), Some("1000".to_string()));
    assert_eq!(int("true"), Some("1".to_string()));
    assert_eq!(int("false"), Some("0".to_string()));
    assert_eq!(int("null"), None);
    assert_eq!(int("[1]"), None);
}

#[test]
fn coerce_to_float_covers_every_kind_of_value() {
    let float = |text: &str| coerce_value(&j(text), "float").map(|v| v.to_text());
    assert_eq!(float("7"), Some("7.0".to_string()));
    assert_eq!(float("-7"), Some("-7.0".to_string()));
    assert_eq!(float("2.5"), Some("2.5".to_string()));
    assert_eq!(float(r#"" 0.25 ""#), Some("0.25".to_string()));
    assert_eq!(float(r#""inf""#), None);
    assert_eq!(float("true"), Some("1.0".to_string()));
    assert_eq!(float("false"), Some("0.0".to_string()));
    assert_eq!(float("{}"), None);
}

#[test]
fn coerce_to_bool_covers_every_kind_of_value() {
    let truth = |text: &str| coerce_value(&j(text), "bool").map(|v| v.to_text());
    assert_eq!(truth("true"), Some("true".to_string()));
    assert_eq!(truth(r#"" YES ""#), Some("true".to_string()));
    assert_eq!(truth(r#""0""#), Some("false".to_string()));
    assert_eq!(truth(r#""maybe""#), None);
    assert_eq!(truth("3"), Some("true".to_string()));
    assert_eq!(truth("0"), Some("false".to_string()));
    assert_eq!(truth("18446744073709551615"), None);
    assert_eq!(truth("1.5"), None);
    assert_eq!(truth("null"), None);
}

#[test]
fn coerce_to_string_covers_every_kind_of_value() {
    let string = |text: &str| coerce_value(&j(text), "string").map(|v| v.to_text());
    assert_eq!(string(r#""x""#), Some(r#""x""#.to_string()));
    assert_eq!(string("-12"), Some(r#""-12""#.to_string()));
    assert_eq!(
        string("18446744073709551615"),
        Some(r#""18446744073709551615""#.to_string())
    );
    assert_eq!(string("1.5"), Some(r#""1.5""#.to_string()));
    assert_eq!(string("true"), Some(r#""true""#.to_string()));
    assert_eq!(string("null"), None);
}

#[test]
fn coerce_to_an_unknown_type_does_nothing() {
    assert!(coerce_value(&j("1"), "date").is_none());
}

#[test]
fn json_parse_replaces_string_with_parsed_json() {
    let t = Transformer::new(vec![Transform::JsonParse {
        field: "payload".into(),
    }]);
    let out = t.apply(doc(r#"{"payload": "{\"k\": [1, 2]}"}"#)).body;
    same(&out, r#"{"payload": {"k": [1, 2]}}"#);
}

#[test]
fn json_parse_leaves_invalid_json_unchanged() {
    let t = Transformer::new(vec![Transform::JsonParse {
        field: "payload".into(),
    }]);
    same(
        &t.apply(doc(r#"{"payload": "not json"}"#)).body,
        r#"{"payload": "not json"}"#,
    );
}

#[test]
fn new_ops_leave_non_object_body_untouched() {
    let t = Transformer::new(vec![
        Transform::Lowercase { field: "a".into() },
        Transform::Copy {
            from: "a".into(),
            to: "b".into(),
        },
        Transform::Coerce {
            field: "a".into(),
            to: "int".into(),
        },
        Transform::JsonParse { field: "a".into() },
    ]);
    same(&t.apply(doc("[1, 2, 3]")).body, "[1, 2, 3]");
}

#[test]
fn apply_batch_transforms_every_document() {
    let t = Transformer::new(vec![Transform::Drop {
        field: "drop_me".into(),
    }]);
    let out = t.apply_batch(vec![
        doc(r#"{"drop_me": 1, "k": 1}"#),
        doc(r#"{"drop_me": 2, "k": 2}"#),
    ]);
    assert_eq!(out.len(), 2);
    same(&out[0].body, r#"{"k": 1}"#);
    same(&out[1].body, r#"{"k": 2}"#);
}

#[test]
fn transforms_run_in_order() {
    let rename = Transform::Rename {
        from: "a".into(),
        to: "b".into(),
    };
    let lower = Transform::Lowercase { field: "b".into() };
    let both = Transformer::new(vec![rename.clone(), lower.clone()]);
    let first = Transformer::new(vec![rename]);
    let second = Transformer::new(vec![lower]);
    let at_once = both.apply(doc(r#"{"a": "X"}"#)).body;
    let in_turn = second.apply(first.apply(doc(r#"{"a": "X"}"#))).body;
    same(&at_once, r#"{"b": "x"}"#);
    assert_eq!(at_once.to_text(), in_turn.to_text());
}
