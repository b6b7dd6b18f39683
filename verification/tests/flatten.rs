use esift::json::{parse, Json};
use esift::source::datadog::{flatten_api, flatten_archive};

fn j(text: &str) -> Json {
    parse(text).unwrap()
}

fn api(event: &str, flat: &str) {
    assert_eq!(flatten_api::flatten(j(event)).to_text(), j(flat).to_text());
}

fn archive(event: &str, flat: &str) {
    assert_eq!(
        flatten_archive::flatten(j(event)).to_text(),
        j(flat).to_text()
    );
}

#[test]
fn collapses_double_nested_attributes() {
    api(
        r#"{
            "id": "AAAA",
            "type": "log",
            "attributes": {
                "timestamp": "2025-01-01T00:00:00Z",
                "service": "web",
                "host": "h1",
                "status": "info",
                "tags": ["env:prod"],
                "attributes": { "user_id": "u7", "latency_ms": 12 }
            }
        }"#,
        r#"{
            "id": "AAAA",
            "timestamp": "2025-01-01T00:00:00Z",
            "service": "web",
            "host": "h1",
            "status": "info",
            "tags": ["env:prod"],
            "user_id": "u7",
            "latency_ms": 12
        }"#,
    );
}

#[test]
fn standard_fields_win_over_custom() {
    api(
        r#"{"attributes": {"service": "standard", "attributes": {"service": "custom"}}}"#,
        r#"{"service": "standard"}"#,
    );
}

#[test]
fn flatten_api_non_object_passes_through() {
    api("42", "42");
}

#[test]
fn api_attributes_that_are_no_object_are_kept() {
    api(
        r#"{"id": "x", "attributes": [1]}"#,
        r#"{"id": "x", "attributes": [1]}"#,
    );
    api(r#"{"type": "log"}"#, "{}");
}

#[test]
fn envelope_id_wins_over_an_attribute_of_that_name() {
    api(
        r#"{"id": "env", "attributes": {"id": "inner", "k": 1}}"#,
        r#"{"id": "env", "k": 1}"#,
    );
}

#[test]
fn hoists_nested_attributes() {
    archive(
        r#"{
            "host": "h1",
            "service": "web",
            "attributes": {
                "status": "info",
                "attributes": { "user_id": "u7", "path": "/login" }
            }
        }"#,
        r#"{
            "host": "h1",
            "service": "web",
            "status": "info",
            "user_id": "u7",
            "path": "/login"
        }"#,
    );
}

#[test]
fn outer_keys_win_on_conflict() {
    archive(
        r#"{"service": "outer", "attributes": {"service": "inner"}}"#,
        r#"{"service": "outer"}"#,
    );
}

#[test]
fn outer_attributes_win_over_nested_ones() {
    archive(
        r#"{"attributes": {"k": "mid", "attributes": {"k": "deep"}}}"#,
        r#"{"k": "mid"}"#,
    );
    archive(
        r#"{"attributes": {"m": 1, "attributes": {"m": 2, "n": 2, "attributes": {"n": 3, "o": 3}}}}"#,
        r#"{"m": 1, "n": 2, "o": 3}"#,
    );
}

#[test]
fn attributes_that_are_no_object_stay() {
    archive(
        r#"{"host": "h1", "attributes": "x"}"#,
        r#"{"host": "h1", "attributes": "x"}"#,
    );
    archive(r#"{"attributes": null}"#, r#"{"attributes": null}"#);
    // Nested, it is a field like any other.
    archive(
        r#"{"host": "h1", "attributes": {"k": 1, "attributes": [2]}}"#,
        r#"{"host": "h1", "k": 1, "attributes": [2]}"#,
    );
}

#[test]
fn tags_are_split_trimmed_and_never_empty() {
    archive(r#"{"tags": " a , b"}"#, r#"{"tags": ["a", "b"]}"#);
    archive(r#"{"tags": "c,,  "}"#, r#"{"tags": ["c"]}"#);
    archive(r#"{"tags": " a , b,c,,  "}"#, r#"{"tags": ["a", "b", "c"]}"#);
    archive(r#"{"tags": "  "}"#, r#"{"tags": []}"#);
    archive(r#"{"tags": "one tag"}"#, r#"{"tags": ["one tag"]}"#);
}

#[test]
fn flatten_archive_non_object_passes_through() {
    archive(r#""scalar""#, r#""scalar""#);
}

#[test]
fn realistic_archive_record() {
    archive(
        r#"{
            "_id": "AQAAAY1234567890",
            "date": "2024-05-01T12:34:56.789Z",
            "host": "web-01",
            "source": "nginx",
            "service": "web",
            "status": "info",
            "message": "GET /login 200",
            "tags": ["env:prod", "version:1.2.3"],
            "attributes": {
                "http": { "method": "GET", "status_code": 200 },
                "attributes": { "user_id": "u7", "path": "/login" }
            }
        }"#,
        r#"{
            "_id": "AQAAAY1234567890",
            "date": "2024-05-01T12:34:56.789Z",
            "host": "web-01",
            "source": "nginx",
            "service": "web",
            "status": "info",
            "message": "GET /login 200",
            "tags": ["env:prod", "version:1.2.3"],
            "http": { "method": "GET", "status_code": 200 },
            "user_id": "u7",
            "path": "/login"
        }"#,
    );
}

#[test]
fn ddtags_string_becomes_tags_array() {
    archive(
        r#"{
            "service": "web",
            "ddtags": "env:prod,version:1.2.3, region:us-east-1",
            "attributes": { "k": "v" }
        }"#,
        r#"{
            "service": "web",
            "tags": ["env:prod", "version:1.2.3", "region:us-east-1"],
            "k": "v"
        }"#,
    );
}

#[test]
fn string_tags_field_is_split() {
    archive(
        r#"{"service": "web", "tags": "env:prod,team:core"}"#,
        r#"{"service": "web", "tags": ["env:prod", "team:core"]}"#,
    );
}

#[test]
fn existing_tags_array_wins_over_ddtags() {
    archive(
        r#"{"tags": ["env:prod"], "ddtags": "env:staging,extra:1"}"#,
        r#"{"tags": ["env:prod"]}"#,
    );
}

#[test]
fn other_tag_fields_are_kept() {
    archive(
        r#"{"tags": 3, "ddtags": [1], "x": null}"#,
        r#"{"tags": 3, "ddtags": [1], "x": null}"#,
    );
    archive(
        r#"{"tags": "a,,b , ", "ddtags": "c"}"#,
        r#"{"tags": ["a", "b"], "ddtags": "c"}"#,
    );
}
