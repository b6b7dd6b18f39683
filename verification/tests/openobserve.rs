use esift::dest::openobserve::auth::{credentials, SinkAuth};
use esift::dest::openobserve::config::{Compression, OpenObserveOptions};
use esift::dest::openobserve::deadletter;
use esift::dest::openobserve::response::parse as parse_response;
use esift::dest::openobserve::routing::stream_for;
use esift::dest::openobserve::timestamp::apply;
use esift::dest::openobserve::transport::{classify, payload};
use esift::dest::openobserve::types::{BulkOutcome, RejectedDoc, RoutedDoc};
use esift::dest::openobserve::OpenObserveDestination;
use esift::error::EsiftError;
use esift::json::{parse, Json};
use esift::source::datadog::decompress::{decompress, Codec};
use esift::Document;

fn j(text: &str) -> Json {
    parse(text).unwrap()
}

fn dest(options: OpenObserveOptions) -> OpenObserveDestination {
    OpenObserveDestination::new("http://mock", "default", "mystream", "user", "pass", options)
        .unwrap()
}

fn doc(id: &str, body: &str) -> Document {
    Document::new("logs", id, j(body))
}

/// Sends a batch to a server that answers every request alike. Gives the number
/// of accepted documents and of requests.
fn write(
    dest: &OpenObserveDestination,
    docs: Vec<Document>,
    status: u16,
    body: &str,
) -> Result<(usize, usize), EsiftError> {
    let mut run = dest.write_batch(docs);
    let mut requests = 0;
    while let Some(p) = run.next_payload(dest.options.compression)? {
        assert!(!p.bytes.is_empty());
        requests += 1;
        if let Some(e) = run.on_response(status, body) {
            return Err(e);
        }
    }
    Ok((run.report(&dest.options).accepted, requests))
}

#[test]
fn token_option_sends_bearer_auth_header() {
    let options = OpenObserveOptions {
        token: Some("testtoken".into()),
        ..Default::default()
    };
    assert!(matches!(
        credentials(&options, "user", "pass"),
        SinkAuth::Bearer(t) if t == "testtoken"
    ));
    assert!(matches!(
        credentials(&OpenObserveOptions::default(), "user", "pass"),
        SinkAuth::Basic { username, password } if username == "user" && password == "pass"
    ));
    let written = write(
        &dest(options),
        vec![doc("1", r#"{"a": 1}"#)],
        200,
        r#"{"errors": false}"#,
    );
    assert_eq!(written.unwrap(), (1, 1));
}

#[test]
fn batch_bytes_cap_splits_into_multiple_requests() {
    let d = dest(OpenObserveOptions {
        max_batch_bytes: Some(60),
        ..Default::default()
    });
    let docs: Vec<Document> = (0..6)
        .map(|i| doc(&i.to_string(), &format!("{{\"a\": {}}}", i)))
        .collect();
    let (written, requests) = write(&d, docs, 200, r#"{"errors": false}"#).unwrap();
    assert_eq!(written, 6, "every document should be accepted");
    assert!(
        requests >= 2,
        "expected the byte cap to split into >= 2 requests, got {}",
        requests
    );
}

#[test]
fn groups_stay_under_the_cap_and_keep_every_document() {
    // Each document's lines take 40 bytes.
    let docs = || -> Vec<Document> {
        (0..5)
            .map(|i| doc(&i.to_string(), &format!("{{\"a\": {}}}", i)))
            .collect()
    };
    let sizes = |cap: Option<usize>| -> Vec<usize> {
        dest(OpenObserveOptions {
            max_batch_bytes: cap,
            ..Default::default()
        })
        .prepare(docs())
        .iter()
        .map(|c| c.docs.len())
        .collect()
    };
    assert_eq!(sizes(None), vec![5]);
    assert_eq!(sizes(Some(80)), vec![2, 2, 1]);
    assert_eq!(sizes(Some(79)), vec![1, 1, 1, 1, 1]);
    assert_eq!(sizes(Some(0)), vec![1, 1, 1, 1, 1]);
    let chunks = dest(OpenObserveOptions::default()).prepare(docs());
    assert!(chunks[0].body.starts_with(
        "{\"index\":{\"_index\":\"mystream\"}}\n{\"a\":0}\n{\"index\":{\"_index\":\"mystream\"}}\n"
    ));
    assert_eq!(chunks[0].body.len(), 5 * 40);
}

#[test]
fn gzip_sets_content_encoding_header() {
    let d = dest(OpenObserveOptions {
        compression: Compression::Gzip,
        ..Default::default()
    });
    let run = d.write_batch(vec![doc("1", r#"{"a": 1}"#)]);
    let sent = run.next_payload(Compression::Gzip).unwrap().unwrap();
    assert!(sent.gzip);
    assert_ne!(sent.bytes, run.chunks[0].body.as_bytes());
    assert_eq!(
        decompress(&sent.bytes, Codec::Gzip).unwrap(),
        run.chunks[0].body.as_bytes()
    );
    let plain = payload("x\u{e9}", Compression::Plain).unwrap();
    assert!(!plain.gzip);
    assert_eq!(plain.bytes, "x\u{e9}".as_bytes());
    let written = write(
        &d,
        vec![doc("1", r#"{"a": 1}"#)],
        200,
        r#"{"errors": false}"#,
    );
    assert_eq!(written.unwrap().0, 1);
}

#[test]
fn bulk_counts_only_accepted_on_partial_failure() {
    let d = dest(OpenObserveOptions::default());
    let (written, _) = write(
        &d,
        vec![doc("1", r#"{"a": 1}"#), doc("2", r#"{"a": 2}"#)],
        200,
        r#"{
            "errors": true,
            "items": [
                { "index": { "status": 200 } },
                { "index": { "status": 400, "error": { "reason": "bad" } } }
            ]
        }"#,
    )
    .unwrap();
    assert_eq!(written, 1);
}

#[test]
fn refusals_are_correlated_by_position() {
    let docs: Vec<RoutedDoc> = (0..6)
        .map(|i| RoutedDoc {
            stream: format!("s{}", i),
            doc: doc(&i.to_string(), &format!("{{\"n\": {}}}", i)),
        })
        .collect();
    let outcome = parse_response(
        r#"{"errors": true, "items": [
            {"index": {"status": 429, "error": "slow down"}},
            {"index": {"status": 201, "error": "ignored"}},
            {"index": {"error": {"type": "x"}}},
            {"create": {"status": 500}},
            {"index": {"status": -1}}
        ]}"#,
        &docs,
    );
    assert_eq!(outcome.accepted, 3);
    let seen: Vec<(String, String, String)> = outcome
        .rejected
        .iter()
        .map(|r| (r.stream.clone(), r.reason.clone(), r.body.to_text()))
        .collect();
    let want = |a: &str, b: &str, c: &str| (a.to_string(), b.to_string(), c.to_string());
    assert_eq!(
        seen,
        vec![
            want("s0", "slow down", r#"{"n":0}"#),
            want("s2", r#"{"type":"x"}"#, r#"{"n":2}"#),
            want("s4", "no reason given", r#"{"n":4}"#),
        ]
    );
    for body in ["", "{}", r#"{"errors": false, "items": [{"index": {"status": 400}}]}"#] {
        assert_eq!(parse_response(body, &docs).accepted, 6);
    }
}

#[test]
fn bulk_returns_accepted_count_on_success() {
    let d = dest(OpenObserveOptions::default());
    let (written, _) = write(
        &d,
        vec![doc("1", r#"{"a": 1}"#), doc("2", r#"{"a": 2}"#)],
        200,
        r#"{"errors": false}"#,
    )
    .unwrap();
    assert_eq!(written, 2);
}

#[test]
fn bulk_error_propagates_status_and_body() {
    let err = write(
        &dest(OpenObserveOptions::default()),
        vec![doc("1", r#"{"a": 1}"#)],
        500,
        "ingest-down",
    )
    .err()
    .unwrap();
    let msg = err.message();
    assert!(msg.contains("500"), "status missing from error: {msg}");
    assert!(
        msg.contains("ingest-down"),
        "body missing from error: {msg}"
    );
    assert!(matches!(err, EsiftError::Transient(_)));
    assert_eq!(
        msg,
        "Transient error: OpenObserve bulk failed: HTTP 500 Internal Server Error — ingest-down"
    );
}

#[test]
fn statuses_are_classified() {
    assert!(classify(200, "").is_none());
    assert!(classify(299, "").is_none());
    assert!(matches!(classify(429, ""), Some(EsiftError::Transient(_))));
    assert!(matches!(classify(599, ""), Some(EsiftError::Transient(_))));
    assert!(matches!(classify(600, ""), Some(EsiftError::Destination(_))));
    assert_eq!(
        classify(401, "who?").unwrap().message(),
        "Destination error: OpenObserve bulk failed: HTTP 401 Unauthorized — who?"
    );
}

#[test]
fn empty_batch_is_a_noop() {
    let d = OpenObserveDestination::new(
        "http://unused.invalid",
        "default",
        "s",
        "u",
        "p",
        OpenObserveOptions::default(),
    )
    .unwrap();
    let run = d.write_batch(vec![]);
    assert!(run.next_payload(Compression::Plain).unwrap().is_none());
    assert_eq!(run.report(&d.options).accepted, 0);
}

#[test]
fn bulk_endpoint_names_the_organization() {
    let d = OpenObserveDestination::new(
        "http://oo:5080",
        "org",
        "s",
        "u",
        "p",
        OpenObserveOptions::default(),
    )
    .unwrap();
    assert_eq!(d.bulk_url, "http://oo:5080/api/org/_bulk");
    assert_eq!(
        d.description(),
        "OpenObserve http://oo:5080/api/org/_bulk stream=s"
    );
}

#[test]
fn every_submitted_document_is_accounted_for() {
    let d = dest(OpenObserveOptions {
        max_batch_bytes: Some(90),
        dead_letter_path: Some("dl.ndjson".into()),
        timestamp_field: Some("t".into()),
        ..Default::default()
    });
    let docs: Vec<Document> = (0..5).map(|i| doc(&i.to_string(), "{}")).collect();
    let mut run = d.write_batch(docs);
    assert_eq!(run.chunks.len(), 3);
    let answers = [
        r#"{"errors": true, "items": [{"index": {"status": 400}}]}"#,
        r#"{"errors": false}"#,
        r#"{"errors": true, "items": [{"index": {"status": 409, "error": "taken"}}]}"#,
    ];
    for a in answers {
        assert!(run.on_response(200, a).is_none());
    }
    assert_eq!(run.outcome.accepted + run.outcome.rejected.len(), run.submitted);
    let report = run.report(&d.options);
    assert_eq!(report.accepted, 3);
    let letter = report.dead_letter.unwrap();
    assert_eq!(letter.path, "dl.ndjson");
    assert_eq!(
        letter.text,
        "{\"body\":{},\"reason\":\"no reason given\",\"stream\":\"mystream\"}\n\
         {\"body\":{},\"reason\":\"taken\",\"stream\":\"mystream\"}\n"
    );
}

#[test]
fn a_failed_request_leaves_the_run_as_it_was() {
    let d = dest(OpenObserveOptions::default());
    let mut run = d.write_batch(vec![doc("1", "{}")]);
    assert!(run.on_response(503, "").is_some());
    assert_eq!(run.at, 0);
    assert!(run.next_payload(Compression::Plain).unwrap().is_some());
    assert!(run.on_response(200, "").is_none());
    assert_eq!(run.report(&d.options).accepted, 1);
}

#[test]
fn outcomes_merge() {
    let mut total = BulkOutcome::default();
    for n in 1..4 {
        total.merge(BulkOutcome {
            accepted: n,
            rejected: vec![RejectedDoc {
                stream: "s".into(),
                reason: n.to_string(),
                body: Json::Null,
            }],
        });
    }
    assert_eq!(total.accepted, 6);
    let reasons: Vec<&str> = total.rejected.iter().map(|r| r.reason.as_str()).collect();
    assert_eq!(reasons, vec!["1", "2", "3"]);
}

fn options_with(timestamp_field: Option<&str>) -> OpenObserveOptions {
    OpenObserveOptions {
        timestamp_field: timestamp_field.map(str::to_string),
        ..Default::default()
    }
}

#[test]
fn copies_field_into_timestamp_and_keeps_source() {
    let mut doc = Document::new("idx", "1", j(r#"{"created_at": "2024-01-01"}"#));
    apply(&mut doc, &options_with(Some("created_at")));
    assert_eq!(
        doc.body.get("_timestamp").unwrap().as_str(),
        Some("2024-01-01")
    );
    assert_eq!(
        doc.body.get("created_at").unwrap().as_str(),
        Some("2024-01-01")
    );
}

#[test]
fn non_object_body_is_unchanged() {
    let mut doc = Document::new("idx", "1", j("[1, 2, 3]"));
    apply(&mut doc, &options_with(Some("created_at")));
    assert_eq!(doc.body.to_text(), "[1,2,3]");
}

#[test]
fn no_timestamp_field_is_unchanged() {
    let mut doc = Document::new("idx", "1", j(r#"{"created_at": "2024-01-01"}"#));
    apply(&mut doc, &options_with(None));
    assert_eq!(doc.body.to_text(), r#"{"created_at":"2024-01-01"}"#);
}

#[test]
fn missing_source_field_is_unchanged() {
    let mut doc = Document::new("idx", "1", j(r#"{"other": "x"}"#));
    apply(&mut doc, &options_with(Some("created_at")));
    assert_eq!(doc.body.to_text(), r#"{"other":"x"}"#);
}

#[test]
fn writes_one_ndjson_line_per_rejected_doc() {
    let options = OpenObserveOptions {
        dead_letter_path: Some("dead-letter.ndjson".to_string()),
        ..Default::default()
    };
    let rejected = vec![
        RejectedDoc {
            stream: "logs".to_string(),
            reason: "mapper_parsing_exception".to_string(),
            body: j(r#"{"id": 1, "msg": "first"}"#),
        },
        RejectedDoc {
            stream: "metrics".to_string(),
            reason: "version_conflict".to_string(),
            body: j(r#"{"id": 2, "msg": "second"}"#),
        },
    ];
    let contents = deadletter::write(&options, &rejected).unwrap().text;
    let lines: Vec<&str> = contents.lines().collect();
    assert_eq!(lines.len(), 2);
    assert!(contents.contains("\"stream\":\"logs\""));
    assert!(contents.contains("\"reason\":\"version_conflict\""));

    // Each line must be valid JSON carrying the three expected fields.
    let first = j(lines[0]);
    assert_eq!(first.get("stream").unwrap().as_str(), Some("logs"));
    assert_eq!(
        first.get("reason").unwrap().as_str(),
        Some("mapper_parsing_exception")
    );
    assert_eq!(
        first.get("body").unwrap().get("msg").unwrap().as_str(),
        Some("first")
    );
}

#[test]
fn no_path_is_a_noop() {
    let options = OpenObserveOptions::default();
    let rejected = vec![RejectedDoc {
        stream: "logs".to_string(),
        reason: "boom".to_string(),
        body: j(r#"{"id": 1}"#),
    }];
    assert!(deadletter::write(&options, &rejected).is_none());
}

#[test]
fn documents_go_to_the_configured_stream() {
    assert_eq!(stream_for("mystream"), "mystream");
}
