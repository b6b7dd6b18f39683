use esift::dest::file::FileDestination;
use esift::dest::s3::S3Destination;
use esift::dest::stdout::StdoutDestination;
use esift::error::EsiftError;
use esift::json::{parse, Json};
use esift::metrics::Metrics;
use esift::metrics_server::response;
use esift::source::file::FileSource;
use esift::Document;

fn j(text: &str) -> Json {
    parse(text).unwrap()
}

fn docs() -> Vec<Document> {
    vec![
        Document::new("logs", "1", j(r#"{"id": 1, "msg": "first"}"#)),
        Document::new("logs", "2", j(r#"{"id": 2, "msg": "sec\nond"}"#)),
    ]
}

#[test]
fn construction_succeeds() {
    let dest = S3Destination::new("my-bucket", "exports/", Some("us-east-1".to_string()));
    assert!(dest.is_ok());
}

#[test]
fn object_keys_never_collide() {
    let mut dest = S3Destination::new("my-bucket", "exports/", None).unwrap();
    let mut keys = Vec::new();
    for _ in 0..12 {
        keys.push(dest.next_object(&docs()).key);
    }
    assert_eq!(keys[0], "exports/0.ndjson");
    assert_eq!(keys[11], "exports/11.ndjson");
    keys.sort();
    keys.dedup();
    assert_eq!(keys.len(), 12);
    assert_eq!(
        dest.next_object(&docs()).body,
        "{\"id\":1,\"msg\":\"first\"}\n{\"id\":2,\"msg\":\"sec\\nond\"}\n"
    );
}

#[test]
fn destinations_describe_themselves() {
    let s3 = |region: Option<&str>| {
        S3Destination::new("b", "p/", region.map(|r| r.to_string()))
            .unwrap()
            .description()
    };
    assert_eq!(s3(None), "S3 bucket=b prefix=p/ region=None");
    assert_eq!(
        s3(Some("a\"b")),
        "S3 bucket=b prefix=p/ region=Some(\"a\\\"b\")"
    );
    assert_eq!(StdoutDestination.description(), "stdout (NDJSON)");
    assert_eq!(
        FileDestination::new("out.ndjson").unwrap().description(),
        "File out.ndjson"
    );
}

#[test]
fn writes_one_ndjson_line_per_doc() {
    let contents = FileDestination::new("out.ndjson")
        .unwrap()
        .batch_text(&docs());
    let lines: Vec<&str> = contents.lines().collect();
    assert_eq!(lines.len(), 2);
    assert_eq!(j(lines[0]).get("msg").unwrap().as_str(), Some("first"));
    assert_eq!(j(lines[1]).get("id").unwrap().as_u64(), Some(2));
    assert!(contents.ends_with('\n'));
    assert_eq!(FileDestination::new("x").unwrap().batch_text(&vec![]), "");
}

#[test]
fn stdout_lines_carry_index_and_id() {
    assert_eq!(
        StdoutDestination.line(&docs()[0]),
        r#"{"_id":"1","_index":"logs","_source":{"id":1,"msg":"first"}}"#
    );
}

#[test]
fn file_source_cannot_be_opened() {
    let s = FileSource::new("in.ndjson").unwrap();
    assert_eq!(s.description(), "File in.ndjson");
    assert_eq!(
        s.open().unwrap_err().message(),
        "Source error: file source is not yet implemented"
    );
}

#[test]
fn errors_are_labelled() {
    let text = |e: EsiftError| e.message();
    assert_eq!(text(EsiftError::Source("x".into())), "Source error: x");
    assert_eq!(
        text(EsiftError::Destination("x".into())),
        "Destination error: x"
    );
    assert_eq!(text(EsiftError::Transient("x".into())), "Transient error: x");
    assert_eq!(text(EsiftError::Http("x".into())), "HTTP error: x");
    assert_eq!(text(EsiftError::Json("x".into())), "JSON error: x");
    assert_eq!(text(EsiftError::Io("x".into())), "IO error: x");
    assert_eq!(
        text(EsiftError::Checkpoint("x".into())),
        "Checkpoint error: x"
    );
    assert_eq!(
        text(EsiftError::Config("x".into())),
        "Configuration error: x"
    );
}

#[test]
fn metrics_count_batches_and_errors() {
    let mut m = Metrics::default();
    assert_eq!(m.snapshot(), (0, 0, 0));
    m.record_batch(10);
    m.record_batch(5);
    m.record_error();
    assert_eq!(m.snapshot(), (15, 2, 1));
    m.docs_written = u64::MAX;
    m.record_batch(2);
    assert_eq!(m.snapshot(), (1, 3, 1));
}

#[test]
fn metrics_responses_count_bytes() {
    assert_eq!(
        response("caf\u{e9} 1\n"),
        "HTTP/1.1 200 OK\r\nContent-Type: text/plain; version=0.0.4\r\nContent-Length: 8\r\n\
         Connection: close\r\n\r\ncaf\u{e9} 1\n"
    );
}
