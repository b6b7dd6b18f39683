use esift::error::EsiftError;
use esift::json::{parse, Json};
use esift::source::datadog::archive::{
    azure_container_url, azure_credential, documents_in, gcs_bucket_path, iso_hour_bucket,
    key_hour_bucket, next_page, AzureCredential, CloudProvider, Compression, DatadogArchiveSource,
};
use esift::source::datadog::decompress::{decompress, Codec};
use esift::Document;
use flate2::write::GzEncoder;
use std::collections::BTreeMap;
use std::io::Write;

fn j(text: &str) -> Json {
    parse(text).unwrap()
}

fn gzip(ndjson: &str) -> Vec<u8> {
    let mut enc = GzEncoder::new(Vec::new(), flate2::Compression::default());
    enc.write_all(ndjson.as_bytes()).unwrap();
    enc.finish().unwrap()
}

type Store = BTreeMap<String, Vec<u8>>;

fn run(src: &mut DatadogArchiveSource, store: &Store) -> Result<Vec<Document>, EsiftError> {
    let mut keys: Vec<String> = store
        .keys()
        .filter(|k| k.starts_with(src.prefix.as_str()))
        .cloned()
        .collect();
    keys.reverse();
    src.open_with_keys(&keys);
    let mut all = Vec::new();
    loop {
        match src.next_object()? {
            None => return Ok(all),
            Some((key, _)) => match src.on_object(&store[&key]).map_err(|u| u.error)? {
                Some(docs) => all.extend(docs),
                None => return Ok(all),
            },
        }
    }
}

/// Two small gzip NDJSON files under a dated prefix.
fn seed_store() -> Store {
    let f1 = "\
{\"host\":\"h1\",\"service\":\"web\",\"attributes\":{\"status\":\"info\"}}
{\"host\":\"h2\",\"attributes\":{\"attributes\":{\"user_id\":\"u7\"}}}
";
    let f2 = "{\"host\":\"h3\",\"service\":\"db\"}\n\n";
    let mut objects = BTreeMap::new();
    objects.insert("dd/2026/06/19/00/00_first.json.gz".to_string(), gzip(f1));
    objects.insert("dd/2026/06/19/00/01_second.json.gz".to_string(), gzip(f2));
    objects
}

fn new_source(resume_after: Option<Vec<Json>>) -> DatadogArchiveSource {
    DatadogArchiveSource::new(
        "my-bucket",
        "dd/2026/06/19/",
        Some("us-east-1".to_string()),
        None,
        None,
        Compression::Auto,
        resume_after,
    )
    .unwrap()
}

#[test]
fn lists_decodes_and_flattens_all_files() {
    let store = seed_store();
    let mut src = new_source(None);
    let docs = run(&mut src, &store).unwrap();
    assert_eq!(docs.len(), 3);
    assert!(docs.iter().all(|d| d.index == "datadog"));
    assert_eq!(docs[0].id, "dd/2026/06/19/00/00_first.json.gz#0");
    assert_eq!(docs[1].id, "dd/2026/06/19/00/00_first.json.gz#1");
    assert_eq!(docs[2].id, "dd/2026/06/19/00/01_second.json.gz#0");
    assert_eq!(
        docs[0].body.to_text(),
        r#"{"host":"h1","service":"web","status":"info"}"#
    );
    assert_eq!(docs[1].body.to_text(), r#"{"host":"h2","user_id":"u7"}"#);
    assert_eq!(docs[2].body.to_text(), r#"{"host":"h3","service":"db"}"#);
}

#[test]
fn cursor_tracks_last_key_and_count() {
    let store = seed_store();
    let mut src = new_source(None);
    let start = src.cursor().unwrap();
    assert_eq!(
        start[0].to_text(),
        r#"{"dd_archive":{"files_done":0,"last_key":null}}"#
    );
    run(&mut src, &store).unwrap();
    let end = src.cursor().unwrap();
    assert_eq!(
        end[0].to_text(),
        r#"{"dd_archive":{"files_done":2,"last_key":"dd/2026/06/19/00/01_second.json.gz"}}"#
    );
}

#[test]
fn resume_blob_skips_processed_keys() {
    let store = seed_store();
    let resume = Some(vec![j(r#"{"dd_archive": {
        "last_key": "dd/2026/06/19/00/00_first.json.gz",
        "files_done": 1
    }}"#)]);
    let mut src = new_source(resume);
    let docs = run(&mut src, &store).unwrap();
    assert_eq!(docs.len(), 1);
    assert_eq!(docs[0].id, "dd/2026/06/19/00/01_second.json.gz#0");
    let end = src.cursor().unwrap();
    assert_eq!(
        end[0].to_text(),
        r#"{"dd_archive":{"files_done":2,"last_key":"dd/2026/06/19/00/01_second.json.gz"}}"#
    );
}

#[test]
fn reopening_with_the_cursor_takes_the_rest() {
    let store = seed_store();
    let mut src = new_source(None);
    let keys: Vec<String> = store.keys().cloned().collect();
    src.open_with_keys(&keys);
    src.on_object(&store[&keys[0]]).unwrap().unwrap();
    let mut again = new_source(src.cursor());
    again.open_with_keys(&keys);
    assert_eq!(again.state.keys, keys[1..].to_vec());
    assert_eq!(again.state.files_done, 1);
}

#[test]
fn interrupted_runs_give_what_one_run_gives() {
    let store = seed_hourly_store();
    let keys: Vec<String> = store.keys().cloned().collect();
    let mut whole = new_source(None);
    let all: Vec<String> = run(&mut whole, &store)
        .unwrap()
        .iter()
        .map(|d| format!("{} {}", d.id, d.body.to_text()))
        .collect();
    assert_eq!(all.len(), 4);
    for stop in 0..=keys.len() {
        let mut first = new_source(None);
        first.open_with_keys(&keys);
        let mut docs = Vec::new();
        for _ in 0..stop {
            let (key, _) = first.next_object().unwrap().unwrap();
            let batch = first.on_object(&store[&key]).map_err(|u| u.error).unwrap();
            docs.extend(batch.unwrap());
        }
        let mut second = new_source(first.cursor());
        docs.extend(run(&mut second, &store).unwrap());
        let got: Vec<String> = docs
            .iter()
            .map(|d| format!("{} {}", d.id, d.body.to_text()))
            .collect();
        assert_eq!(got, all);
        assert_eq!(
            second.cursor().unwrap()[0].to_text(),
            whole.cursor().unwrap()[0].to_text()
        );
    }
}

#[test]
fn next_batch_returns_one_file_per_call() {
    let store = seed_store();
    let mut src = new_source(None);
    let keys: Vec<String> = store.keys().cloned().collect();
    src.open_with_keys(&keys);
    let first = src.on_object(&store[&keys[0]]).unwrap().unwrap();
    assert_eq!(first.len(), 2);
    let second = src.on_object(&store[&keys[1]]).unwrap().unwrap();
    assert_eq!(second.len(), 1);
    assert!(src.next_object().unwrap().is_none());
    assert!(src.on_object(&[]).unwrap().is_none());
}

fn seed_hourly_store() -> Store {
    let mut objects = BTreeMap::new();
    for (key, host) in [
        ("dd/2026/06/19/00/00_h0.json.gz", "h0"),
        ("dd/2026/06/19/01/00_h1.json.gz", "h1"),
        ("dd/2026/06/19/02/00_h2.json.gz", "h2"),
        ("dd/2026/06/19/weird/00_x.json.gz", "hx"),
    ] {
        objects.insert(
            key.to_string(),
            gzip(&format!("{{\"host\":\"{}\"}}\n", host)),
        );
    }
    objects
}

fn hosts_in_range(from: Option<&str>, to: Option<&str>) -> Vec<String> {
    let mut src = DatadogArchiveSource::new(
        "my-bucket",
        "dd/",
        None,
        from.map(|s| s.to_string()),
        to.map(|s| s.to_string()),
        Compression::Auto,
        None,
    )
    .unwrap();
    run(&mut src, &seed_hourly_store())
        .unwrap()
        .iter()
        .map(|d| d.body.get("host").unwrap().as_str().unwrap().to_string())
        .collect()
}

#[test]
fn from_filters_out_earlier_hours() {
    assert_eq!(
        hosts_in_range(Some("2026-06-19T01:30:00Z"), None),
        vec!["h1", "h2", "hx"]
    );
}

#[test]
fn to_filters_out_later_hours() {
    assert_eq!(
        hosts_in_range(None, Some("2026-06-19T01:15:00Z")),
        vec!["h0", "h1", "hx"]
    );
}

#[test]
fn from_and_to_bound_a_single_hour() {
    assert_eq!(
        hosts_in_range(Some("2026-06-19T01:00:00Z"), Some("2026-06-19T01:59:59Z")),
        vec!["h1", "hx"]
    );
}

#[test]
fn unparseable_date_key_is_kept() {
    assert_eq!(
        hosts_in_range(Some("2026-06-20T00:00:00Z"), Some("2026-06-20T23:00:00Z")),
        vec!["hx"]
    );
}

#[test]
fn unreadable_bounds_filter_nothing() {
    assert_eq!(
        hosts_in_range(Some("soon"), Some("20é6-06-19T01")),
        vec!["h0", "h1", "h2", "hx"]
    );
}

#[test]
fn fixed_compression_overrides_suffix_inference() {
    let mut store = BTreeMap::new();
    store.insert(
        "dd/2026/06/19/00/plainname".to_string(),
        gzip("{\"host\":\"h9\"}\n"),
    );
    let mut src = DatadogArchiveSource::new(
        "my-bucket",
        "dd/2026/06/19/",
        None,
        None,
        None,
        Compression::Fixed(Codec::Gzip),
        None,
    )
    .unwrap();
    let docs = run(&mut src, &store).unwrap();
    assert_eq!(docs.len(), 1);
    assert_eq!(docs[0].body.to_text(), r#"{"host":"h9"}"#);
}

#[test]
fn objects_that_cannot_be_read_are_reported() {
    let mut src = new_source(None);
    assert_eq!(
        src.next_object().err().unwrap().message(),
        "Source error: Datadog archive source used before open()"
    );
    src.open_with_keys(&vec!["dd/2026/06/19/00/x.txt".to_string()]);
    assert_eq!(
        src.on_object(&[]).err().unwrap().error.message(),
        "Source error: cannot infer compression codec from key dd/2026/06/19/00/x.txt \
         (expected .zst/.gz); set an explicit compression"
    );
    src.open_with_keys(&vec!["k.gz".to_string()]);
    let unread = src.on_object(b"not gzip").err().unwrap();
    assert!(!unread.bad_line);
    let err = unread.error.message();
    assert!(err.starts_with("Source error: gzip decode failed: "), "{}", err);
    assert_eq!(src.state.pos, 0);

    let mut enc = GzEncoder::new(Vec::new(), flate2::Compression::default());
    enc.write_all(&[0xff, 0xfe]).unwrap();
    let unread = src.on_object(&enc.finish().unwrap()).err().unwrap();
    assert!(!unread.bad_line);
    let err = unread.error.message();
    assert!(
        err.starts_with("Source error: archive k.gz is not valid UTF-8: "),
        "{}",
        err
    );

    let unread = src.on_object(&gzip("{}\n \n{bad\n")).err().unwrap();
    assert!(unread.bad_line);
    let err = documents_in("k.gz", "{}\n \n{bad\n").err().unwrap().message();
    assert!(
        err.starts_with("Source error: invalid JSON in k.gz line 2: "),
        "{}",
        err
    );
    assert_eq!(unread.error.message(), err);
    let docs = documents_in("k.gz", "{}\n \n{\"a\":1}").unwrap();
    assert_eq!(docs[1].id, "k.gz#2");
}

#[test]
fn hours_are_read_from_keys_and_timestamps() {
    assert_eq!(
        key_hour_bucket("dd", "dd/2026/06/19/01/00_a.zst"),
        Some((2026, 6, 19, 1))
    );
    assert_eq!(
        key_hour_bucket("dd/", "dd/2026/06/19/01/00_a.zst"),
        Some((2026, 6, 19, 1))
    );
    assert_eq!(key_hour_bucket("dd/", "dd/2026/6/19/01/x"), None);
    assert_eq!(key_hour_bucket("dd/", "dd/2026/06/19"), None);
    assert_eq!(key_hour_bucket("ee/", "dd/2026/06/19/01/x"), None);
    assert_eq!(
        iso_hour_bucket("2025-01-02T03"),
        Some((2025, 1, 2, 3))
    );
    assert_eq!(iso_hour_bucket("2025-01-02T0"), None);
    assert_eq!(iso_hour_bucket("2025-xx-02T03"), None);
}

#[test]
fn parses_known_providers_case_insensitively() {
    assert_eq!(CloudProvider::parse("s3").unwrap(), CloudProvider::S3);
    assert_eq!(CloudProvider::parse("S3").unwrap(), CloudProvider::S3);
    assert_eq!(CloudProvider::parse("gcs").unwrap(), CloudProvider::Gcs);
    assert_eq!(CloudProvider::parse("GCS").unwrap(), CloudProvider::Gcs);
    assert_eq!(CloudProvider::parse("azure").unwrap(), CloudProvider::Azure);
    assert_eq!(
        CloudProvider::parse(" Azure ").unwrap(),
        CloudProvider::Azure
    );
}

#[test]
fn empty_and_default_are_s3() {
    assert_eq!(CloudProvider::parse("").unwrap(), CloudProvider::S3);
    assert_eq!(CloudProvider::default(), CloudProvider::S3);
}

#[test]
fn unknown_provider_errors() {
    let err = CloudProvider::parse("gcp").unwrap_err();
    let msg = err.message();
    assert!(
        msg.contains("gcp"),
        "error should name the bad value: {msg}"
    );
    assert!(
        msg.contains("s3") && msg.contains("gcs") && msg.contains("azure"),
        "error should list the valid values: {msg}"
    );
}

#[test]
fn as_str_roundtrips() {
    for c in [CloudProvider::S3, CloudProvider::Gcs, CloudProvider::Azure] {
        assert_eq!(CloudProvider::parse(c.as_str()).unwrap(), c);
    }
}

#[test]
fn with_cloud_is_reflected_in_description() {
    let src = DatadogArchiveSource::new("b", "p", None, None, None, Compression::Auto, None)
        .unwrap()
        .with_cloud(CloudProvider::Gcs);
    assert!(src.description().contains("cloud=gcs"));
    assert_eq!(
        src.description(),
        "Datadog archive cloud=gcs bucket=b prefix=p"
    );
}

#[test]
fn codec_from_key_matches_suffixes() {
    assert_eq!(Codec::from_key("a/b/0_x.json.zst"), Some(Codec::Zstd));
    assert_eq!(Codec::from_key("a/b/0_x.json.gz"), Some(Codec::Gzip));
    assert_eq!(Codec::from_key("a/b/0_x.JSON.ZST"), Some(Codec::Zstd));
    assert_eq!(Codec::from_key("a/b/0_x.json"), None);
    assert_eq!(Codec::from_key("x.zstd"), Some(Codec::Zstd));
    assert_eq!(Codec::from_key("x.GZIP"), Some(Codec::Gzip));
}

#[test]
fn gzip_round_trips() {
    let payload = b"{\"a\":1}\n{\"b\":2}\n";
    let mut enc = GzEncoder::new(Vec::new(), flate2::Compression::default());
    enc.write_all(payload).unwrap();
    let compressed = enc.finish().unwrap();
    let decoded = decompress(&compressed, Codec::Gzip).unwrap();
    assert_eq!(decoded, payload);
}

#[test]
fn zstd_round_trips() {
    let payload = b"{\"a\":1}\n{\"b\":2}\n";
    let compressed = zstd::stream::encode_all(&payload[..], 0).unwrap();
    let decoded = decompress(&compressed, Codec::Zstd).unwrap();
    assert_eq!(decoded, payload);
}

#[test]
fn wrong_codecs_are_reported() {
    let compressed = zstd::stream::encode_all(&b"x"[..], 0).unwrap();
    assert!(decompress(&compressed, Codec::Gzip)
        .unwrap_err()
        .message()
        .starts_with("Source error: gzip decode failed: "));
    assert!(decompress(b"plain", Codec::Zstd)
        .unwrap_err()
        .message()
        .starts_with("Source error: zstd decode failed: "));
}

#[test]
fn backends_are_located() {
    assert_eq!(gcs_bucket_path("b"), "projects/_/buckets/b");
    assert_eq!(next_page(Some(true), Some("t".into())), Some("t".into()));
    assert_eq!(next_page(Some(false), Some("t".into())), None);
    assert_eq!(next_page(None, Some("t".into())), None);
    assert_eq!(
        azure_container_url(&Some("https://e.example//".into()), &None, "c").unwrap(),
        "https://e.example/c"
    );
    assert_eq!(
        azure_container_url(&None, &Some("acct".into()), "c").unwrap(),
        "https://acct.blob.core.windows.net/c"
    );
    assert!(azure_container_url(&None, &None, "c")
        .unwrap_err()
        .message()
        .contains("AZURE_STORAGE_ACCOUNT"));
    assert!(azure_container_url(&Some("nowhere".into()), &None, "c")
        .unwrap_err()
        .message()
        .starts_with("Source error: invalid Azure container URL: "));
    let some = |s: &str| Some(s.to_string());
    assert!(matches!(
        azure_credential(true, some("t"), some("c"), some("s")),
        AzureCredential::Workload
    ));
    assert!(matches!(
        azure_credential(false, some("t"), some("c"), some("s")),
        AzureCredential::Secret { tenant, client, secret }
            if tenant == "t" && client == "c" && secret == "s"
    ));
    assert!(matches!(
        azure_credential(false, some("t"), None, some("s")),
        AzureCredential::DeveloperTools
    ));
}
