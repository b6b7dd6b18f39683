use esift::error::EsiftError;
use esift::http::read_json;
use esift::json::{parse, Json};
use esift::source::datadog::api::{
    build_windows, decode_resume, judge, rate_limit_wait, search_failed, windows_fit,
    DatadogApiSource, Verdict, Window,
};
use esift::source::datadog::site::base_url;
use esift::Document;
use std::collections::HashSet;

fn j(text: &str) -> Json {
    parse(text).unwrap()
}

fn source(from: &str, to: &str, resume: Option<Vec<Json>>) -> DatadogApiSource {
    DatadogApiSource::new(
        "datadoghq.com",
        "key",
        "app",
        "service:web",
        Some(from.to_string()),
        Some(to.to_string()),
        60,
        resume,
    )
    .unwrap()
}

#[test]
fn build_windows_chunks_contiguously() {
    let from = Some("2025-01-01T00:00:00Z".to_string());
    let to = Some("2025-01-01T02:30:00Z".to_string());
    let windows = build_windows(&from, &to, 60);
    assert_eq!(windows.len(), 3);
    // Boundaries are contiguous and edges preserved exactly.
    assert_eq!(windows[0].from.as_deref(), Some("2025-01-01T00:00:00Z"));
    assert_eq!(windows[0].to.as_deref(), Some("2025-01-01T01:00:00Z"));
    assert_eq!(windows[1].from.as_deref(), Some("2025-01-01T01:00:00Z"));
    assert_eq!(windows[1].to.as_deref(), Some("2025-01-01T02:00:00Z"));
    assert_eq!(windows[2].from.as_deref(), Some("2025-01-01T02:00:00Z"));
    assert_eq!(windows[2].to.as_deref(), Some("2025-01-01T02:30:00Z"));
}

#[test]
fn build_windows_single_when_unbounded() {
    let windows = build_windows(&None, &Some("2025-01-01T00:00:00Z".into()), 60);
    assert_eq!(windows.len(), 1);
}

#[test]
fn ranges_that_cannot_be_chunked_stay_whole() {
    let from = Some("2025-01-01T00:00:00Z".to_string());
    let to = Some("2025-01-01T02:30:00Z".to_string());
    let odd = Some("yesterday".to_string());
    for (f, t, minutes) in [
        (&from, &to, 0),
        (&to, &from, 60),
        (&from, &from, 60),
        (&odd, &to, 60),
        (&from, &None, 60),
    ] {
        let windows = build_windows(f, t, minutes);
        assert_eq!(windows.len(), 1);
        assert_eq!(windows[0].from, *f);
        assert_eq!(windows[0].to, *t);
    }
}

#[test]
fn windows_keep_the_texts_of_their_outer_bounds() {
    let from = Some("2025-01-01T01:00:00.5+01:00".to_string());
    let to = Some("2025-01-01 02:00:00".to_string());
    let windows = build_windows(&from, &to, 90);
    assert_eq!(windows.len(), 2);
    assert_eq!(windows[0].from, from);
    assert_eq!(windows[0].to.as_deref(), Some("2025-01-01T01:30:00Z"));
    assert_eq!(windows[1].to, to);
    assert!(windows_fit(&from, &to, 90));
    assert!(!windows_fit(&from, &to, u64::MAX));
    assert!(windows_fit(&None, &to, u64::MAX));
}

#[test]
fn resume_cursor_round_trips() {
    let src = DatadogApiSource::new(
        "datadoghq.com",
        "k",
        "a",
        "*",
        Some("2025-01-01T00:00:00Z".into()),
        Some("2025-01-01T01:00:00Z".into()),
        60,
        None,
    )
    .unwrap();
    let _ = src.cursor();
    let blob = vec![j(r#"{"dd_api": {
        "win_from": "2025-01-01T00:00:00Z",
        "win_to": "2025-01-01T01:00:00Z",
        "after": "CUR9",
        "windows_done": 2
    }}"#)];
    let (decoded_win, after, done) = decode_resume(&blob).unwrap();
    assert_eq!(decoded_win.from.as_deref(), Some("2025-01-01T00:00:00Z"));
    assert_eq!(after.as_deref(), Some("CUR9"));
    assert_eq!(done, 2);
    assert_eq!(decoded_win.to.as_deref(), Some("2025-01-01T01:00:00Z"));
}

#[test]
fn foreign_blobs_are_not_decoded() {
    assert!(decode_resume(&vec![]).is_none());
    assert!(decode_resume(&vec![j(r#"{"dd_archive": {}}"#)]).is_none());
    assert!(decode_resume(&vec![j(r#"{"dd_api": 3}"#)]).is_none());
    let (w, after, done) = decode_resume(&vec![j(r#"{"dd_api": {"windows_done": -1}}"#)]).unwrap();
    assert!(w.same(&Window {
        from: None,
        to: None
    }));
    assert!(after.is_none());
    assert_eq!(done, 0);
}

/// Two-page pagination within a single window: first page carries a cursor,
/// second page has `meta.page.after: null`, draining the window.
#[test]
fn two_page_pagination_single_window() {
    let mut src = source("2025-01-01T00:00:00Z", "2025-01-01T00:30:00Z", None)
        .with_base_url("http://mock");
    src.open().unwrap();
    assert_eq!(
        src.search_url().unwrap(),
        "http://mock/api/v2/logs/events/search"
    );

    let body = src.next_request().unwrap();
    assert_eq!(
        body.to_text(),
        j(r#"{
            "filter": {
                "query": "service:web",
                "from": "2025-01-01T00:00:00Z",
                "to": "2025-01-01T00:30:00Z"
            },
            "page": { "limit": 1000 }
        }"#)
        .to_text()
    );
    let first = src
        .on_page(&j(r#"{
            "data": [
                { "id": "a1", "type": "log", "attributes": { "message": "one",
                    "attributes": { "k": 1 } } },
                { "id": "a2", "type": "log", "attributes": { "message": "two",
                    "attributes": { "k": 2 } } }
            ],
            "meta": { "page": { "after": "CUR1" } }
        }"#))
        .unwrap();

    let body = src.next_request().unwrap();
    assert_eq!(
        body.get("page").unwrap().to_text(),
        r#"{"cursor":"CUR1","limit":1000}"#
    );
    let second = src
        .on_page(&j(r#"{
            "data": [
                { "id": "a3", "type": "log", "attributes": { "message": "three",
                    "attributes": { "k": 3 } } }
            ],
            "meta": { "page": { "after": null } }
        }"#))
        .unwrap();

    let mut ids = Vec::new();
    for d in first.into_iter().chain(second) {
        assert_eq!(d.index, "datadog");
        assert!(d.body.get("message").is_some());
        assert!(d.body.get("k").is_some());
        ids.push(d.id);
    }
    assert_eq!(ids, vec!["a1", "a2", "a3"]);
    // Window drained, run exhausted, and it stays so.
    assert!(src.next_request().is_none());
    assert!(src.next_request().is_none());
}

#[test]
fn empty_windows_are_passed_over() {
    let mut src = source("2025-01-01T00:00:00Z", "2025-01-01T02:00:00Z", None);
    src.open().unwrap();
    assert_eq!(src.windows.len(), 2);
    assert!(src.on_page(&j(r#"{"data": []}"#)).is_none());
    let body = src.next_request().unwrap();
    assert_eq!(
        body.get("filter").unwrap().get("from").unwrap().as_str(),
        Some("2025-01-01T01:00:00Z")
    );
    assert!(src.on_page(&j("{}")).is_none());
    assert!(src.next_request().is_none());
    assert_eq!(src.windows_done, 2);
}

#[test]
fn events_without_an_id_take_the_one_of_their_body() {
    let mut src = source("2025-01-01T00:00:00Z", "2025-01-01T01:00:00Z", None);
    src.open().unwrap();
    let docs = src
        .on_page(&j(r#"{"data": [
            {"attributes": {"id": "inner"}},
            {"id": "", "attributes": {}},
            7
        ]}"#))
        .unwrap();
    assert_eq!(docs[0].id, "inner");
    assert_eq!(docs[1].id, "");
    assert_eq!(docs[2].id, "");
    assert_eq!(docs[2].body.to_text(), "7");
}

fn event(id: &str) -> String {
    format!(
        r#"{{"id": "{id}", "type": "log", "attributes": {{
            "timestamp": "2025-01-01T00:00:00Z",
            "service": "web",
            "attributes": {{ "doc_id": "{id}" }}
        }}}}"#
    )
}

fn page(ids: &[&str], after: &str) -> Json {
    let events: Vec<String> = ids.iter().map(|id| event(id)).collect();
    j(&format!(
        r#"{{"data": [{}], "meta": {{"page": {{"after": {after}}}}}}}"#,
        events.join(",")
    ))
}

fn text_at<'a>(body: &'a Json, outer: &str, inner: &str) -> Option<&'a str> {
    body.get(outer)?.get(inner)?.as_str()
}

/// Three hours, each with a first page that names a cursor of its own and a
/// second one that ends the hour.
fn answer(body: &Json) -> Json {
    match (text_at(body, "filter", "from"), text_at(body, "page", "cursor")) {
        (Some("2025-01-01T00:00:00Z"), None) => page(&["w0-a", "w0-b"], r#""W0C1""#),
        (Some("2025-01-01T01:00:00Z"), None) => page(&["w1-a", "w1-b"], r#""W1C1""#),
        (Some("2025-01-01T02:00:00Z"), None) => page(&["w2-a", "w2-b"], r#""W2C1""#),
        (_, Some("W0C1")) => page(&["w0-c"], "null"),
        (_, Some("W1C1")) => page(&["w1-c"], "null"),
        (_, Some("W2C1")) => page(&["w2-c"], "null"),
        _ => panic!("unexpected search {}", body.to_text()),
    }
}

fn next_batch(src: &mut DatadogApiSource) -> Option<Vec<Document>> {
    while let Some(body) = src.next_request() {
        let docs = src.on_page(&answer(&body));
        if docs.is_some() {
            return docs;
        }
    }
    None
}

fn three_hours(resume: Option<Vec<Json>>) -> DatadogApiSource {
    let mut src = DatadogApiSource::new(
        "datadoghq.com",
        "api-key",
        "app-key",
        "service:web",
        Some("2025-01-01T00:00:00Z".into()),
        Some("2025-01-01T03:00:00Z".into()),
        60,
        resume,
    )
    .unwrap()
    .with_base_url("http://localhost");
    src.open().unwrap();
    src
}

#[test]
fn multi_window_pagination_no_dups_no_gaps() {
    let mut src = three_hours(None);
    let mut ids = Vec::new();
    while let Some(batch) = next_batch(&mut src) {
        for doc in batch {
            assert_eq!(doc.index, "datadog");
            // The double-nested attributes are collapsed.
            assert_eq!(doc.body.get("service").and_then(|v| v.as_str()), Some("web"));
            assert_eq!(
                doc.body.get("doc_id").and_then(|v| v.as_str()),
                Some(doc.id.as_str())
            );
            ids.push(doc.id);
        }
    }

    let expected: Vec<String> = [
        "w0-a", "w0-b", "w0-c", "w1-a", "w1-b", "w1-c", "w2-a", "w2-b", "w2-c",
    ]
    .iter()
    .map(|s| s.to_string())
    .collect();

    // No duplicates.
    let unique: HashSet<&String> = ids.iter().collect();
    assert_eq!(unique.len(), ids.len());

    // No missing documents and exact total count.
    let mut sorted = ids.clone();
    sorted.sort();
    assert_eq!(sorted, expected);
    assert_eq!(ids.len(), 9);

    // Windows in plan order, pages in cursor order.
    assert_eq!(ids, expected);

    // Exhausted and stays exhausted.
    assert!(next_batch(&mut src).is_none());
    assert!(next_batch(&mut src).is_none());
}

#[test]
fn a_run_resumed_after_any_batch_reads_the_rest() {
    for stop in 0..7 {
        let mut src = three_hours(None);
        let mut ids = Vec::new();
        for _ in 0..stop {
            for doc in next_batch(&mut src).unwrap_or_default() {
                ids.push(doc.id);
            }
        }
        let mut again = three_hours(src.cursor());
        while let Some(batch) = next_batch(&mut again) {
            assert!(!batch.is_empty());
            for doc in batch {
                ids.push(doc.id);
            }
        }
        assert_eq!(ids.join(" "), "w0-a w0-b w0-c w1-a w1-b w1-c w2-a w2-b w2-c");
        assert_eq!(again.windows_done, 3);
    }
}

/// What a server answered: the status, the reset header and the body.
type Answer<'a> = (u16, Option<String>, &'a str);

/// Sends a search until it is answered or refused; gives the waits in
/// milliseconds too.
fn search(answers: &mut Vec<Answer>, now: i64) -> (Result<Json, EsiftError>, Vec<u64>) {
    let mut waits = Vec::new();
    let mut retried = false;
    loop {
        let (status, reset, body) = answers.remove(0);
        match judge(status, &reset, now, retried) {
            Verdict::Wait(ms) => {
                waits.push(ms);
                retried = true;
            }
            Verdict::Refused => return (Err(search_failed(status, body)), waits),
            Verdict::Answered => return (read_json(body.as_bytes().to_vec()), waits),
        }
    }
}

#[test]
fn rate_limited_then_succeeds() {
    let now = 1_735_689_600;
    let mut answers = vec![
        (429, Some((now + 1).to_string()), ""),
        (
            200,
            None,
            r#"{
                "data": [
                    { "id": "r1", "type": "log", "attributes": { "message": "ok",
                        "attributes": {} } }
                ],
                "meta": { "page": { "after": null } }
            }"#,
        ),
    ];
    let mut src = DatadogApiSource::new(
        "datadoghq.com",
        "key",
        "app",
        "*",
        Some("2025-01-01T00:00:00Z".into()),
        Some("2025-01-01T00:10:00Z".into()),
        60,
        None,
    )
    .unwrap()
    .with_base_url("http://localhost");
    src.open().unwrap();

    assert!(src.next_request().is_some());
    let (page, waits) = search(&mut answers, now);
    assert!(answers.is_empty());
    assert_eq!(waits.len(), 1);
    assert!(waits[0] >= 500, "should have slept toward the reset");
    assert_eq!(waits[0], 1050);
    let batch = src.on_page(&page.unwrap()).expect("a page after retry");
    assert_eq!(batch.len(), 1);
    assert_eq!(batch[0].id, "r1");
    assert!(src.next_request().is_none());
}

#[test]
fn a_second_rate_limit_is_an_error() {
    let mut answers = vec![
        (429, None, "slow down"),
        (429, None, "slow down"),
        (200, None, "{}"),
    ];
    let (page, waits) = search(&mut answers, 0);
    assert_eq!(waits, vec![200]);
    assert_eq!(answers.len(), 1);
    assert_eq!(
        page.err().unwrap().message(),
        "Source error: Datadog logs search failed: HTTP 429 Too Many Requests — slow down"
    );
}

#[test]
fn a_resumed_run_continues_in_the_live_window() {
    let mut src = source("2025-01-01T00:00:00Z", "2025-01-01T03:00:00Z", None);
    src.open().unwrap();
    src.on_page(&j(r#"{"data": [{"id": "a"}]}"#));
    src.on_page(&j(r#"{"data": [{"id": "b"}], "meta": {"page": {"after": "X"}}}"#));
    let blob = src.cursor();

    let mut again = source("2025-01-01T00:00:00Z", "2025-01-01T03:00:00Z", blob);
    again.open().unwrap();
    assert_eq!(again.windows.len(), 2);
    assert_eq!(again.windows_done, 1);
    let body = again.next_request().unwrap();
    assert_eq!(
        body.get("filter").unwrap().get("from").unwrap().as_str(),
        Some("2025-01-01T01:00:00Z")
    );
    assert_eq!(
        body.get("page").unwrap().get("cursor").unwrap().as_str(),
        Some("X")
    );
}

#[test]
fn a_finished_run_leaves_nothing_to_read() {
    let mut src = source("2025-01-01T00:00:00Z", "2025-01-01T01:00:00Z", None);
    src.open().unwrap();
    src.on_page(&j(r#"{"data": [{"id": "a"}]}"#));
    assert!(src.next_request().is_none());
    let mut again = source("2025-01-01T00:00:00Z", "2025-01-01T01:00:00Z", src.cursor());
    again.open().unwrap();
    assert!(again.windows.is_empty());
    assert!(again.next_request().is_none());

    // An unbounded run that has not drained its only window is not finished.
    let mut open_ended =
        DatadogApiSource::new("us5.datadoghq.com", "k", "a", "*", None, None, 60, None).unwrap();
    open_ended.open().unwrap();
    let mut again = DatadogApiSource::new(
        "us5.datadoghq.com",
        "k",
        "a",
        "*",
        None,
        None,
        60,
        open_ended.cursor(),
    )
    .unwrap();
    again.open().unwrap();
    assert!(again.next_request().is_some());
}

#[test]
fn a_saved_window_outside_the_plan_stands_alone() {
    let blob = vec![j(
        r#"{"dd_api": {"win_from": "x", "win_to": "y", "after": null, "windows_done": 4}}"#,
    )];
    let mut src = source("2025-01-01T00:00:00Z", "2025-01-01T03:00:00Z", Some(blob));
    src.open().unwrap();
    assert_eq!(src.windows.len(), 1);
    assert_eq!(src.windows[0].from.as_deref(), Some("x"));
    assert_eq!(src.windows_done, 4);
}

#[test]
fn open_reports_what_is_wrong() {
    let open = |site: &str, api: &str, app: &str| {
        DatadogApiSource::new(site, api, app, "*", None, None, 60, None)
            .unwrap()
            .open()
            .unwrap_err()
            .message()
    };
    assert!(open("nowhere", "k", "a").starts_with("Configuration error: Unknown Datadog site"));
    assert_eq!(
        open("us5", "k\n", "a"),
        "Source error: Invalid DD-API-KEY: failed to parse header value"
    );
    assert_eq!(
        open("us5", "k", "\u{7f}"),
        "Source error: Invalid DD-APPLICATION-KEY: failed to parse header value"
    );
    let closed = DatadogApiSource::new("us5", "k", "a", "*", None, None, 60, None).unwrap();
    assert_eq!(
        closed.search_url().unwrap_err().message(),
        "Source error: Call open() before next_batch()"
    );
    assert_eq!(closed.description(), "Datadog API site=us5");
}

#[test]
fn a_source_that_fails_to_open_stays_where_it_is() {
    let failed = |site: &str, key: &str| {
        let mut src = DatadogApiSource::new(site, key, "a", "*", None, None, 60, None).unwrap();
        src.open().unwrap_err();
        assert!(src.windows.is_empty());
        assert!(src.current.is_none());
        assert_eq!(src.windows_done, 0);
        assert!(!src.exhausted);
        src.base_url
    };
    assert_eq!(failed("nowhere", "k"), None);
    assert_eq!(
        failed("datadoghq.eu", "k\n").as_deref(),
        Some("https://api.datadoghq.eu")
    );
}

#[test]
fn rate_limits_are_waited_out() {
    let wait = |reset: &str| rate_limit_wait(&Some(reset.to_string()), 1000);
    assert_eq!(rate_limit_wait(&None, 1000), 200);
    assert_eq!(wait("soon"), 200);
    assert_eq!(wait(" 1001 "), 1050);
    assert_eq!(wait("1000"), 250);
    assert_eq!(wait("-9223372036854775808"), 250);
    assert_eq!(wait("1059"), 59_050);
    assert_eq!(wait("1060"), 60_000);
    assert_eq!(wait("9223372036854775807"), 60_000);
    assert_eq!(
        judge(429, &Some("1002".to_string()), 1000, false),
        Verdict::Wait(2050)
    );
    assert_eq!(
        judge(429, &Some("1002".to_string()), 1000, true),
        Verdict::Refused
    );
    for retried in [false, true] {
        assert_eq!(judge(200, &None, 1000, retried), Verdict::Answered);
        assert_eq!(judge(500, &None, 1000, retried), Verdict::Refused);
    }
}

#[test]
fn responses_are_read_or_reported() {
    assert_eq!(
        search_failed(403, "denied").message(),
        "Source error: Datadog logs search failed: HTTP 403 Forbidden — denied"
    );
    assert_eq!(
        read_json(b"{\"a\": 1}".to_vec()).unwrap().to_text(),
        "{\"a\":1}"
    );
    assert!(matches!(read_json(b"{".to_vec()), Err(EsiftError::Http(_))));
    assert_eq!(
        read_json(vec![0xff]).err().unwrap().message(),
        "HTTP error: error decoding response body"
    );
}

#[test]
fn maps_all_known_sites() {
    assert_eq!(base_url("").unwrap(), "https://api.datadoghq.com");
    assert_eq!(
        base_url("datadoghq.com").unwrap(),
        "https://api.datadoghq.com"
    );
    assert_eq!(base_url("datadoghq.eu").unwrap(), "https://api.datadoghq.eu");
    assert_eq!(
        base_url("us3.datadoghq.com").unwrap(),
        "https://api.us3.datadoghq.com"
    );
    assert_eq!(
        base_url("us5.datadoghq.com").unwrap(),
        "https://api.us5.datadoghq.com"
    );
    assert_eq!(
        base_url("ap1.datadoghq.com").unwrap(),
        "https://api.ap1.datadoghq.com"
    );
}

#[test]
fn unknown_site_errors() {
    assert!(base_url("example.com").is_err());
}

#[test]
fn windows_begin_apart_and_meet() {
    let from = Some("2025-01-01T00:00:00Z".to_string());
    let to = Some("2025-01-02T00:00:01Z".to_string());
    let windows = build_windows(&from, &to, 7);
    assert_eq!(windows.len(), 206);
    for pair in windows.windows(2) {
        assert_eq!(pair[0].to, pair[1].from);
    }
    let mut begins: Vec<_> = windows.iter().map(|w| w.from.clone()).collect();
    begins.sort();
    begins.dedup();
    assert_eq!(begins.len(), 206);
}
