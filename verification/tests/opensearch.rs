use esift::error::EsiftError;
use esift::json::{parse, Json};
use esift::source::opensearch::{
    decode_slice_cursors, is_sliced_encoding, judge_pit, pit_refused, search_failed, ApiFlavor,
    Auth, OpenSearchSource, PitVerdict, SliceState,
};
use esift::Document;

fn j(text: &str) -> Json {
    parse(text).unwrap()
}

fn texts(values: &Option<Vec<Json>>) -> Option<Vec<String>> {
    values
        .as_ref()
        .map(|v| v.iter().map(|x| x.to_text()).collect())
}

fn source(slices: usize) -> OpenSearchSource {
    OpenSearchSource::new(
        "http://localhost:9200",
        "idx",
        j(r#"{"match_all": {}}"#),
        10,
        Auth::Anonymous,
        None,
    )
    .unwrap()
    .with_slices(slices)
}

fn state(after: &str, exhausted: bool) -> SliceState {
    SliceState {
        search_after: Some(vec![j(after)]),
        exhausted,
    }
}

#[test]
fn sliced_cursor_round_trips_through_seed() {
    let mut src = source(2);
    src.slice_state = vec![state("\"a\"", false), state("\"b\"", true)];

    let encoded = src.cursor().expect("sliced cursor should encode");
    assert!(is_sliced_encoding(&encoded));

    let mut resumed = OpenSearchSource::new(
        "http://localhost:9200",
        "idx",
        j(r#"{"match_all": {}}"#),
        10,
        Auth::Anonymous,
        Some(encoded),
    )
    .unwrap()
    .with_slices(2);
    resumed.seed_cursors();

    assert_eq!(
        texts(&resumed.slice_state[0].search_after),
        Some(vec!["\"a\"".to_string()])
    );
    assert!(!resumed.slice_state[0].exhausted);
    assert_eq!(
        texts(&resumed.slice_state[1].search_after),
        Some(vec!["\"b\"".to_string()])
    );
    assert!(resumed.slice_state[1].exhausted);
    assert!(resumed.search_after.is_none());
}

#[test]
fn all_slices_done_marks_run_exhausted() {
    let mut src = source(2);
    src.slice_state = vec![state("\"a\"", true), state("\"b\"", true)];
    let encoded = src.cursor().unwrap();

    let mut resumed = source(2);
    resumed.search_after = Some(encoded);
    resumed.seed_cursors();
    assert!(resumed.exhausted);
}

#[test]
fn slice_count_mismatch_starts_fresh() {
    let mut src = source(2);
    src.slice_state = vec![state("\"a\"", false), SliceState::default()];
    let encoded = src.cursor().unwrap();

    let mut resumed = source(3);
    resumed.search_after = Some(encoded);
    resumed.seed_cursors();
    assert!(resumed
        .slice_state
        .iter()
        .all(|s| s.search_after.is_none() && !s.exhausted));
    assert_eq!(resumed.slice_state.len(), 3);
}

#[test]
fn single_slice_discards_sliced_encoding() {
    let mut src = source(2);
    src.slice_state = vec![state("\"a\"", false), SliceState::default()];
    let encoded = src.cursor().unwrap();

    let mut single = source(1);
    single.search_after = Some(encoded);
    single.seed_cursors();
    assert!(single.search_after.is_none());
}

#[test]
fn single_slice_keeps_normal_cursor() {
    let mut single = source(1);
    single.search_after = Some(vec![j("\"doc-7\"")]);
    single.seed_cursors();
    // A plain single-slice cursor is preserved for resume.
    assert_eq!(
        texts(&single.search_after),
        Some(vec!["\"doc-7\"".to_string()])
    );
}

#[test]
fn malformed_slice_cursors_restore_nothing() {
    for text in [
        r#"[]"#,
        r#"[3]"#,
        r#"[{"cursors": []}]"#,
        r#"[{"__esift_slices": "2", "cursors": [{}, {}]}]"#,
        r#"[{"__esift_slices": 2}]"#,
        r#"[{"__esift_slices": 2, "cursors": [{}]}]"#,
    ] {
        match j(text) {
            Json::Array(cursor) => assert!(decode_slice_cursors(&cursor, 2).is_none()),
            _ => unreachable!(),
        }
    }
    let loose = vec![j(
        r#"{"__esift_slices": 2, "cursors": [{"after": 3, "done": "yes"}, null]}"#,
    )];
    let states = decode_slice_cursors(&loose, 2).unwrap();
    assert!(states
        .iter()
        .all(|s| s.search_after.is_none() && !s.exhausted));
    // Two values are sort values, whatever the first one holds.
    assert!(!is_sliced_encoding(&vec![
        j(r#"{"__esift_slices": 1}"#),
        j("1")
    ]));
}

fn logs(batch_size: usize, slices: usize, resume: Option<Vec<Json>>) -> OpenSearchSource {
    let mut s = OpenSearchSource::new(
        "http://mock",
        "logs",
        j(r#"{"match_all": {}}"#),
        batch_size,
        Auth::Anonymous,
        resume,
    )
    .unwrap()
    .with_slices(slices);
    assert_eq!(s.pit_path(false), "/logs/_search/point_in_time?keep_alive=5m");
    assert_eq!(judge_pit(false, 200), PitVerdict::Opened);
    s.on_pit(false, &j(r#"{"pit_id": "PIT123"}"#)).unwrap();
    s
}

fn next_batch(
    s: &mut OpenSearchSource,
    answer: &mut dyn FnMut(&Json) -> String,
) -> Result<Option<Vec<Document>>, EsiftError> {
    loop {
        match s.next_search()? {
            None => return Ok(None),
            Some(search) => {
                let page = j(&answer(&search.body));
                if let Some(docs) = s.on_page(search.slice, &page)? {
                    return Ok(Some(docs));
                }
            }
        }
    }
}

const EMPTY: &str = r#"{"pit_id": "PIT123", "hits": {"hits": []}}"#;

#[test]
fn paginates_with_pit_and_advances_cursor() {
    let mut source = logs(2, 1, None);
    let mut calls = 0;
    let mut answer = |_: &Json| {
        calls += 1;
        if calls == 1 {
            r#"{"pit_id": "PIT123", "hits": {"hits": [
                {"_id": "1", "_index": "logs", "_source": {"msg": "a"}, "sort": ["1"]},
                {"_id": "2", "_index": "logs", "_source": {"msg": "b"}, "sort": ["2"]}
            ]}}"#
            .to_string()
        } else {
            EMPTY.to_string()
        }
    };
    let first = next_batch(&mut source, &mut answer)
        .unwrap()
        .expect("first page present");
    assert_eq!(first.len(), 2);
    assert_eq!(first[0].id, "1");
    assert_eq!(first[0].index, "logs");
    assert_eq!(first[0].body.to_text(), r#"{"msg":"a"}"#);
    // Cursor must advance to the last hit's sort value so a resume continues here.
    assert_eq!(texts(&source.cursor()), Some(vec!["\"2\"".to_string()]));

    let second = next_batch(&mut source, &mut answer).unwrap();
    assert!(second.is_none(), "empty page should exhaust the source");
    assert!(source.next_search().unwrap().is_none());

    let close = source.close_request().unwrap();
    assert_eq!(close.path, "/_search/point_in_time");
    assert_eq!(close.body.to_text(), r#"{"pit_id":["PIT123"]}"#);
    assert!(source.close_request().is_none());
}

#[test]
fn searches_are_sorted_and_carry_the_point_in_time() {
    let mut source = logs(2, 1, None);
    let search = source.next_search().unwrap().unwrap();
    assert_eq!(
        search.body.to_text(),
        j(r#"{
            "size": 2,
            "query": {"match_all": {}},
            "sort": [{"_id": "asc"}],
            "pit": {"id": "PIT123", "keep_alive": "5m"},
            "track_total_hits": false
        }"#)
        .to_text()
    );
    assert!(search.slice.is_none());
}

#[test]
fn short_pages_exhaust_and_rotated_pits_are_kept() {
    let mut source = logs(3, 1, None);
    let search = source.next_search().unwrap().unwrap();
    let docs = source
        .on_page(
            search.slice,
            &j(r#"{"pit_id": "NEXT", "hits": {"hits": [
                {"_id": 3, "_source": {}},
                {"_id": "x"}
            ]}}"#),
        )
        .unwrap()
        .unwrap();
    // A hit without an id is no document; a missing source is null.
    assert_eq!(docs.len(), 1);
    assert_eq!(docs[0].id, "x");
    assert_eq!(docs[0].index, "logs");
    assert_eq!(docs[0].body.to_text(), "null");
    assert_eq!(source.pit_id.as_deref(), Some("NEXT"));
    assert!(source.exhausted);
    assert!(source.search_after.is_none());
}

#[test]
fn full_pages_do_not_exhaust() {
    let mut source = logs(2, 1, None);
    let page = j(r#"{"hits": {"hits": [{"_id": "1"}, {"_source": {}, "sort": [2]}]}}"#);
    assert_eq!(source.on_page(None, &page).unwrap().unwrap().len(), 1);
    assert!(!source.exhausted);
    assert_eq!(texts(&source.cursor()), Some(vec!["2".to_string()]));
}

#[test]
fn search_error_propagates_status_and_body() {
    let msg = search_failed(500, "boom-reason").message();
    assert!(msg.contains("500"), "status missing from error: {msg}");
    assert!(
        msg.contains("boom-reason"),
        "body missing from error: {msg}"
    );
    assert_eq!(
        msg,
        "Source error: Search failed: HTTP 500 Internal Server Error — boom-reason"
    );
    let mut source = logs(2, 1, None);
    assert_eq!(
        source
            .on_page(None, &j(r#"{"hits": {}}"#))
            .err()
            .unwrap()
            .message(),
        "Source error: Response missing hits.hits"
    );
    assert_eq!(
        closed().next_search().err().unwrap().message(),
        "Source error: Call open() before next_batch()"
    );
}

fn closed() -> OpenSearchSource {
    source(1)
}

#[test]
fn open_falls_back_to_elasticsearch_pit_path() {
    let mut source = source(1);
    assert_eq!(judge_pit(false, 404), PitVerdict::Fallback);
    assert_eq!(judge_pit(false, 405), PitVerdict::Fallback);
    assert_eq!(judge_pit(true, 404), PitVerdict::Refused);
    assert_eq!(judge_pit(false, 403), PitVerdict::Refused);
    assert_eq!(source.pit_path(true), "/idx/_pit?keep_alive=5m");
    source
        .on_pit(true, &j(r#"{"id": "ES_PIT"}"#))
        .expect("ES fallback should open a PIT");
    assert_eq!(source.flavor, ApiFlavor::Elasticsearch);
    let close = source.close_request().unwrap();
    assert_eq!(close.path, "/_pit");
    assert_eq!(close.body.to_text(), r#"{"id":"ES_PIT"}"#);
}

#[test]
fn unusable_pit_responses_are_reported() {
    let mut s = source(1);
    assert_eq!(
        s.on_pit(false, &j("{}")).unwrap_err().message(),
        "Source error: PIT response missing 'pit_id'"
    );
    assert_eq!(
        s.on_pit(true, &j(r#"{"id": 7}"#)).unwrap_err().message(),
        "Source error: PIT response missing 'id'"
    );
    assert_eq!(
        pit_refused(false, 403, "no").message(),
        "Source error: PIT open failed: HTTP 403 Forbidden — no"
    );
    assert_eq!(
        pit_refused(true, 404, "no").message(),
        "Source error: PIT open failed (ES fallback): HTTP 404 Not Found — no"
    );
}

#[test]
fn resume_seeds_saved_cursor_into_first_query() {
    let mut source = logs(10, 1, Some(vec![j("\"5\"")]));
    let search = source.next_search().unwrap().unwrap();
    assert_eq!(
        search.body.get("search_after").unwrap().to_text(),
        r#"["5"]"#
    );
    assert!(source.on_page(None, &j(EMPTY)).unwrap().is_none());
}

fn sliced_answer<'a>(served: &'a mut [bool; 2]) -> impl FnMut(&Json) -> String + 'a {
    move |body: &Json| {
        let slice = body.get("slice").unwrap();
        assert_eq!(slice.get("max").unwrap().as_u64(), Some(2));
        let id = slice.get("id").unwrap().as_u64().unwrap();
        if served[id as usize] || body.get("search_after").is_some() {
            return EMPTY.to_string();
        }
        served[id as usize] = true;
        format!(
            "{{\"hits\": {{\"hits\": [{{\"_id\": \"s{0}-1\", \"_index\": \"logs\", \
             \"_source\": {{}}, \"sort\": [\"s{0}-1\"]}}]}}}}",
            id
        )
    }
}

#[test]
fn sliced_extraction_drains_all_slices_and_completes() {
    let mut source = logs(1, 2, None);
    assert!(
        source.cursor().is_some(),
        "sliced runs expose an encoded resume cursor"
    );
    let mut served = [false; 2];
    let mut answer = sliced_answer(&mut served);
    let mut ids = Vec::new();
    while let Some(batch) = next_batch(&mut source, &mut answer).unwrap() {
        for doc in batch {
            assert_eq!(doc.index, "logs");
            ids.push(doc.id);
        }
        assert!(source.cursor().is_some(), "cursor present mid-run");
    }
    ids.sort();
    assert_eq!(
        ids,
        vec!["s0-1".to_string(), "s1-1".to_string()],
        "documents from both slices must arrive"
    );
    // Once exhausted the source stays exhausted.
    assert!(next_batch(&mut source, &mut answer).unwrap().is_none());
}

#[test]
fn sliced_run_resumes_from_checkpoint_cursor() {
    let mut served = [false; 2];
    let mut answer = sliced_answer(&mut served);
    let mut s1 = logs(1, 2, None);
    let first = next_batch(&mut s1, &mut answer)
        .unwrap()
        .expect("first batch present");
    assert_eq!(first.len(), 1);
    assert_eq!(first[0].id, "s0-1");
    let resume = s1.cursor().expect("sliced run exposes a cursor");
    assert_eq!(
        resume[0].to_text(),
        j(r#"{"__esift_slices": 2, "cursors": [
            {"after": ["s0-1"], "done": false},
            {"after": null, "done": false}
        ]}"#)
        .to_text()
    );

    let mut s2 = logs(1, 2, Some(resume));
    let mut seeded = false;
    let mut ids = Vec::new();
    let mut watch = |body: &Json| {
        if body.get("slice").unwrap().get("id").unwrap().as_u64() == Some(0) {
            if let Some(after) = body.get("search_after") {
                seeded = after.to_text() == r#"["s0-1"]"#;
            }
        }
        answer(body)
    };
    while let Some(batch) = next_batch(&mut s2, &mut watch).unwrap() {
        for doc in batch {
            ids.push(doc.id);
        }
    }
    assert_eq!(
        ids,
        vec!["s1-1".to_string()],
        "resume must not re-emit s0-1"
    );
    assert!(
        seeded,
        "the resumed run must send slice 0 with the saved search_after"
    );
}

/// Answers as an index does whose slices hold so many documents each, numbered
/// from 1.
fn counted_answer(held: &[u64], size: u64, body: &Json) -> String {
    let slice = body
        .get("slice")
        .map_or(0, |s| s.get("id").unwrap().as_u64().unwrap());
    let after = body.get("search_after").map_or(0, |a| match a {
        Json::Array(values) => values[0].as_u64().unwrap(),
        _ => panic!("search_after is no array"),
    });
    let hits: Vec<String> = (after + 1..=held[slice as usize])
        .take(size as usize)
        .map(|n| format!(r#"{{"_id": "s{slice}-{n}", "_source": {{"n": {n}}}, "sort": [{n}]}}"#))
        .collect();
    format!(
        r#"{{"pit_id": "P{}", "hits": {{"hits": [{}]}}}}"#,
        after,
        hits.join(",")
    )
}

#[test]
fn slices_take_turns_until_each_is_drained() {
    let mut source = logs(2, 3, None);
    let mut turns = Vec::new();
    let mut answer = |body: &Json| {
        turns.push(body.get("slice").unwrap().get("id").unwrap().as_u64().unwrap());
        counted_answer(&[5, 0, 2], 2, body)
    };
    let mut ids = Vec::new();
    while let Some(batch) = next_batch(&mut source, &mut answer).unwrap() {
        for doc in batch {
            ids.push(doc.id);
        }
    }
    assert!(next_batch(&mut source, &mut answer).unwrap().is_none());
    assert_eq!(turns, vec![0, 1, 2, 0, 2, 0]);
    let of = |slice: &str| -> Vec<String> {
        ids.iter().filter(|id| id.starts_with(slice)).cloned().collect()
    };
    assert_eq!(of("s0").join(" "), "s0-1 s0-2 s0-3 s0-4 s0-5");
    assert!(of("s1").is_empty());
    assert_eq!(of("s2").join(" "), "s2-1 s2-2");
    assert_eq!(ids.len(), 7);
}

#[test]
fn a_whole_index_is_read_once_and_in_order() {
    for (held, searches) in [(0, 1), (1, 1), (2, 2), (5, 3)] {
        let mut source = logs(2, 1, None);
        let mut sent = 0;
        let mut answer = |body: &Json| {
            sent += 1;
            counted_answer(&[held], 2, body)
        };
        let mut ids = Vec::new();
        while let Some(batch) = next_batch(&mut source, &mut answer).unwrap() {
            for doc in batch {
                ids.push(doc.id);
            }
        }
        assert!(next_batch(&mut source, &mut answer).unwrap().is_none());
        assert_eq!(sent, searches);
        let expected: Vec<String> = (1..=held).map(|n| format!("s0-{n}")).collect();
        assert_eq!(ids, expected);
    }
}

#[test]
fn interrupted_runs_give_every_document_once() {
    for slices in [1, 3] {
        let held: &[u64] = if slices == 1 { &[5] } else { &[5, 0, 2] };
        let mut answer = |body: &Json| counted_answer(held, 2, body);
        for stop in 0..3 {
            let mut first = logs(2, slices, None);
            let mut ids = Vec::new();
            for _ in 0..stop {
                for doc in next_batch(&mut first, &mut answer).unwrap().unwrap() {
                    ids.push(doc.id);
                }
            }
            let mut second = logs(2, slices, first.cursor());
            while let Some(batch) = next_batch(&mut second, &mut answer).unwrap() {
                for doc in batch {
                    ids.push(doc.id);
                }
            }
            for (slice, count) in held.iter().enumerate() {
                let prefix = format!("s{slice}-");
                let got: Vec<String> =
                    ids.iter().filter(|id| id.starts_with(&prefix)).cloned().collect();
                let expected: Vec<String> =
                    (1..=*count).map(|n| format!("s{slice}-{n}")).collect();
                assert_eq!(got, expected);
            }
        }
    }
}

#[test]
fn urls_are_joined_with_one_slash() {
    let s = source(1);
    assert_eq!(
        s.request_url("/_search").unwrap(),
        "http://localhost:9200/_search"
    );
    assert_eq!(
        s.request_url("_search").unwrap(),
        "http://localhost:9200/_search"
    );
    let mut bad = source(1);
    bad.base_url = "nowhere".to_string();
    assert_eq!(
        bad.request_url("/_search").unwrap_err().message(),
        "Source error: Invalid URL: relative URL without a base"
    );
}

#[test]
fn slices_are_at_least_one() {
    assert_eq!(source(0).slices, 1);
    assert_eq!(
        source(4).description(),
        "OpenSearch http://localhost:9200 index=idx slices=4"
    );
    assert!(source(4).cursor().is_none());
}
