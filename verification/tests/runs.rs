use esift::checkpoint::{Checkpoint, CheckpointManager};
use esift::error::EsiftError;
use esift::extraction::{Action, Event, Extraction, Phase};
use esift::json::{parse, Json};
use esift::mapping::Transformer;
use esift::secret::{reference, resolve, resolve_opt, SecretRef};
use esift::transform::Transform;
use esift::Document;

fn j(text: &str) -> Json {
    parse(text).unwrap()
}

#[test]
fn a_manager_without_a_stored_checkpoint_starts_fresh() {
    let mgr = CheckpointManager::new("absent.json", None);
    assert_eq!(mgr.path, "absent.json");
    assert_eq!(mgr.state.docs_written, 0);
    assert_eq!(mgr.state.batches_completed, 0);
    assert!(mgr.state.search_after.is_none());
}

#[test]
fn a_stored_checkpoint_is_taken_up() {
    let mut stored = Checkpoint::default();
    stored.record_batch(42, Some(vec![j("1234"), j("\"doc-7\"")]));
    let mgr = CheckpointManager::new("checkpoint.json", Some(stored.clone()));
    assert_eq!(mgr.state.docs_written, 42);
    assert_eq!(mgr.state.batches_completed, 1);
    let cursor = mgr.state.search_after.unwrap();
    assert_eq!(cursor[0].to_text(), "1234");
    assert_eq!(cursor[1].to_text(), "\"doc-7\"");
}

#[test]
fn record_batch_accumulates_counts_and_keeps_latest_cursor() {
    let mut cp = Checkpoint::default();
    cp.record_batch(10, Some(vec![j("\"a\"")]));
    cp.record_batch(5, Some(vec![j("\"b\"")]));
    assert_eq!(cp.docs_written, 15);
    assert_eq!(cp.batches_completed, 2);
    let cursor = cp.search_after.unwrap();
    assert_eq!(cursor.len(), 1);
    assert_eq!(cursor[0].to_text(), "\"b\"");
}

#[test]
fn literal_passes_through() {
    assert_eq!(resolve("plain-secret", None).unwrap(), "plain-secret");
    assert_eq!(
        resolve("plain-secret", Some("other".into())).unwrap(),
        "plain-secret"
    );
}

#[test]
fn env_reference_reads_variable() {
    assert!(matches!(
        reference("env:ESIFT_TEST_SECRET_ENV"),
        SecretRef::Env(n) if n == "ESIFT_TEST_SECRET_ENV"
    ));
    assert_eq!(
        resolve("env:ESIFT_TEST_SECRET_ENV", Some(" from-env ".into())).unwrap(),
        " from-env "
    );
}

#[test]
fn missing_env_reference_errors() {
    assert_eq!(
        resolve("env:ESIFT_TEST_SECRET_ABSENT", None).unwrap_err(),
        "secret environment variable 'ESIFT_TEST_SECRET_ABSENT' is not set"
    );
}

#[test]
fn file_reference_reads_and_trims() {
    assert!(matches!(
        reference("file:/run/token"),
        SecretRef::File(p) if p == "/run/token"
    ));
    assert_eq!(
        resolve("file:/run/token", Some("  secret-in-file\n".into())).unwrap(),
        "secret-in-file"
    );
    assert_eq!(
        resolve("file:/run/token", None).unwrap_err(),
        "failed to read secret file '/run/token'"
    );
}

#[test]
fn resolve_opt_preserves_none() {
    assert_eq!(resolve_opt(None, None).unwrap(), None);
    assert_eq!(
        resolve_opt(Some("literal".to_string()), None).unwrap(),
        Some("literal".to_string())
    );
    assert!(resolve_opt(Some("env:X".to_string()), None).is_err());
}

fn run() -> Extraction {
    let mut cp = Checkpoint::default();
    cp.record_batch(7, None);
    Extraction::start(
        Transformer::new(vec![Transform::Drop { field: "x".into() }]),
        cp,
    )
}

fn batch() -> Vec<Document> {
    vec![
        Document::new("i", "1", j(r#"{"x": 1, "y": 1}"#)),
        Document::new("i", "2", j(r#"{"y": 2}"#)),
    ]
}

#[test]
fn a_run_reads_transforms_writes_and_saves() {
    let mut x = run();
    assert_eq!(x.progress_text(), "Starting (7 already written)");
    assert!(matches!(x.advance(Event::Opened(Ok(()))), Action::Read));
    match x.advance(Event::Batch(Ok(Some(batch())))) {
        Action::Write(docs) => {
            assert_eq!(docs.len(), 2);
            assert_eq!(docs[0].body.to_text(), r#"{"y":1}"#);
        }
        _ => panic!("the batch should be written"),
    }
    let written = Event::Written(Ok(2), Some(vec![j("\"2\"")]));
    assert!(matches!(x.advance(written), Action::Save));
    // The checkpoint is ahead of the total until it has been saved.
    assert_eq!(x.checkpoint.docs_written, 9);
    assert_eq!(x.total, 7);
    assert!(matches!(x.advance(Event::Saved(Ok(()))), Action::Read));
    assert_eq!(x.total, 9);
    assert_eq!(x.progress_text(), "9 documents extracted");
    assert_eq!(x.metrics.snapshot(), (2, 1, 0));
    assert!(matches!(x.advance(Event::Batch(Ok(None))), Action::Flush));
    assert_eq!(x.progress_text(), "Done. 9 documents extracted.");
    assert!(matches!(x.advance(Event::Flushed(Ok(()))), Action::Close));
    assert!(matches!(
        x.advance(Event::Closed(Ok(()))),
        Action::End(Ok(()))
    ));
    assert_eq!(x.phase, Phase::Ended);
}

fn boom() -> EsiftError {
    EsiftError::Source("boom".into())
}

/// Every failure closes the source and is then what the run ends with.
fn ends_with_boom(x: &mut Extraction, failing: Event) {
    assert!(matches!(x.advance(failing), Action::Close));
    match x.advance(Event::Closed(Ok(()))) {
        Action::End(Err(e)) => assert_eq!(e.message(), "Source error: boom"),
        _ => panic!("the failure should not be lost"),
    }
}

#[test]
fn failures_close_the_source_and_are_not_lost() {
    let mut x = run();
    ends_with_boom(&mut x, Event::Opened(Err(boom())));

    let mut x = run();
    x.advance(Event::Opened(Ok(())));
    ends_with_boom(&mut x, Event::Batch(Err(boom())));
    assert_eq!(x.metrics.snapshot(), (0, 0, 1));

    let mut x = run();
    x.advance(Event::Opened(Ok(())));
    x.advance(Event::Batch(Ok(Some(batch()))));
    ends_with_boom(&mut x, Event::Written(Err(boom()), None));
    // Nothing that was not written is counted or passed over.
    assert_eq!(x.checkpoint.docs_written, 7);
    assert_eq!(x.metrics.snapshot(), (0, 0, 1));

    let mut x = run();
    x.advance(Event::Opened(Ok(())));
    x.advance(Event::Batch(Ok(Some(batch()))));
    x.advance(Event::Written(Ok(2), None));
    ends_with_boom(&mut x, Event::Saved(Err(boom())));

    let mut x = run();
    x.advance(Event::Opened(Ok(())));
    x.advance(Event::Batch(Ok(None)));
    ends_with_boom(&mut x, Event::Flushed(Err(boom())));
}

#[test]
fn a_failing_close_is_reported() {
    let mut x = run();
    x.advance(Event::Opened(Ok(())));
    x.advance(Event::Batch(Ok(None)));
    x.advance(Event::Flushed(Ok(())));
    match x.advance(Event::Closed(Err(boom()))) {
        Action::End(Err(e)) => assert_eq!(e.message(), "Source error: boom"),
        _ => panic!("the failure should not be lost"),
    }
}
