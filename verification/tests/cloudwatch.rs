use vercel_log_drain::drivers::cloudwatch::{
    CloudWatchDriver, CreateOutcome, PutOutcome, RetentionOutcome, SendPhase,
};
use vercel_log_drain::json::JsonValue;
use vercel_log_drain::types::Message;

fn message(project_name: Option<&str>, source: &str, deployment: &str) -> Message {
    Message {
        id: "m1".to_string(),
        message: JsonValue::Str("hello".to_string()),
        timestamp: 1660730000000,
        output_type: None,
        source: source.to_string(),
        project_name: project_name.map(|s| s.to_string()),
        project_id: "prj_1".to_string(),
        deployment_id: deployment.to_string(),
        build_id: None,
        host: "example.vercel.app".to_string(),
        path: None,
        entrypoint: None,
        request_id: None,
        proxy: None,
        status_code: None,
        execution_region: None,
        level: None,
        environment: None,
        branch: None,
    }
}

#[test]
fn group_and_stream_names() {
    let d = CloudWatchDriver::new();
    let m = message(Some("web"), "build", "dpl_1");
    let s = d.start_send(&m);
    assert_eq!(s.group, "/vercel/web/build");
    assert_eq!(s.stream, "dpl_1");

    let m = message(None, "lambda", "dpl_2");
    let s = d.start_send(&m);
    assert_eq!(s.group, "/vercel/null/lambda");
    assert_eq!(s.stream, "dpl_2");
}

/// Sending twice for the same group and stream issues at most one creation
/// call per resource: the second session starts directly at the put.
#[test]
fn idempotent_provisioning() {
    let mut d = CloudWatchDriver::new();
    let m = message(Some("web"), "build", "dpl_1");

    let mut s = d.start_send(&m);
    assert_eq!(s.phase, SendPhase::CreateGroup { repair: false });
    d.on_create_group(&mut s, CreateOutcome::Created);
    assert_eq!(s.phase, SendPhase::SetRetention { repair: false });
    d.on_retention(&mut s, RetentionOutcome::Applied);
    assert_eq!(s.phase, SendPhase::CreateStream { repair: false });
    d.on_create_stream(&mut s, CreateOutcome::Created);
    assert_eq!(s.phase, SendPhase::Put);
    d.on_put(&mut s, PutOutcome::Delivered);
    assert_eq!(s.phase, SendPhase::Done { delivered: true });

    let s2 = d.start_send(&m);
    assert_eq!(s2.phase, SendPhase::Put);
}

/// Losing the creation race counts as success: the resource exists.
#[test]
fn already_exists_counts_as_created() {
    let mut d = CloudWatchDriver::new();
    let m = message(Some("web"), "build", "dpl_1");
    let mut s = d.start_send(&m);
    d.on_create_group(&mut s, CreateOutcome::AlreadyExists);
    assert_eq!(s.phase, SendPhase::SetRetention { repair: false });
    // Retention is best effort: its failure does not fail the message.
    d.on_retention(&mut s, RetentionOutcome::Failed);
    assert_eq!(s.phase, SendPhase::CreateStream { repair: false });
    d.on_create_stream(&mut s, CreateOutcome::AlreadyExists);
    assert_eq!(s.phase, SendPhase::Put);
}

/// A failed creation abandons the message.
#[test]
fn failed_creation_is_fatal() {
    let mut d = CloudWatchDriver::new();
    let m = message(Some("web"), "build", "dpl_1");
    let mut s = d.start_send(&m);
    d.on_create_group(&mut s, CreateOutcome::Failed);
    assert_eq!(s.phase, SendPhase::Done { delivered: false });
}

/// Seeding the cache at start-up skips creation for listed resources.
#[test]
fn seeded_caches_skip_creation() {
    let mut d = CloudWatchDriver::new();
    d.note_groups(&vec!["/vercel/web/build".to_string()]);
    d.note_streams(&vec!["dpl_1".to_string()]);
    let m = message(Some("web"), "build", "dpl_1");
    let s = d.start_send(&m);
    assert_eq!(s.phase, SendPhase::Put);
}

/// A put answered "not found" triggers exactly one recreate-and-retry cycle
/// before the next put attempt, with the stream recreated unconditionally.
#[test]
fn not_found_repairs_once() {
    let mut d = CloudWatchDriver::new();
    d.note_groups(&vec!["/vercel/web/build".to_string()]);
    d.note_streams(&vec!["dpl_1".to_string()]);
    let m = message(Some("web"), "build", "dpl_1");
    let mut s = d.start_send(&m);
    assert_eq!(s.phase, SendPhase::Put);

    d.on_put(&mut s, PutOutcome::NotFound);
    assert_eq!(s.phase, SendPhase::CreateGroup { repair: true });
    assert_eq!(s.retries, 1);
    d.on_create_group(&mut s, CreateOutcome::Created);
    assert_eq!(s.phase, SendPhase::SetRetention { repair: true });
    d.on_retention(&mut s, RetentionOutcome::Applied);
    // In the repair cycle the cached stream is recreated anyway.
    assert_eq!(s.phase, SendPhase::CreateStream { repair: true });
    d.on_create_stream(&mut s, CreateOutcome::Created);
    assert_eq!(s.phase, SendPhase::Put);
    assert_eq!(s.retries, 1);
    d.on_put(&mut s, PutOutcome::Delivered);
    assert_eq!(s.phase, SendPhase::Done { delivered: true });
}

/// A put that always fails is retried exactly five times, then the message
/// is abandoned as a permanent failure.
#[test]
fn retry_budget_is_five() {
    let mut d = CloudWatchDriver::new();
    d.note_groups(&vec!["/vercel/web/build".to_string()]);
    d.note_streams(&vec!["dpl_1".to_string()]);
    let m = message(Some("web"), "build", "dpl_1");
    let mut s = d.start_send(&m);
    assert_eq!(s.phase, SendPhase::Put);

    for attempt in 1u64..=5 {
        d.on_put(&mut s, PutOutcome::Failed);
        assert_eq!(s.phase, SendPhase::Put, "attempt {attempt}");
        assert_eq!(s.retries, attempt);
    }
    d.on_put(&mut s, PutOutcome::Failed);
    assert_eq!(s.phase, SendPhase::Done { delivered: false });
    assert_eq!(s.retries, 6);
}

/// The session payload is the message serialized as one JSON document.
#[test]
fn session_payload_is_serialized_message() {
    let d = CloudWatchDriver::new();
    let m = message(Some("web"), "build", "dpl_1");
    let s = d.start_send(&m);
    let value: serde_json::Value = serde_json::from_slice(&s.payload).unwrap();
    assert_eq!(value["id"], serde_json::Value::String("m1".to_string()));
    assert_eq!(
        value["message"],
        serde_json::Value::String("hello".to_string())
    );
    assert_eq!(value["proxy"], serde_json::Value::Null);
    assert_eq!(s.timestamp, 1660730000000);
}
