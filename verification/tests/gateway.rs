use vercel_log_drain::handlers;
use vercel_log_drain::types::AppState;

const SECRET: &[u8] = b"deadbeef1234dacb4321";
const TOKEN: &str = "test";

fn state() -> AppState {
    AppState::new(TOKEN, SECRET)
}

const SAMPLE_1: &str = r#"[{"id":"m1","message":"Build started","timestamp":1660730000000,"type":"stdout","source":"build","projectName":"web","projectId":"prj_1","deploymentId":"dpl_1","host":"example.vercel.app"},{"id":"m2","timestamp":1660730001000,"source":"build","projectName":"web","projectId":"prj_1","deploymentId":"dpl_1","host":"example.vercel.app"}]"#;

const TEST_BUILD: &str = r#"[{"id":"m3","message":"Cloning github.com/acme/web","timestamp":1660730002000,"source":"build","projectId":"prj_1","deploymentId":"dpl_1","host":"example.vercel.app","buildId":"bld_1"}]"#;

const TEST_LAMBDA: &str = r#"[{"id":"m4","message":"START RequestId: abc","timestamp":1660730003000,"source":"lambda","projectId":"prj_1","deploymentId":"dpl_2","host":"example.vercel.app","path":"/api/hello","requestId":"req_1","statusCode":200,"executionRegion":"iad1","proxy":{"timestamp":1660730003000,"method":"GET","scheme":"https","host":"example.vercel.app","userAgent":["curl/8.0"],"statusCode":200,"clientIp":"203.0.113.1","region":"iad1","cacheId":"c1"}}]"#;

const TEST_EDGE: &str = r#"[{"id":"m5","message":"edge hit","timestamp":1660730004000,"source":"edge","projectId":"prj_1","deploymentId":"dpl_2","host":"example.vercel.app","level":"info","environment":"production","branch":"main"}]"#;

const TEST_STATIC: &str = r#"[{"id":"m6","timestamp":1660730005000,"source":"static","projectId":"prj_1","deploymentId":"dpl_2","host":"example.vercel.app","proxy":{"timestamp":1660730005000,"method":"GET","scheme":"https","host":"example.vercel.app","clientIp":"198.51.100.7","region":"fra1"}}]"#;

#[test]
fn health_check() {
    assert_eq!(handlers::health_check(), 200);
}

#[test]
fn root_check() {
    assert_eq!(handlers::root(), 200);
}

#[test]
fn ingest_check_samples() {
    let state = state();
    let test_data = [
        (SAMPLE_1, 2usize),
        (TEST_BUILD, 1),
        (TEST_LAMBDA, 1),
        (TEST_EDGE, 1),
        (TEST_STATIC, 1),
    ];
    let mut enqueued = 0usize;
    for (data, count) in test_data {
        let sig = state.sign_request_for_test_only(data.as_bytes());
        let outcome = handlers::ingest(&state, Some(sig.as_bytes()), data.as_bytes());
        assert_eq!(outcome.status, 200, "payload: {data:?}");
        assert_eq!(outcome.token.as_deref(), Some(TOKEN));
        assert_eq!(outcome.messages.len(), count);
        enqueued += outcome.messages.len();
    }
    assert_eq!(enqueued, 6);
}

#[test]
fn ingest_check_structured_messages() {
    let state = state();
    let structured_1 = r#"[{"id":"s1","message":"{\"logType\":\"location\",\"lat\":1,\"lon\":2}","timestamp":3,"source":"lambda","projectId":"p","deploymentId":"d","host":"h"}]"#;
    let structured_2 = r#"[{"id":"s2","message":{"logType":"location","lat":5},"timestamp":4,"source":"lambda","projectId":"p","deploymentId":"d","host":"h"}]"#;
    let test_data = [structured_1, structured_2, SAMPLE_1];
    let mut enqueued = 0usize;
    for data in test_data {
        let sig = state.sign_request_for_test_only(data.as_bytes());
        let outcome = handlers::ingest(&state, Some(sig.as_bytes()), data.as_bytes());
        assert_eq!(outcome.status, 200);
        assert_eq!(outcome.token.as_deref(), Some(TOKEN));
        enqueued += outcome.messages.len();
    }
    assert_eq!(enqueued, 4);
}

/// The platform's verification step sends no signature, yet expects success
/// and the verification token.
#[test]
fn ingest_verify_step() {
    let state = state();
    let data: &[u8] = b"[]";

    let test_auth_headers: [Option<&str>; 2] = [
        // Missing header
        None,
        // Valid signature; in case the platform fixes it. :)
        Some("6e7fbac105ca8e99dd5ed29951b4443fe97f7720"),
    ];

    for auth_header in test_auth_headers {
        let outcome = handlers::ingest(&state, auth_header.map(|h| h.as_bytes()), data);
        assert_eq!(outcome.status, 200, "auth_header: {auth_header:?}");
        assert_eq!(
            outcome.token.as_deref(),
            Some(TOKEN),
            "auth_header: {auth_header:?}"
        );
        assert_eq!(outcome.messages.len(), 0);
    }
}

#[test]
fn ingest_invalid_signatures() {
    let state = state();
    let data: &[u8] = b"[]";

    // Everything here should fail *without* a panic.
    let test_auth_headers = [
        Some("a"),
        Some("aa"),
        Some("xx"),
        Some("000044d61091a62c339bdd0fb827afad8d61f556"),
    ];

    for auth_header in test_auth_headers {
        let outcome = handlers::ingest(&state, auth_header.map(|h| h.as_bytes()), data);
        assert!(outcome.token.is_none(), "auth_header: {auth_header:?}");
        assert_eq!(outcome.status, 401, "auth_header: {auth_header:?}");
        assert_eq!(outcome.messages.len(), 0);
    }
}

#[test]
fn ingest_check_json_error() {
    let state = state();
    let test_data = [
        "{}",        // Expect an array, not an object
        "[0, 1, 2]", // Expect an array of messages
        "[",         // Unclosed tags
        "{",
    ];

    for data in test_data {
        let sig = state.sign_request_for_test_only(data.as_bytes());
        let outcome = handlers::ingest(&state, Some(sig.as_bytes()), data.as_bytes());
        assert!(outcome.token.is_none(), "payload: {data:?}");
        assert_eq!(outcome.status, 422, "payload: {data:?}");
        assert_eq!(outcome.messages.len(), 0);
    }
}

#[test]
fn ingest_rejects_non_utf8_body() {
    let state = state();
    let data: Vec<u8> = vec![0xff, 0xfe, 0x80];
    let sig = state.sign_request_for_test_only(&data);
    let outcome = handlers::ingest(&state, Some(sig.as_bytes()), &data);
    assert_eq!(outcome.status, 406);
    assert!(outcome.token.is_none());
    assert_eq!(outcome.messages.len(), 0);
}

/// An empty batch is accepted when correctly signed, and enqueues nothing.
#[test]
fn ingest_accepts_signed_empty_array() {
    let state = state();
    let sig = state.sign_request_for_test_only(b"[]");
    let outcome = handlers::ingest(&state, Some(sig.as_bytes()), b"[]");
    assert_eq!(outcome.status, 200);
    assert_eq!(outcome.token.as_deref(), Some(TOKEN));
    assert_eq!(outcome.messages.len(), 0);
}

/// Uppercase hexadecimal in the signature header decodes too.
#[test]
fn ingest_accepts_uppercase_signature() {
    let state = state();
    let sig = state.sign_request_for_test_only(b"[]").to_uppercase();
    let outcome = handlers::ingest(&state, Some(sig.as_bytes()), b"[]");
    assert_eq!(outcome.status, 200);
    assert_eq!(outcome.token.as_deref(), Some(TOKEN));
}

/// A signature over a different body than the one submitted is refused.
#[test]
fn ingest_rejects_swapped_body() {
    let state = state();
    let sig = state.sign_request_for_test_only(b"[]");
    let outcome = handlers::ingest(&state, Some(sig.as_bytes()), b"[ ]");
    assert_eq!(outcome.status, 401);
    assert!(outcome.token.is_none());
}

/// Messages come out in payload order.
#[test]
fn ingest_preserves_order() {
    let state = state();
    let outcome = handlers::ingest(
        &state,
        Some(
            state
                .sign_request_for_test_only(SAMPLE_1.as_bytes())
                .as_bytes(),
        ),
        SAMPLE_1.as_bytes(),
    );
    assert_eq!(outcome.status, 200);
    assert_eq!(outcome.messages.len(), 2);
    assert_eq!(outcome.messages[0].id, "m1");
    assert_eq!(outcome.messages[1].id, "m2");
    assert_eq!(outcome.messages[0].project_name.as_deref(), Some("web"));
    assert_eq!(outcome.messages[1].timestamp, 1660730001000);
}
