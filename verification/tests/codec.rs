use vercel_log_drain::controller::Controller;
use vercel_log_drain::drivers::loki::LokiDriver;
use vercel_log_drain::drivers::stdout::StdOutDriver;
use vercel_log_drain::drivers::LogDriver;
use vercel_log_drain::encoding::{decode_hex, decode_signature, encode_hex};
use vercel_log_drain::json::{json_to_bytes, parse_json, JsonValue};
use vercel_log_drain::types::{AppState, Message};

fn message() -> Message {
    Message {
        id: "m1".to_string(),
        message: JsonValue::Str("a \"quoted\" line".to_string()),
        timestamp: 1660730000000,
        output_type: Some("stdout".to_string()),
        source: "build".to_string(),
        project_name: Some("web".to_string()),
        project_id: "prj_1".to_string(),
        deployment_id: "dpl_1".to_string(),
        build_id: None,
        host: "example.vercel.app".to_string(),
        path: None,
        entrypoint: None,
        request_id: None,
        proxy: None,
        status_code: Some(200),
        execution_region: None,
        level: None,
        environment: Some("production".to_string()),
        branch: Some("main".to_string()),
    }
}

#[test]
fn hex_encode_matches_reference() {
    let data: Vec<u8> = vec![0x00, 0x1f, 0xab, 0xcd, 0xef, 0x99];
    assert_eq!(encode_hex(&data), hex::encode(&data));
}

#[test]
fn hex_decode_round_trips() {
    let data: Vec<u8> = (0u8..=255).collect();
    let spelled = encode_hex(&data);
    let back = decode_hex(spelled.as_bytes()).unwrap();
    assert_eq!(back, data);
    // Uppercase digits decode too.
    let upper = spelled.to_uppercase();
    assert_eq!(decode_hex(upper.as_bytes()).unwrap(), data);
}

#[test]
fn hex_decode_rejects_bad_input() {
    assert!(decode_hex(b"abc").is_none());
    assert!(decode_hex(b"zz").is_none());
    assert!(decode_signature(b"abcd").is_none());
    let forty_one = "a".repeat(41);
    assert!(decode_signature(forty_one.as_bytes()).is_none());
    let forty = "0".repeat(40);
    assert_eq!(decode_signature(forty.as_bytes()).unwrap(), vec![0u8; 20]);
}

#[test]
fn signing_matches_reference_mac() {
    let secret = b"deadbeef1234dacb4321";
    let state = AppState::new("test", secret);
    let body = b"[]";
    let signed = state.sign_request_for_test_only(body);
    let key = ring::hmac::Key::new(ring::hmac::HMAC_SHA1_FOR_LEGACY_USE_ONLY, secret);
    let expected = hex::encode(ring::hmac::sign(&key, body).as_ref());
    assert_eq!(signed, expected);
    assert_eq!(signed, "6e7fbac105ca8e99dd5ed29951b4443fe97f7720");
}

#[test]
fn verify_signature_accepts_own_signature() {
    let state = AppState::new("test", b"deadbeef1234dacb4321");
    let body = b"{\"any\":\"bytes\"}";
    let signed = state.sign_request_for_test_only(body);
    let sig_bytes = decode_signature(signed.as_bytes()).unwrap();
    assert!(state.verify_signature(body, &sig_bytes));
    assert!(!state.verify_signature(b"other", &sig_bytes));
}

#[test]
fn serializer_output_reparses() {
    let m = message();
    let line = vercel_log_drain::types::message_line(&m);
    let value: serde_json::Value = serde_json::from_slice(&line).unwrap();
    assert_eq!(value["id"], serde_json::Value::String("m1".to_string()));
    assert_eq!(
        value["message"],
        serde_json::Value::String("a \"quoted\" line".to_string())
    );
    assert_eq!(value["statusCode"], serde_json::Value::from(200));
    assert_eq!(value["buildId"], serde_json::Value::Null);
    assert_eq!(
        value["environment"],
        serde_json::Value::String("production".to_string())
    );
}

#[test]
fn serializer_exact_document() {
    let v = JsonValue::Arr(vec![
        JsonValue::Null,
        JsonValue::Bool(true),
        JsonValue::Int(-42),
        JsonValue::Str("a\\b\"c".to_string()),
        JsonValue::Obj(vec![("k".to_string(), JsonValue::Int(7))]),
    ]);
    let bytes = json_to_bytes(&v);
    assert_eq!(
        String::from_utf8(bytes).unwrap(),
        r#"[null,true,-42,"a\\b\"c",{"k":7}]"#
    );
}

#[test]
fn serializer_escapes_control_and_unicode() {
    let v = JsonValue::Str("a\nb\u{e9}".to_string());
    let bytes = json_to_bytes(&v);
    assert_eq!(String::from_utf8(bytes).unwrap(), r#""a\u000ab\u00e9""#);
}

#[test]
fn parse_json_reads_documents() {
    match parse_json("{\"a\":[1,true,null,\"x\"]}") {
        Some(JsonValue::Obj(fields)) => {
            assert_eq!(fields.len(), 1);
            assert_eq!(fields[0].0, "a");
            match &fields[0].1 {
                JsonValue::Arr(items) => {
                    assert!(matches!(items[0], JsonValue::Int(1)));
                    assert!(matches!(items[1], JsonValue::Bool(true)));
                    assert!(matches!(items[2], JsonValue::Null));
                    assert!(matches!(&items[3], JsonValue::Str(s) if s == "x"));
                }
                _ => unreachable!("expected an array"),
            }
        }
        _ => unreachable!("expected an object"),
    }
    assert!(parse_json("{").is_none());
    assert!(parse_json("").is_none());
}

#[test]
fn loki_payload_shape() {
    let driver = LokiDriver::new(
        "http://localhost:3100/loki/api/v1/push".to_string(),
        String::new(),
        String::new(),
    );
    assert!(!driver.use_basic_auth());
    let with_auth = LokiDriver::new(
        "http://localhost:3100".to_string(),
        "user".to_string(),
        "pass".to_string(),
    );
    assert!(with_auth.use_basic_auth());

    let m = message();
    let body = driver.build_payload(&m);
    let value: serde_json::Value = serde_json::from_slice(&body).unwrap();
    let stream = &value["streams"][0];
    assert_eq!(
        stream["stream"]["project"],
        serde_json::Value::String("web".to_string())
    );
    assert_eq!(
        stream["stream"]["deployment"],
        serde_json::Value::String("dpl_1".to_string())
    );
    assert_eq!(
        stream["stream"]["branch"],
        serde_json::Value::String("main".to_string())
    );
    let pair = &stream["values"][0];
    assert_eq!(
        pair[0],
        serde_json::Value::String("1660730000000000000".to_string())
    );
    let embedded: serde_json::Value =
        serde_json::from_str(pair[1].as_str().unwrap()).unwrap();
    assert_eq!(embedded["id"], serde_json::Value::String("m1".to_string()));

    assert!(driver.accept_status(200));
    assert!(driver.accept_status(204));
    assert!(!driver.accept_status(199));
    assert!(!driver.accept_status(300));
    assert!(!driver.accept_status(500));
}

#[test]
fn stdout_driver_renders_lines() {
    let mut driver = StdOutDriver::new();
    assert!(driver.init());
    let m = message();
    let line = driver.send_log(&m);
    let value: serde_json::Value = serde_json::from_slice(&line).unwrap();
    assert_eq!(value["source"], serde_json::Value::String("build".to_string()));
}

#[test]
fn controller_counts_and_reports_progress() {
    let drivers = vec![LogDriver::StdOut(StdOutDriver::new())];
    let mut controller = Controller::new(drivers);
    assert_eq!(controller.drivers_len(), 1);
    assert_eq!(controller.processed_messages(), 0);
    for n in 1u64..100 {
        let progress = controller.record_outcome(true);
        assert!(!progress, "message {n}");
        assert_eq!(controller.processed_messages(), n);
    }
    assert!(controller.record_outcome(true));
    assert_eq!(controller.processed_messages(), 100);
    // A failed message is noted but not counted.
    assert!(controller.record_outcome(false));
    assert_eq!(controller.processed_messages(), 100);
}

#[test]
fn controller_keeps_driver_order() {
    let drivers = vec![
        LogDriver::Loki(LokiDriver::new(
            "http://localhost".to_string(),
            String::new(),
            String::new(),
        )),
        LogDriver::StdOut(StdOutDriver::new()),
    ];
    let mut controller = Controller::new(drivers);
    assert_eq!(controller.drivers_len(), 2);
    assert!(matches!(controller.driver_mut(0), LogDriver::Loki(_)));
    assert!(matches!(controller.driver_mut(1), LogDriver::StdOut(_)));
}
