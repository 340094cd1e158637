use vercel_log_drain::json::JsonValue;
use vercel_log_drain::types::parse_payload;

const SAMPLE_1: &str = r#"[{"id":"m1","message":"Build started","timestamp":1660730000000,"type":"stdout","source":"build","projectName":"web","projectId":"prj_1","deploymentId":"dpl_1","host":"example.vercel.app"},{"id":"m2","timestamp":1660730001000,"source":"build","projectName":"web","projectId":"prj_1","deploymentId":"dpl_1","host":"example.vercel.app"}]"#;

const SAMPLE_2: &str = r#"[{"id":"m7","message":"warning: slow build","timestamp":1660730006000,"type":"stderr","source":"build","projectName":"web","projectId":"prj_1","deploymentId":"dpl_1","host":"example.vercel.app","buildId":"bld_2","entrypoint":"api/index.js"}]"#;

const SAMPLE_3: &str = r#"[{"id":"m8","message":"served asset","timestamp":1660730007000,"source":"static","projectName":"web","projectId":"prj_1","deploymentId":"dpl_3","host":"example.vercel.app","path":"/favicon.ico","statusCode":304}]"#;

const TEST_BUILD: &str = r#"[{"id":"m3","message":"Cloning github.com/acme/web","timestamp":1660730002000,"source":"build","projectId":"prj_1","deploymentId":"dpl_1","host":"example.vercel.app","buildId":"bld_1"}]"#;

const TEST_LAMBDA: &str = r#"[{"id":"m4","message":"START RequestId: abc","timestamp":1660730003000,"source":"lambda","projectId":"prj_1","deploymentId":"dpl_2","host":"example.vercel.app","path":"/api/hello","requestId":"req_1","statusCode":200,"executionRegion":"iad1","proxy":{"timestamp":1660730003000,"method":"GET","scheme":"https","host":"example.vercel.app","userAgent":["curl/8.0"],"statusCode":200,"clientIp":"203.0.113.1","region":"iad1","cacheId":"c1"}}]"#;

const TEST_EDGE: &str = r#"[{"id":"m5","message":"edge hit","timestamp":1660730004000,"source":"edge","projectId":"prj_1","deploymentId":"dpl_2","host":"example.vercel.app","level":"info","environment":"production","branch":"main"}]"#;

const TEST_STATIC: &str = r#"[{"id":"m6","timestamp":1660730005000,"source":"static","projectId":"prj_1","deploymentId":"dpl_2","host":"example.vercel.app","proxy":{"timestamp":1660730005000,"method":"GET","scheme":"https","host":"example.vercel.app","clientIp":"198.51.100.7","region":"fra1"}}]"#;

const STRUCTURED_1: &str = r#"[{"id":"s1","message":"{\"logType\":\"location\",\"lat\":1,\"lon\":2}","timestamp":3,"source":"lambda","projectId":"p","deploymentId":"d","host":"h"}]"#;

const STRUCTURED_2: &str = r#"[{"id":"s2","message":{"logType":"location","lat":5},"timestamp":4,"source":"lambda","projectId":"p","deploymentId":"d","host":"h"}]"#;

#[test]
fn all_seen_messages_parse_ok() {
    let test_data = [
        SAMPLE_1,
        SAMPLE_2,
        SAMPLE_3,
        // The platform's test requests, missing the projectName field
        TEST_BUILD,
        TEST_LAMBDA,
        TEST_EDGE,
        TEST_STATIC,
    ];
    for data in test_data {
        let result = parse_payload(data);
        assert!(result.is_some());
    }
}

#[test]
fn parses_structured_messages() {
    let test_data = [STRUCTURED_1, STRUCTURED_2, SAMPLE_1];
    for (index, data) in test_data.iter().enumerate() {
        let payload = parse_payload(data).unwrap();
        for msg in payload.0 {
            match index {
                0 => assert!(matches!(msg.message, JsonValue::Obj(_))),
                1 => assert!(matches!(msg.message, JsonValue::Obj(_))),
                _ => assert!(matches!(
                    msg.message,
                    JsonValue::Str(_) | JsonValue::Null
                )),
            }
        }
    }
}

#[test]
fn parses_structured_data_as_expected() {
    let result = parse_payload(STRUCTURED_1);
    assert!(result.is_some());
    let payload = result.unwrap();
    let msg = payload.0.first().unwrap();
    match &msg.message {
        JsonValue::Obj(fields) => {
            let log_type = fields
                .iter()
                .find(|(k, _)| k == "logType")
                .map(|(_, v)| v)
                .unwrap();
            match log_type {
                JsonValue::Str(s) => assert_eq!(s, "location"),
                _ => unreachable!("expected a string logType"),
            }
        }
        _ => {
            unreachable!("expected structured message")
        }
    }
}

/// The decode rule unwraps one level only and keeps plain strings verbatim.
#[test]
fn message_decode_rule_keeps_plain_strings() {
    let data = r#"[{"id":"s3","message":"hello","timestamp":5,"source":"build","projectId":"p","deploymentId":"d","host":"h"}]"#;
    let payload = parse_payload(data).unwrap();
    match &payload.0[0].message {
        JsonValue::Str(s) => assert_eq!(s, "hello"),
        _ => unreachable!("expected the plain string kept verbatim"),
    }
}

/// A JSON-encoded string that itself holds JSON is replaced by the nested
/// parse result.
#[test]
fn message_decode_rule_unwraps_nested_json() {
    let data = r#"[{"id":"s4","message":"123","timestamp":6,"source":"build","projectId":"p","deploymentId":"d","host":"h"}]"#;
    let payload = parse_payload(data).unwrap();
    match &payload.0[0].message {
        JsonValue::Int(i) => assert_eq!(*i, 123),
        _ => unreachable!("expected the nested parse result"),
    }
}

/// A message missing a required field invalidates the whole payload.
#[test]
fn missing_required_field_fails() {
    let data = r#"[{"id":"m9","timestamp":7,"source":"build","projectId":"p","deploymentId":"d"}]"#;
    assert!(parse_payload(data).is_none());
}

/// A wrongly typed optional field invalidates the message.
#[test]
fn wrongly_typed_optional_field_fails() {
    let data = r#"[{"id":"m10","timestamp":8,"source":"build","projectId":"p","deploymentId":"d","host":"h","path":12}]"#;
    assert!(parse_payload(data).is_none());
}

/// A status code outside the small-integer range invalidates the message.
#[test]
fn out_of_range_status_code_fails() {
    let data = r#"[{"id":"m11","timestamp":9,"source":"build","projectId":"p","deploymentId":"d","host":"h","statusCode":70000}]"#;
    assert!(parse_payload(data).is_none());
}

/// Unknown fields are ignored.
#[test]
fn unknown_fields_are_ignored() {
    let data = r#"[{"id":"m12","timestamp":10,"source":"build","projectId":"p","deploymentId":"d","host":"h","somethingNew":{"a":1}}]"#;
    let payload = parse_payload(data).unwrap();
    assert_eq!(payload.0[0].id, "m12");
}

/// Proxy details decode, with a missing user agent defaulting to empty.
#[test]
fn proxy_details_decode() {
    let payload = parse_payload(TEST_STATIC).unwrap();
    let proxy = payload.0[0].proxy.as_ref().unwrap();
    assert_eq!(proxy.method, "GET");
    assert_eq!(proxy.client_ip, "198.51.100.7");
    assert!(proxy.user_agent.is_empty());
    assert!(proxy.status_code.is_none());

    let payload = parse_payload(TEST_LAMBDA).unwrap();
    let proxy = payload.0[0].proxy.as_ref().unwrap();
    assert_eq!(proxy.user_agent, vec!["curl/8.0".to_string()]);
    assert_eq!(proxy.status_code, Some(200));
}
