use ccswitch::config::Channel;
use ccswitch::json::Json;
use ccswitch::probe::{auth_header, classify_probe, is_success, probe_payload, ChannelStatus, ProbeOutcome};

fn responded(status: u16, elapsed_ms: u64) -> ProbeOutcome {
    ProbeOutcome::Responded { status, elapsed_ms }
}

#[test]
fn status_200_is_available() {
    let st = classify_probe("a".to_string(), responded(200, 12));
    assert_eq!(st, ChannelStatus { name: "a".to_string(), available: true, response_time_ms: Some(12), error: None });
}

#[test]
fn status_400_is_available() {
    let st = classify_probe("a".to_string(), responded(400, 5));
    assert!(st.available);
    assert_eq!(st.response_time_ms, Some(5));
    assert_eq!(st.error, None);
}

#[test]
fn status_204_is_available() {
    assert!(classify_probe("a".to_string(), responded(204, 1)).available);
}

#[test]
fn status_500_is_unavailable_with_code_in_error() {
    let st = classify_probe("a".to_string(), responded(500, 30));
    assert!(!st.available);
    assert_eq!(st.response_time_ms, Some(30));
    let e = st.error.unwrap();
    assert!(e.contains("500"));
    assert_eq!(e, "HTTP 500: Internal Server Error");
}

#[test]
fn status_401_and_404_are_unavailable() {
    assert_eq!(classify_probe("a".to_string(), responded(401, 1)).error.unwrap(), "HTTP 401: Unauthorized");
    assert_eq!(classify_probe("a".to_string(), responded(404, 1)).error.unwrap(), "HTTP 404: Not Found");
}

#[test]
fn unregistered_status_uses_unknown_reason() {
    let st = classify_probe("a".to_string(), responded(599, 1));
    assert!(!st.available);
    assert_eq!(st.error.unwrap(), "HTTP 599: Unknown");
}

#[test]
fn connection_failure_is_unavailable_without_timing() {
    let st = classify_probe("a".to_string(), ProbeOutcome::Failed("connection refused".to_string()));
    assert_eq!(
        st,
        ChannelStatus {
            name: "a".to_string(),
            available: false,
            response_time_ms: None,
            error: Some("connection refused".to_string()),
        }
    );
}

#[test]
fn success_range() {
    assert!(is_success(200));
    assert!(is_success(299));
    assert!(!is_success(199));
    assert!(!is_success(300));
    assert!(!is_success(400));
}

#[test]
fn bearer_header_only_with_key() {
    let mut ch = Channel::new("a".to_string(), "http://x".to_string(), Some("k1".to_string()), None);
    assert_eq!(auth_header(&ch), Some("Bearer k1".to_string()));
    ch.api_key = None;
    assert_eq!(auth_header(&ch), None);
}

fn member<'a>(fs: &'a [(String, Json)], i: usize, key: &str) -> &'a Json {
    assert_eq!(fs[i].0, key);
    &fs[i].1
}

#[test]
fn probe_payload_uses_channel_model_or_test() {
    let ch = Channel::new("a".to_string(), "http://x".to_string(), None, Some("llama-3".to_string()));
    for (channel, model) in [(ch.clone(), "llama-3"), (Channel { model: None, ..ch }, "test")] {
        match probe_payload(&channel) {
            Json::Object(fs) => {
                assert_eq!(fs.len(), 3);
                assert!(matches!(member(&fs, 0, "model"), Json::Str(m) if m == model));
                match member(&fs, 1, "messages") {
                    Json::Array(items) => {
                        assert_eq!(items.len(), 1);
                        match &items[0] {
                            Json::Object(m) => {
                                assert!(matches!(member(m, 0, "role"), Json::Str(r) if r == "user"));
                                assert!(matches!(member(m, 1, "content"), Json::Str(c) if c == "Hello"));
                            }
                            other => panic!("unexpected message {:?}", other),
                        }
                    }
                    other => panic!("unexpected messages {:?}", other),
                }
                assert!(matches!(member(&fs, 2, "max_tokens"), Json::UInt(1)));
            }
            other => panic!("unexpected payload {:?}", other),
        }
    }
}
