use ccswitch::client::{extract_content, parse_response};
use ccswitch::error::CCSwitchError;
use ccswitch::json::Json;

fn s(t: &str) -> Json {
    Json::Str(t.to_string())
}

fn obj(members: Vec<(&str, Json)>) -> Json {
    Json::Object(members.into_iter().map(|(k, v)| (k.to_string(), v)).collect())
}

fn no_content() -> CCSwitchError {
    CCSwitchError::Channel("Could not extract content from response".to_string())
}

#[test]
fn extracts_chat_message_content() {
    let body = obj(vec![("choices", Json::Array(vec![obj(vec![("message", obj(vec![("content", s("hi"))]))])]))]);
    assert_eq!(extract_content(&body), Ok("hi".to_string()));
}

#[test]
fn extracts_streaming_delta_content() {
    let body = obj(vec![("choices", Json::Array(vec![obj(vec![("delta", obj(vec![("content", s("yo"))]))])]))]);
    assert_eq!(extract_content(&body), Ok("yo".to_string()));
}

#[test]
fn extracts_plain_content_string() {
    assert_eq!(extract_content(&obj(vec![("content", s("hi"))])), Ok("hi".to_string()));
}

#[test]
fn extracts_first_content_block_text() {
    let body = obj(vec![("content", Json::Array(vec![obj(vec![("text", s("hi"))]), obj(vec![("text", s("no"))])]))]);
    assert_eq!(extract_content(&body), Ok("hi".to_string()));
}

#[test]
fn extracts_text_field() {
    assert_eq!(extract_content(&obj(vec![("text", s("hi"))])), Ok("hi".to_string()));
}

#[test]
fn extracts_response_field() {
    assert_eq!(extract_content(&obj(vec![("response", s("hi"))])), Ok("hi".to_string()));
}

#[test]
fn unknown_shape_is_an_extraction_error() {
    assert_eq!(extract_content(&obj(vec![("foo", s("bar"))])), Err(no_content()));
    assert_eq!(extract_content(&s("hi")), Err(no_content()));
    assert_eq!(extract_content(&Json::Null), Err(no_content()));
}

#[test]
fn message_takes_precedence_over_delta_and_later_shapes() {
    let choice = obj(vec![
        ("delta", obj(vec![("content", s("second"))])),
        ("message", obj(vec![("content", s("first"))])),
    ]);
    let body = obj(vec![("text", s("last")), ("choices", Json::Array(vec![choice])), ("content", s("third"))]);
    assert_eq!(extract_content(&body), Ok("first".to_string()));
}

#[test]
fn non_string_message_content_falls_through_to_delta() {
    let choice = obj(vec![
        ("message", obj(vec![("content", Json::Null)])),
        ("delta", obj(vec![("content", s("yo"))])),
    ]);
    let body = obj(vec![("choices", Json::Array(vec![choice]))]);
    assert_eq!(extract_content(&body), Ok("yo".to_string()));
}

#[test]
fn empty_choices_fall_through_to_text() {
    let body = obj(vec![("choices", Json::Array(vec![])), ("content", Json::UInt(3)), ("text", s("t"))]);
    assert_eq!(extract_content(&body), Ok("t".to_string()));
}

#[test]
fn empty_string_content_is_a_match() {
    assert_eq!(extract_content(&obj(vec![("content", s("")), ("text", s("x"))])), Ok(String::new()));
}

#[test]
fn parse_response_carries_channel_model_and_usage() {
    let body = obj(vec![("response", s("hello")), ("usage", obj(vec![("total_tokens", Json::UInt(7))]))]);
    let r = parse_response(Ok(body), "main".to_string(), "gpt-4".to_string()).unwrap();
    assert_eq!(r.content, "hello");
    assert_eq!(r.channel_used, "main");
    assert_eq!(r.model, "gpt-4");
    match r.usage {
        Some(Json::Object(fs)) => {
            assert_eq!(fs.len(), 1);
            assert_eq!(fs[0].0, "total_tokens");
            assert!(matches!(fs[0].1, Json::UInt(7)));
        }
        other => panic!("unexpected usage {:?}", other),
    }
}

#[test]
fn parse_response_without_usage() {
    let r = parse_response(Ok(obj(vec![("text", s("a"))])), "c".to_string(), "m".to_string()).unwrap();
    assert!(r.usage.is_none());
}

#[test]
fn parse_response_reports_unparsable_body() {
    let r = parse_response(Err("expected value at line 1".to_string()), "c".to_string(), "m".to_string());
    match r {
        Err(e) => assert_eq!(e, CCSwitchError::Serialization("Failed to parse response: expected value at line 1".to_string())),
        Ok(_) => panic!("expected an error"),
    }
}

#[test]
fn parse_response_reports_missing_content() {
    match parse_response(Ok(obj(vec![("foo", s("bar"))])), "c".to_string(), "m".to_string()) {
        Err(e) => assert_eq!(e, no_content()),
        Ok(_) => panic!("expected an error"),
    }
}
