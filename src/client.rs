use vstd::prelude::*;
use crate::error::CCSwitchError;
use crate::json::Json;
use crate::probe::{reason_or, reason_text};
use crate::text::{decimal, push_decimal};

verus! {

/// Model used when neither the request nor the configuration names one.
pub const FALLBACK_MODEL: &'static str = "gpt-3.5-turbo";

/// The normalised result of one generation request.
#[derive(Debug)]
pub struct APIResponse {
    pub content: String,
    pub channel_used: String,
    pub model: String,
    /// The top-level `usage` member, passed through uninterpreted.
    pub usage: Option<Json>,
}

/// Caller-supplied parameters of a generation request.
#[derive(Debug, Clone, PartialEq)]
pub struct RequestOptions {
    /// The model to ask for; the configured default applies when absent.
    pub model: Option<String>,
    pub max_tokens: Option<u32>,
    /// The sampling temperature, as the decimal literal sent upstream.
    pub temperature: Option<String>,
    pub stream: bool,
}

impl Default for RequestOptions {
    fn default() -> (r: RequestOptions)
        ensures
            r.model is None,
            r.max_tokens == Some(1000u32),
            r.temperature is Some && r.temperature->0@ == "0.7"@,
            !r.stream,
    {
        RequestOptions { model: None, max_tokens: Some(1000), temperature: Some("0.7".to_owned()), stream: false }
    }
}

/// The model a request is made for: the requested one, else the configured
/// default, else the fallback model.
pub open spec fn effective_model_spec(requested: Option<String>, configured: Option<String>) -> Seq<char> {
    match requested {
        Some(m) => m@,
        None => match configured {
            Some(d) => d@,
            None => FALLBACK_MODEL@,
        },
    }
}

pub fn effective_model(requested: &Option<String>, configured: &Option<String>) -> (r: String)
    ensures
        r@ == effective_model_spec(*requested, *configured),
{
    match requested {
        Some(m) => m.clone(),
        None => match configured {
            Some(d) => d.clone(),
            None => FALLBACK_MODEL.to_owned(),
        },
    }
}

/// `j` is the one-element message list `[{"role": "user", "content": text}]`.
pub open spec fn is_user_message_list(j: Json, text: Seq<char>) -> bool {
    match j {
        Json::Array(items) => items@.len() == 1 && match items@[0] {
            Json::Object(fs) => fs@.len() == 2
                && fs@[0].0@ == "role"@ && fs@[0].1.str_spec() == Some("user"@)
                && fs@[1].0@ == "content"@ && fs@[1].1.str_spec() == Some(text),
            _ => false,
        },
        _ => false,
    }
}

/// The message list of a chat request carrying `text` from the user.
pub fn user_messages(text: &str) -> (r: Json)
    ensures
        is_user_message_list(r, text@),
{
    let msg = Json::Object(vec![
        ("role".to_owned(), Json::Str("user".to_owned())),
        ("content".to_owned(), Json::Str(text.to_owned())),
    ]);
    Json::Array(vec![msg])
}

/// An optional count as a JSON value: the number, or `null`.
pub open spec fn count_value(n: Option<u32>) -> Json {
    match n {
        Some(v) => Json::UInt(v as u64),
        None => Json::Null,
    }
}

/// The body of a real request: `{model, messages, max_tokens, temperature, stream}`.
pub fn request_payload(model: &str, prompt: &str, options: &RequestOptions) -> (r: Json)
    ensures
        match r {
            Json::Object(fs) => fs@.len() == 5
                && fs@[0].0@ == "model"@ && fs@[0].1.str_spec() == Some(model@)
                && fs@[1].0@ == "messages"@ && is_user_message_list(fs@[1].1, prompt@)
                && fs@[2].0@ == "max_tokens"@ && fs@[2].1 == count_value(options.max_tokens)
                && fs@[3].0@ == "temperature"@ && match options.temperature {
                    Some(t) => fs@[3].1 is Number && fs@[3].1->Number_0@ == t@,
                    None => fs@[3].1 is Null,
                }
                && fs@[4].0@ == "stream"@ && fs@[4].1 == Json::Bool(options.stream),
            _ => false,
        },
{
    let max_tokens = match options.max_tokens {
        Some(v) => Json::UInt(v as u64),
        None => Json::Null,
    };
    let temperature = match &options.temperature {
        Some(t) => Json::Number(t.clone()),
        None => Json::Null,
    };
    Json::Object(vec![
        ("model".to_owned(), Json::Str(model.to_owned())),
        ("messages".to_owned(), user_messages(prompt)),
        ("max_tokens".to_owned(), max_tokens),
        ("temperature".to_owned(), temperature),
        ("stream".to_owned(), Json::Bool(options.stream)),
    ])
}

/// The message of the error for a real request refused with `status`.
pub open spec fn refusal_message(status: u16, body: Seq<char>) -> Seq<char> {
    "API request failed: "@ + decimal(status as nat) + " "@ + reason_or(status, "<unknown status code>"@)
        + " - "@ + body
}

/// The error for a real request that upstream answered with a non-2xx
/// `status` and this response body.
pub fn dispatch_error(status: u16, body: &str) -> (r: CCSwitchError)
    ensures
        match r {
            CCSwitchError::Channel(m) => m@ == refusal_message(status, body@),
            _ => false,
        },
{
    let mut m = "API request failed: ".to_owned();
    push_decimal(&mut m, status as u64);
    m.append(" ");
    let reason = reason_text(status, "<unknown status code>");
    m.append(reason.as_str());
    m.append(" - ");
    m.append(body);
    CCSwitchError::Channel(m)
}

/// The message of the error for a response body that is not JSON.
pub open spec fn unparsable_message(detail: Seq<char>) -> Seq<char> {
    "Failed to parse response: "@ + detail
}

/// Builds the result of a real request from its parsed body (or the JSON
/// parser's description of why the body is not JSON).
pub fn parse_response(parsed: Result<Json, String>, channel_name: String, model: String) -> (r: Result<APIResponse, CCSwitchError>)
    ensures
        match parsed {
            Err(d) => match r {
                Err(CCSwitchError::Serialization(m)) => m@ == unparsable_message(d@),
                _ => false,
            },
            Ok(body) => match extracted_content(body) {
                Some(text) => match r {
                    Ok(resp) => resp.content@ == text && resp.channel_used@ == channel_name@
                        && resp.model@ == model@ && resp.usage == body.get_spec("usage"@),
                    Err(_) => false,
                },
                None => match r {
                    Err(CCSwitchError::Channel(m)) => m@ == no_content_message(),
                    _ => false,
                },
            },
        },
{
    match parsed {
        Err(d) => {
            let mut m = "Failed to parse response: ".to_owned();
            m.append(d.as_str());
            Err(CCSwitchError::Serialization(m))
        },
        Ok(body) => {
            match extract_content(&body) {
                Ok(content) => {
                    let usage = body.take_member("usage");
                    Ok(APIResponse { content, channel_used: channel_name, model, usage })
                },
                Err(e) => Err(e),
            }
        },
    }
}

/// The text at `j.key`, if that member is a string.
pub open spec fn member_str(j: Json, key: Seq<char>) -> Option<Seq<char>> {
    match j.get_spec(key) {
        Some(v) => v.str_spec(),
        None => None,
    }
}

/// The text at `j.outer.inner`, if that member is a string.
pub open spec fn nested_str(j: Json, outer: Seq<char>, inner: Seq<char>) -> Option<Seq<char>> {
    match j.get_spec(outer) {
        Some(v) => member_str(v, inner),
        None => None,
    }
}

/// The first element of the array at `j.key`.
pub open spec fn first_of_member(j: Json, key: Seq<char>) -> Option<Json> {
    match j.get_spec(key) {
        Some(v) => v.first_spec(),
        None => None,
    }
}

/// Shapes 1 and 2: `choices[0].message.content`, then `choices[0].delta.content`.
pub open spec fn choice_content(body: Json) -> Option<Seq<char>> {
    match first_of_member(body, "choices"@) {
        Some(c) => match nested_str(c, "message"@, "content"@) {
            Some(s) => Some(s),
            None => nested_str(c, "delta"@, "content"@),
        },
        None => None,
    }
}

/// Shape 4: the `text` of the first element of a `content` array.
pub open spec fn content_block_text(body: Json) -> Option<Seq<char>> {
    match first_of_member(body, "content"@) {
        Some(b) => member_str(b, "text"@),
        None => None,
    }
}

/// The content string of a response body: the first shape that matches, in
/// order chat message, streaming delta, `content` string, first `content`
/// block's `text`, `text`, `response`.
pub open spec fn extracted_content(body: Json) -> Option<Seq<char>> {
    if choice_content(body) is Some {
        choice_content(body)
    } else if member_str(body, "content"@) is Some {
        member_str(body, "content"@)
    } else if content_block_text(body) is Some {
        content_block_text(body)
    } else if member_str(body, "text"@) is Some {
        member_str(body, "text"@)
    } else {
        member_str(body, "response"@)
    }
}

/// The message of the error for a body with no recognised content.
pub open spec fn no_content_message() -> Seq<char> {
    "Could not extract content from response"@
}

pub(crate) fn member_text<'a>(j: &'a Json, key: &str) -> (r: Option<&'a String>)
    ensures
        match r {
            Some(s) => member_str(*j, key@) == Some(s@),
            None => member_str(*j, key@) is None,
        },
{
    match j.get(key) {
        Some(v) => v.as_str(),
        None => None,
    }
}

fn nested_text<'a>(j: &'a Json, outer: &str, inner: &str) -> (r: Option<&'a String>)
    ensures
        match r {
            Some(s) => nested_str(*j, outer@, inner@) == Some(s@),
            None => nested_str(*j, outer@, inner@) is None,
        },
{
    match j.get(outer) {
        Some(v) => member_text(v, inner),
        None => None,
    }
}

fn first_of<'a>(j: &'a Json, key: &str) -> (r: Option<&'a Json>)
    ensures
        match r {
            Some(v) => first_of_member(*j, key@) == Some(*v),
            None => first_of_member(*j, key@) is None,
        },
{
    match j.get(key) {
        Some(v) => v.first(),
        None => None,
    }
}

/// Extracts the canonical content string from a response body.
pub fn extract_content(response: &Json) -> (r: Result<String, CCSwitchError>)
    ensures
        match r {
            Ok(s) => extracted_content(*response) == Some(s@),
            Err(e) => extracted_content(*response) is None && (match e {
                CCSwitchError::Channel(m) => m@ == no_content_message(),
                _ => false,
            }),
        },
{
    let mut found: Option<&String> = None;
    match first_of(response, "choices") {
        Some(c) => {
            found = nested_text(c, "message", "content");
            if found.is_none() {
                found = nested_text(c, "delta", "content");
            }
        },
        None => {},
    }
    if found.is_none() {
        found = member_text(response, "content");
    }
    if found.is_none() {
        match first_of(response, "content") {
            Some(b) => {
                found = member_text(b, "text");
            },
            None => {},
        }
    }
    if found.is_none() {
        found = member_text(response, "text");
    }
    if found.is_none() {
        found = member_text(response, "response");
    }
    match found {
        Some(s) => Ok(s.clone()),
        None => Err(CCSwitchError::Channel("Could not extract content from response".to_owned())),
    }
}

} // verus!
