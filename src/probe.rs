use vstd::prelude::*;
use crate::config::Channel;
use crate::json::Json;
use crate::client::{is_user_message_list, user_messages};
use crate::text::{decimal, push_decimal};

verus! {

/// Outcome of one probe of one channel.
#[derive(Debug, Clone, PartialEq)]
pub struct ChannelStatus {
    pub name: String,
    pub available: bool,
    /// Present only when an HTTP exchange completed.
    pub response_time_ms: Option<u64>,
    /// Present exactly when the channel is unavailable.
    pub error: Option<String>,
}

/// What the transport reported for a probe request.
#[derive(Debug, Clone, PartialEq)]
pub enum ProbeOutcome {
    /// A response arrived with this status after this many milliseconds.
    Responded { status: u16, elapsed_ms: u64 },
    /// No response: the transport's description of the failure.
    Failed(String),
}

/// The registered reason phrase of an HTTP status code, if it has one.
pub uninterp spec fn reason_phrase_of(code: u16) -> Option<Seq<char>>;

/// Relies on reqwest's `StatusCode::from_u16` and `StatusCode::canonical_reason`
/// (from the http crate): the reason phrase depends on the code alone.
#[verifier::external_body]
fn canonical_reason(code: u16) -> (r: Option<String>)
    ensures
        match r {
            Some(s) => reason_phrase_of(code) == Some(s@),
            None => reason_phrase_of(code) is None,
        },
{
    match reqwest::StatusCode::from_u16(code) {
        Ok(s) => s.canonical_reason().map(|p| p.to_string()),
        Err(_) => None,
    }
}

/// The reason phrase of `code`, or `fallback` where it has none.
pub open spec fn reason_or(code: u16, fallback: Seq<char>) -> Seq<char> {
    match reason_phrase_of(code) {
        Some(p) => p,
        None => fallback,
    }
}

pub(crate) fn reason_text(code: u16, fallback: &str) -> (r: String)
    ensures
        r@ == reason_or(code, fallback@),
{
    match canonical_reason(code) {
        Some(p) => p,
        None => fallback.to_owned(),
    }
}

/// A 2xx status.
pub open spec fn is_success_spec(code: u16) -> bool {
    200 <= code < 300
}

pub fn is_success(code: u16) -> (r: bool)
    ensures
        r == is_success_spec(code),
{
    200 <= code && code < 300
}

/// A status that shows the channel reachable: any 2xx, and 400, which a
/// probe's placeholder payload may draw from a working endpoint.
pub open spec fn probe_accepts(code: u16) -> bool {
    is_success_spec(code) || code == 400
}

/// The error text of a probe answered with a refusing status.
pub open spec fn probe_error_text(code: u16) -> Seq<char> {
    "HTTP "@ + decimal(code as nat) + ": "@ + reason_or(code, "Unknown"@)
}

/// Classifies the outcome of a probe of the channel called `name`.
pub fn classify_probe(name: String, outcome: ProbeOutcome) -> (r: ChannelStatus)
    ensures
        r.name@ == name@,
        r.available == (r.error is None),
        match outcome {
            ProbeOutcome::Responded { status, elapsed_ms } => r.available == probe_accepts(status)
                && r.response_time_ms == Some(elapsed_ms)
                && (!r.available ==> r.error is Some && r.error->0@ == probe_error_text(status)),
            ProbeOutcome::Failed(d) => !r.available && r.response_time_ms is None
                && r.error is Some && r.error->0@ == d@,
        },
{
    match outcome {
        ProbeOutcome::Responded { status, elapsed_ms } => {
            if is_success(status) || status == 400 {
                ChannelStatus { name, available: true, response_time_ms: Some(elapsed_ms), error: None }
            } else {
                let mut e = "HTTP ".to_owned();
                push_decimal(&mut e, status as u64);
                e.append(": ");
                let reason = reason_text(status, "Unknown");
                e.append(reason.as_str());
                ChannelStatus { name, available: false, response_time_ms: Some(elapsed_ms), error: Some(e) }
            }
        },
        ProbeOutcome::Failed(d) => {
            ChannelStatus { name, available: false, response_time_ms: None, error: Some(d) }
        },
    }
}

/// The model a probe of `channel` asks for: its own, else `test`.
pub open spec fn probe_model(channel: Channel) -> Seq<char> {
    match channel.model {
        Some(m) => m@,
        None => "test"@,
    }
}

/// The synthetic body of a probe: `{model, messages: [Hello], max_tokens: 1}`.
pub fn probe_payload(channel: &Channel) -> (r: Json)
    ensures
        match r {
            Json::Object(fs) => fs@.len() == 3
                && fs@[0].0@ == "model"@ && fs@[0].1.str_spec() == Some(probe_model(*channel))
                && fs@[1].0@ == "messages"@ && is_user_message_list(fs@[1].1, "Hello"@)
                && fs@[2].0@ == "max_tokens"@ && fs@[2].1 == Json::UInt(1),
            _ => false,
        },
{
    let model = match &channel.model {
        Some(m) => m.clone(),
        None => "test".to_owned(),
    };
    Json::Object(vec![
        ("model".to_owned(), Json::Str(model)),
        ("messages".to_owned(), user_messages("Hello")),
        ("max_tokens".to_owned(), Json::UInt(1)),
    ])
}

/// The value of the `Authorization` header for `channel`, when it has a key.
pub fn auth_header(channel: &Channel) -> (r: Option<String>)
    ensures
        match channel.api_key {
            Some(k) => r is Some && r->0@ == "Bearer "@ + k@,
            None => r is None,
        },
{
    match &channel.api_key {
        Some(k) => {
            let mut h = "Bearer ".to_owned();
            h.append(k.as_str());
            Some(h)
        },
        None => None,
    }
}

} // verus!
