use vstd::prelude::*;
use crate::client::{member_str, member_text};
use crate::config::{has_name, Channel, Config};
use crate::error::CCSwitchError;
use crate::json::{lookup_from, Json};

verus! {

/// The views of an optional string.
pub open spec fn text_view(o: Option<String>) -> Option<Seq<char>> {
    match o {
        Some(s) => Some(s@),
        None => None,
    }
}

/// The optional text at `j.key`: a string, or nothing where the member is
/// `null` or missing; `None` where it is anything else.
pub open spec fn optional_text(j: Json, key: Seq<char>) -> Option<Option<Seq<char>>> {
    match j.get_spec(key) {
        Some(v) => match v {
            Json::Str(s) => Some(Some(s@)),
            Json::Null => Some(None),
            _ => None,
        },
        None => Some(None),
    }
}

/// `j` is a persisted record of `ch`.
pub open spec fn channel_encoded(j: Json, ch: Channel) -> bool {
    &&& member_str(j, "name"@) == Some(ch.name@)
    &&& member_str(j, "url"@) == Some(ch.url@)
    &&& optional_text(j, "api_key"@) == Some(text_view(ch.api_key))
    &&& optional_text(j, "model"@) == Some(text_view(ch.model))
    &&& j.get_spec("enabled"@) == Some(Json::Bool(ch.enabled))
    &&& j.get_spec("priority"@) == Some(Json::UInt(ch.priority as u64))
}

/// `j` is a persisted record of `c`: its channels, in order, under
/// `channels`, each keyed by its own name, and its settings beside them.
pub open spec fn config_encoded(j: Json, c: Config) -> bool {
    &&& match j.get_spec("channels"@) {
        Some(Json::Object(fs)) => fs@.len() == c.channels@.len()
            && (forall|i: int| 0 <= i < fs@.len() ==> channel_encoded(#[trigger] fs@[i].1, c.channels@[i]))
            && (forall|i: int| 0 <= i < fs@.len() ==> (#[trigger] fs@[i]).0@ == c.channels@[i].name@),
        _ => false,
    }
    &&& optional_text(j, "default_model"@) == Some(text_view(c.default_model))
    &&& j.get_spec("timeout_seconds"@) == Some(Json::UInt(c.timeout_seconds))
    &&& j.get_spec("retry_attempts"@) == Some(Json::UInt(c.retry_attempts as u64))
}

/// The two channels agree on every field.
pub open spec fn same_channel(a: Channel, b: Channel) -> bool {
    &&& a.name@ == b.name@
    &&& a.url@ == b.url@
    &&& text_view(a.api_key) == text_view(b.api_key)
    &&& text_view(a.model) == text_view(b.model)
    &&& a.enabled == b.enabled
    &&& a.priority == b.priority
}

/// The two configurations agree on every channel, in order, and every setting.
pub open spec fn same_config(a: Config, b: Config) -> bool {
    &&& a.channels@.len() == b.channels@.len()
    &&& forall|i: int| 0 <= i < a.channels@.len() ==> same_channel(#[trigger] a.channels@[i], b.channels@[i])
    &&& text_view(a.default_model) == text_view(b.default_model)
    &&& a.timeout_seconds == b.timeout_seconds
    &&& a.retry_attempts == b.retry_attempts
}

/// A record read back determines the configuration it was written from:
/// whatever reloading a persisted configuration yields agrees with it on
/// every channel and every setting.
pub proof fn lemma_round_trip(c: Config, j: Json, d: Config)
    requires
        config_encoded(j, c),
        config_encoded(j, d),
    ensures
        same_config(c, d),
{
    match j.get_spec("channels"@) {
        Some(Json::Object(fs)) => {
            assert forall|i: int| 0 <= i < c.channels@.len() implies same_channel(#[trigger] c.channels@[i], d.channels@[i]) by {
                assert(channel_encoded(fs@[i].1, c.channels@[i]));
                assert(channel_encoded(fs@[i].1, d.channels@[i]));
            }
        },
        _ => {},
    }
}

/// The member at `i` is the first one named `key` at or after `m`.
proof fn lemma_lookup_at(fields: Seq<(String, Json)>, key: Seq<char>, i: int, m: int)
    requires
        0 <= m <= i < fields.len(),
        fields[i].0@ == key,
        forall|k: int| m <= k < i ==> fields[k].0@ != key,
    ensures
        lookup_from(fields, key, m) == Some(fields[i].1),
    decreases i - m,
{
    if m < i {
        lemma_lookup_at(fields, key, i, m + 1);
    }
}

fn optional_json(o: &Option<String>) -> (r: Json)
    ensures
        match *o {
            Some(t) => r.str_spec() == Some(t@),
            None => r is Null,
        },
{
    match o {
        Some(t) => Json::Str(t.clone()),
        None => Json::Null,
    }
}

/// The persisted record of a channel.
pub fn channel_to_json(ch: &Channel) -> (r: Json)
    ensures
        channel_encoded(r, *ch),
{
    let r = Json::Object(vec![
        ("name".to_owned(), Json::Str(ch.name.clone())),
        ("url".to_owned(), Json::Str(ch.url.clone())),
        ("api_key".to_owned(), optional_json(&ch.api_key)),
        ("model".to_owned(), optional_json(&ch.model)),
        ("enabled".to_owned(), Json::Bool(ch.enabled)),
        ("priority".to_owned(), Json::UInt(ch.priority as u64)),
    ]);
    proof {
        reveal_strlit("name");
        reveal_strlit("url");
        reveal_strlit("api_key");
        reveal_strlit("model");
        reveal_strlit("enabled");
        reveal_strlit("priority");
        let fs = r->Object_0@;
        assert("name"@.len() == 4 && "url"@.len() == 3 && "api_key"@.len() == 7);
        assert("model"@.len() == 5 && "enabled"@.len() == 7 && "priority"@.len() == 8);
        assert("enabled"@[0] != "api_key"@[0]);
        lemma_lookup_at(fs, "name"@, 0, 0);
        lemma_lookup_at(fs, "url"@, 1, 0);
        lemma_lookup_at(fs, "api_key"@, 2, 0);
        lemma_lookup_at(fs, "model"@, 3, 0);
        lemma_lookup_at(fs, "enabled"@, 4, 0);
        lemma_lookup_at(fs, "priority"@, 5, 0);
    }
    r
}

/// The persisted record of a configuration.
pub fn config_to_json(c: &Config) -> (r: Json)
    ensures
        config_encoded(r, *c),
{
    let mut members: Vec<(String, Json)> = Vec::new();
    let mut i: usize = 0;
    while i < c.channels.len()
        invariant
            i <= c.channels@.len(),
            members@.len() == i,
            forall|k: int| 0 <= k < i ==> channel_encoded(#[trigger] members@[k].1, c.channels@[k]),
            forall|k: int| 0 <= k < i ==> (#[trigger] members@[k]).0@ == c.channels@[k].name@,
        decreases c.channels@.len() - i,
    {
        let ch = &c.channels[i];
        members.push((ch.name.clone(), channel_to_json(ch)));
        i = i + 1;
    }
    let r = Json::Object(vec![
        ("channels".to_owned(), Json::Object(members)),
        ("default_model".to_owned(), optional_json(&c.default_model)),
        ("timeout_seconds".to_owned(), Json::UInt(c.timeout_seconds)),
        ("retry_attempts".to_owned(), Json::UInt(c.retry_attempts as u64)),
    ]);
    proof {
        reveal_strlit("channels");
        reveal_strlit("default_model");
        reveal_strlit("timeout_seconds");
        reveal_strlit("retry_attempts");
        let fs = r->Object_0@;
        assert("channels"@.len() == 8 && "default_model"@.len() == 13);
        assert("timeout_seconds"@.len() == 15 && "retry_attempts"@.len() == 14);
        lemma_lookup_at(fs, "channels"@, 0, 0);
        lemma_lookup_at(fs, "default_model"@, 1, 0);
        lemma_lookup_at(fs, "timeout_seconds"@, 2, 0);
        lemma_lookup_at(fs, "retry_attempts"@, 3, 0);
    }
    r
}

fn malformed() -> (e: CCSwitchError)
    ensures
        e is Config,
{
    CCSwitchError::Config("Failed to parse config file: malformed record".to_owned())
}

fn optional_text_of(j: &Json, key: &str) -> (r: Option<Option<String>>)
    ensures
        match r {
            Some(o) => optional_text(*j, key@) == Some(text_view(o)),
            None => optional_text(*j, key@) is None,
        },
{
    match j.get(key) {
        Some(v) => match v {
            Json::Str(s) => Some(Some(s.clone())),
            Json::Null => Some(None),
            _ => None,
        },
        None => Some(None),
    }
}

/// Reads a channel back from its persisted record.
pub fn channel_from_json(j: &Json) -> (r: Result<Channel, CCSwitchError>)
    ensures
        match r {
            Ok(ch) => channel_encoded(*j, ch),
            Err(e) => e is Config && forall|ch: Channel| !channel_encoded(*j, ch),
        },
{
    let name = match member_text(j, "name") {
        Some(s) => s.clone(),
        None => return Err(malformed()),
    };
    let url = match member_text(j, "url") {
        Some(s) => s.clone(),
        None => return Err(malformed()),
    };
    let api_key = match optional_text_of(j, "api_key") {
        Some(o) => o,
        None => return Err(malformed()),
    };
    let model = match optional_text_of(j, "model") {
        Some(o) => o,
        None => return Err(malformed()),
    };
    let enabled = match j.get("enabled") {
        Some(Json::Bool(b)) => *b,
        _ => return Err(malformed()),
    };
    let priority = match j.get("priority") {
        Some(Json::UInt(p)) => {
            if *p > 4294967295u64 {
                return Err(malformed());
            }
            *p as u32
        },
        _ => return Err(malformed()),
    };
    Ok(Channel { name, url, api_key, model, enabled, priority })
}

/// Reads a configuration back from its persisted record. Fails exactly
/// when no configuration with unique channel names has that record; in
/// particular when a channel's key differs from its name.
pub fn config_from_json(j: &Json) -> (r: Result<Config, CCSwitchError>)
    ensures
        match r {
            Ok(c) => c.wf() && config_encoded(*j, c),
            Err(e) => e is Config && forall|c: Config| c.wf() ==> !config_encoded(*j, c),
        },
{
    let fields = match j.get("channels") {
        Some(Json::Object(fs)) => fs,
        _ => return Err(malformed()),
    };
    let default_model = match optional_text_of(j, "default_model") {
        Some(o) => o,
        None => return Err(malformed()),
    };
    let timeout_seconds = match j.get("timeout_seconds") {
        Some(Json::UInt(t)) => *t,
        _ => return Err(malformed()),
    };
    let retry_attempts = match j.get("retry_attempts") {
        Some(Json::UInt(n)) => {
            if *n > 4294967295u64 {
                return Err(malformed());
            }
            *n as u32
        },
        _ => return Err(malformed()),
    };
    let mut c = Config { channels: Vec::new(), default_model, timeout_seconds, retry_attempts };
    let mut i: usize = 0;
    while i < fields.len()
        invariant
            i <= fields@.len(),
            j.get_spec("channels"@) == Some(Json::Object(*fields)),
            c.wf(),
            c.channels@.len() == i,
            forall|k: int| 0 <= k < i ==> channel_encoded(fields@[k].1, #[trigger] c.channels@[k]),
            forall|k: int| 0 <= k < i ==> fields@[k].0@ == (#[trigger] c.channels@[k]).name@,
            optional_text(*j, "default_model"@) == Some(text_view(c.default_model)),
            j.get_spec("timeout_seconds"@) == Some(Json::UInt(c.timeout_seconds)),
            j.get_spec("retry_attempts"@) == Some(Json::UInt(c.retry_attempts as u64)),
        decreases fields@.len() - i,
    {
        let ch = match channel_from_json(&fields[i].1) {
            Ok(ch) => ch,
            Err(e) => {
                proof {
                    assert forall|d: Config| d.wf() implies !config_encoded(*j, d) by {
                        if config_encoded(*j, d) {
                            assert(channel_encoded(fields@[i as int].1, d.channels@[i as int]));
                        }
                    }
                }
                return Err(e);
            },
        };
        let same_key: bool = fields[i].0.eq(&ch.name);
        if !same_key {
            proof {
                assert forall|d: Config| d.wf() implies !config_encoded(*j, d) by {
                    if config_encoded(*j, d) {
                        assert(channel_encoded(fields@[i as int].1, d.channels@[i as int]));
                        assert(fields@[i as int].0@ == d.channels@[i as int].name@);
                    }
                }
            }
            return Err(malformed());
        }
        let ghost name = ch.name@;
        let ghost before = c.channels@;
        match c.add_channel(ch) {
            Ok(()) => {
                proof {
                    assert forall|k: int| 0 <= k < i + 1 implies channel_encoded(fields@[k].1, #[trigger] c.channels@[k]) by {
                        if k < i {
                            assert(c.channels@[k] == before[k]);
                        }
                    }
                    assert forall|k: int| 0 <= k < i + 1 implies fields@[k].0@ == (#[trigger] c.channels@[k]).name@ by {
                        if k < i {
                            assert(c.channels@[k] == before[k]);
                        }
                    }
                }
            },
            Err(e) => {
                proof {
                    let m = choose|m: int| 0 <= m < before.len() && before[m].name@ == name;
                    assert forall|d: Config| d.wf() implies !config_encoded(*j, d) by {
                        if config_encoded(*j, d) {
                            assert(channel_encoded(fields@[i as int].1, d.channels@[i as int]));
                            assert(channel_encoded(fields@[m].1, d.channels@[m]));
                            assert(channel_encoded(fields@[m].1, before[m]));
                            assert(d.channels@[m].name@ == d.channels@[i as int].name@);
                        }
                    }
                }
                return Err(e);
            },
        }
        i = i + 1;
    }
    Ok(c)
}

} // verus!
