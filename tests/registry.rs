use ccswitch::codec::{channel_from_json, channel_to_json, config_from_json, config_to_json};
use ccswitch::config::{Channel, Config};
use ccswitch::error::CCSwitchError;
use ccswitch::json::Json;

fn channel(name: &str, model: Option<&str>, enabled: bool, priority: u32) -> Channel {
    Channel {
        name: name.to_string(),
        url: format!("http://{}", name),
        api_key: Some(format!("key-{}", name)),
        model: model.map(|m| m.to_string()),
        enabled,
        priority,
    }
}

fn sample() -> Config {
    let mut c = Config::default();
    c.add_channel(channel("any", None, true, 0)).unwrap();
    c.add_channel(channel("gpt", Some("gpt-4"), true, 1)).unwrap();
    c.add_channel(channel("off", None, false, 2)).unwrap();
    c.add_channel(channel("Gpt-case", Some("GPT-4"), true, 3)).unwrap();
    c
}

#[test]
fn default_config_is_empty_with_default_settings() {
    let c = Config::default();
    assert!(c.channels.is_empty());
    assert_eq!(c.default_model, None);
    assert_eq!(c.timeout_seconds, 30);
    assert_eq!(c.retry_attempts, 3);
}

#[test]
fn channels_for_model_are_enabled_and_matching() {
    let c = sample();
    let names: Vec<&str> = c.get_channels_for_model("gpt-4").iter().map(|ch| ch.name.as_str()).collect();
    assert_eq!(names, vec!["any", "gpt"]);
    let names: Vec<&str> = c.get_channels_for_model("llama-3").iter().map(|ch| ch.name.as_str()).collect();
    assert_eq!(names, vec!["any"]);
    let names: Vec<&str> = c.get_channels_for_model("GPT-4").iter().map(|ch| ch.name.as_str()).collect();
    assert_eq!(names, vec!["any", "Gpt-case"]);
}

#[test]
fn duplicate_name_is_a_config_error_and_changes_nothing() {
    let mut c = sample();
    let before = c.clone();
    let r = c.add_channel(channel("gpt", None, true, 9));
    assert_eq!(r, Err(CCSwitchError::Config("Channel 'gpt' already exists".to_string())));
    assert_eq!(c, before);
}

#[test]
fn remove_missing_is_channel_not_found() {
    let mut c = sample();
    let before = c.clone();
    assert_eq!(c.remove_channel("nope"), Err(CCSwitchError::ChannelNotFound("nope".to_string())));
    assert_eq!(c, before);
}

#[test]
fn remove_deletes_only_that_channel() {
    let mut c = sample();
    c.remove_channel("gpt").unwrap();
    let names: Vec<&str> = c.list_channels().iter().map(|ch| ch.name.as_str()).collect();
    assert_eq!(names, vec!["any", "off", "Gpt-case"]);
    assert!(c.get_channel("gpt").is_none());
    c.add_channel(channel("gpt", None, true, 0)).unwrap();
    assert_eq!(c.get_channel("gpt").unwrap().priority, 0);
}

#[test]
fn get_channel_and_enabled_channels() {
    let c = sample();
    assert_eq!(c.get_channel("off").unwrap().enabled, false);
    let names: Vec<&str> = c.enabled_channels().iter().map(|ch| ch.name.as_str()).collect();
    assert_eq!(names, vec!["any", "gpt", "Gpt-case"]);
}

#[test]
fn new_channel_is_enabled_with_priority_zero() {
    let ch = Channel::new("n".to_string(), "u".to_string(), None, Some("m".to_string()));
    assert_eq!(ch, Channel { name: "n".to_string(), url: "u".to_string(), api_key: None, model: Some("m".to_string()), enabled: true, priority: 0 });
}

#[test]
fn persisted_configuration_reloads_identically() {
    let mut c = sample();
    c.default_model = Some("gpt-4".to_string());
    c.timeout_seconds = 45;
    c.retry_attempts = 7;
    let j = config_to_json(&c);
    assert_eq!(config_from_json(&j), Ok(c));
    let empty = Config::default();
    assert_eq!(config_from_json(&config_to_json(&empty)), Ok(empty));
}

#[test]
fn channel_record_round_trips() {
    let ch = channel("x", Some("m"), false, 4294967295);
    assert_eq!(channel_from_json(&channel_to_json(&ch)), Ok(ch));
}

#[test]
fn missing_optional_members_read_as_absent() {
    let j = Json::Object(vec![
        ("name".to_string(), Json::Str("a".to_string())),
        ("url".to_string(), Json::Str("u".to_string())),
        ("enabled".to_string(), Json::Bool(true)),
        ("priority".to_string(), Json::UInt(2)),
    ]);
    let ch = channel_from_json(&j).unwrap();
    assert_eq!(ch.api_key, None);
    assert_eq!(ch.model, None);
    assert_eq!(ch.priority, 2);
}

#[test]
fn malformed_records_are_config_errors() {
    let bad_priority = Json::Object(vec![
        ("name".to_string(), Json::Str("a".to_string())),
        ("url".to_string(), Json::Str("u".to_string())),
        ("enabled".to_string(), Json::Bool(true)),
        ("priority".to_string(), Json::UInt(4294967296)),
    ]);
    assert!(matches!(channel_from_json(&bad_priority), Err(CCSwitchError::Config(_))));
    assert!(matches!(config_from_json(&Json::Null), Err(CCSwitchError::Config(_))));
}

#[test]
fn duplicate_names_in_a_record_are_rejected() {
    let rec = |name: &str| channel_to_json(&channel(name, None, true, 0));
    let j = Json::Object(vec![
        ("channels".to_string(), Json::Object(vec![("a".to_string(), rec("a")), ("a".to_string(), rec("a"))])),
        ("timeout_seconds".to_string(), Json::UInt(30)),
        ("retry_attempts".to_string(), Json::UInt(3)),
    ]);
    assert_eq!(config_from_json(&j), Err(CCSwitchError::Config("Channel 'a' already exists".to_string())));
}

#[test]
fn record_key_must_match_channel_name() {
    let rec = channel_to_json(&channel("a", None, true, 0));
    let j = Json::Object(vec![
        ("channels".to_string(), Json::Object(vec![("other".to_string(), rec)])),
        ("timeout_seconds".to_string(), Json::UInt(30)),
        ("retry_attempts".to_string(), Json::UInt(3)),
    ]);
    assert!(matches!(config_from_json(&j), Err(CCSwitchError::Config(_))));
}
