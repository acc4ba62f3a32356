use vstd::prelude::*;

verus! {

/// Every failure that the library reports.
#[derive(Debug, Clone, PartialEq)]
pub enum CCSwitchError {
    /// Schema, persistence or registry-consistency failure.
    Config(String),
    /// Upstream refused the real request, or its body held no content.
    Channel(String),
    /// Transport-level failure, with its description.
    Network(String),
    /// Malformed JSON, with its description.
    Serialization(String),
    /// Failure of the file system, with its description.
    Io(String),
    /// No channel of that name is registered.
    ChannelNotFound(String),
    /// No enabled channel serves that model.
    NoAvailableChannels(String),
    /// Every candidate was probed and none was available.
    AllChannelsFailed,
}

/// `prefix`, then `detail`, then `suffix`.
pub open spec fn framed(prefix: Seq<char>, detail: Seq<char>, suffix: Seq<char>) -> Seq<char> {
    prefix + detail + suffix
}

fn frame(prefix: &str, detail: &String, suffix: &str) -> (r: String)
    ensures
        r@ == framed(prefix@, detail@, suffix@),
{
    let mut m = prefix.to_owned();
    m.append(detail.as_str());
    m.append(suffix);
    m
}

impl CCSwitchError {
    /// The text shown to a user for this error.
    pub open spec fn message_spec(&self) -> Seq<char> {
        match self {
            CCSwitchError::Config(d) => framed("Configuration error: "@, d@, ""@),
            CCSwitchError::Channel(d) => framed("Channel error: "@, d@, ""@),
            CCSwitchError::Network(d) => framed("Network error: "@, d@, ""@),
            CCSwitchError::Serialization(d) => framed("Serialization error: "@, d@, ""@),
            CCSwitchError::Io(d) => framed("IO error: "@, d@, ""@),
            CCSwitchError::ChannelNotFound(n) => framed("Channel '"@, n@, "' not found"@),
            CCSwitchError::NoAvailableChannels(m) => framed("No available channels for model '"@, m@, "'"@),
            CCSwitchError::AllChannelsFailed => "All channels failed"@,
        }
    }

    pub fn message(&self) -> (r: String)
        ensures
            r@ == self.message_spec(),
    {
        match self {
            CCSwitchError::Config(d) => frame("Configuration error: ", d, ""),
            CCSwitchError::Channel(d) => frame("Channel error: ", d, ""),
            CCSwitchError::Network(d) => frame("Network error: ", d, ""),
            CCSwitchError::Serialization(d) => frame("Serialization error: ", d, ""),
            CCSwitchError::Io(d) => frame("IO error: ", d, ""),
            CCSwitchError::ChannelNotFound(n) => frame("Channel '", n, "' not found"),
            CCSwitchError::NoAvailableChannels(m) => frame("No available channels for model '", m, "'"),
            CCSwitchError::AllChannelsFailed => "All channels failed".to_owned(),
        }
    }
}

} // verus!
