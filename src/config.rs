use vstd::prelude::*;
use crate::error::CCSwitchError;

verus! {

/// A configured upstream endpoint.
#[derive(Debug, Clone, PartialEq)]
pub struct Channel {
    /// Unique key within a registry.
    pub name: String,
    pub url: String,
    /// Bearer token sent with every request, when present.
    pub api_key: Option<String>,
    /// The one model this channel serves; `None` serves any model.
    pub model: Option<String>,
    pub enabled: bool,
    /// Lower values are tried first.
    pub priority: u32,
}

impl Channel {
    /// A newly registered channel: enabled, with priority 0.
    pub fn new(name: String, url: String, api_key: Option<String>, model: Option<String>) -> (r: Channel)
        ensures
            r.name == name,
            r.url == url,
            r.api_key == api_key,
            r.model == model,
            r.enabled,
            r.priority == 0,
    {
        Channel { name, url, api_key, model, enabled: true, priority: 0 }
    }
}

/// The enabled channels of `s`, in their order in `s`.
pub open spec fn enabled_of(s: Seq<Channel>) -> Seq<Channel>
    decreases s.len(),
{
    if s.len() == 0 {
        Seq::empty()
    } else if s.last().enabled {
        enabled_of(s.drop_last()).push(s.last())
    } else {
        enabled_of(s.drop_last())
    }
}

/// Whether `ch` may be selected for `model`.
pub open spec fn serves(ch: Channel, model: Seq<char>) -> bool {
    ch.enabled && match ch.model {
        Some(m) => m@ == model,
        None => true,
    }
}

/// The channels of `s` that serve `model`, in their order in `s`.
pub open spec fn serving(s: Seq<Channel>, model: Seq<char>) -> Seq<Channel>
    decreases s.len(),
{
    if s.len() == 0 {
        Seq::empty()
    } else if serves(s.last(), model) {
        serving(s.drop_last(), model).push(s.last())
    } else {
        serving(s.drop_last(), model)
    }
}

/// A channel is among those serving `model` exactly when it is registered,
/// enabled, and either unrestricted or restricted to exactly `model`.
pub proof fn lemma_channels_for_model(s: Seq<Channel>, model: Seq<char>)
    ensures
        forall|c: Channel| #[trigger] serving(s, model).contains(c) <==> (s.contains(c) && serves(c, model)),
    decreases s.len(),
{
    if s.len() > 0 {
        let t = s.drop_last();
        let x = s.last();
        lemma_channels_for_model(t, model);
        assert(s == t.push(x));
        assert forall|c: Channel| #[trigger] serving(s, model).contains(c) <==> (s.contains(c) && serves(c, model)) by {
            if s.contains(c) && serves(c, model) {
                let i = choose|i: int| 0 <= i < s.len() && s[i] == c;
                if i < t.len() {
                    assert(t[i] == c);
                    assert(t.contains(c));
                    assert(serving(t, model).contains(c));
                    if serves(x, model) {
                        let j = choose|j: int| 0 <= j < serving(t, model).len() && serving(t, model)[j] == c;
                        assert(serving(s, model)[j] == c);
                    }
                } else {
                    assert(serving(s, model).last() == c);
                }
            }
            if serving(s, model).contains(c) {
                let j = choose|j: int| 0 <= j < serving(s, model).len() && serving(s, model)[j] == c;
                if serves(x, model) && j == serving(s, model).len() - 1 {
                    assert(s[s.len() - 1] == c);
                } else {
                    assert(serving(t, model)[j] == c);
                    assert(serving(t, model).contains(c));
                    let i = choose|i: int| 0 <= i < t.len() && t[i] == c;
                    assert(s[i] == c);
                }
            }
        }
    }
}

/// `r` refers, position by position, to the channels of `s`.
pub open spec fn refers_to(r: Seq<&Channel>, s: Seq<Channel>) -> bool {
    r.len() == s.len() && forall|i: int| 0 <= i < r.len() ==> *r[i] == s[i]
}

/// No two channels of `s` share a name.
pub open spec fn names_unique(s: Seq<Channel>) -> bool {
    forall|i: int, j: int| 0 <= i < s.len() && 0 <= j < s.len() && i != j ==> s[i].name@ != s[j].name@
}

/// Some channel of `s` is called `name`.
pub open spec fn has_name(s: Seq<Channel>, name: Seq<char>) -> bool {
    exists|i: int| 0 <= i < s.len() && s[i].name@ == name
}

/// The message of the error for a name that is already registered.
pub open spec fn duplicate_message(name: Seq<char>) -> Seq<char> {
    "Channel '"@ + name + "' already exists"@
}

/// The registry of channels with the settings persisted beside it.
/// Channels are kept in the order in which they were added.
#[derive(Debug, Clone, PartialEq)]
pub struct Config {
    pub channels: Vec<Channel>,
    pub default_model: Option<String>,
    pub timeout_seconds: u64,
    /// Kept for the persisted schema; no logic consults it.
    pub retry_attempts: u32,
}

impl Default for Config {
    fn default() -> (r: Config)
        ensures
            r.channels@.len() == 0,
            r.default_model is None,
            r.timeout_seconds == 30,
            r.retry_attempts == 3,
    {
        Config { channels: Vec::new(), default_model: None, timeout_seconds: 30, retry_attempts: 3 }
    }
}

impl Config {
    /// The registry's invariant: names are unique.
    pub open spec fn wf(&self) -> bool {
        names_unique(self.channels@)
    }

    fn index_of(&self, name: &str) -> (r: Option<usize>)
        ensures
            match r {
                Some(i) => i < self.channels@.len() && self.channels@[i as int].name@ == name@,
                None => !has_name(self.channels@, name@),
            },
    {
        let key = name.to_owned();
        let mut i: usize = 0;
        while i < self.channels.len()
            invariant
                i <= self.channels@.len(),
                key@ == name@,
                forall|j: int| 0 <= j < i ==> self.channels@[j].name@ != name@,
            decreases self.channels@.len() - i,
        {
            if self.channels[i].name.eq(&key) {
                return Some(i);
            }
            i = i + 1;
        }
        None
    }

    /// Registers `channel`, which must not share its name with a registered one.
    pub fn add_channel(&mut self, channel: Channel) -> (r: Result<(), CCSwitchError>)
        requires
            old(self).wf(),
        ensures
            final(self).wf(),
            match r {
                Ok(()) => !has_name(old(self).channels@, channel.name@)
                    && final(self).channels@ == old(self).channels@.push(channel)
                    && final(self).default_model == old(self).default_model
                    && final(self).timeout_seconds == old(self).timeout_seconds
                    && final(self).retry_attempts == old(self).retry_attempts,
                Err(e) => has_name(old(self).channels@, channel.name@) && *final(self) == *old(self)
                    && match e {
                        CCSwitchError::Config(m) => m@ == duplicate_message(channel.name@),
                        _ => false,
                    },
            },
    {
        match self.index_of(channel.name.as_str()) {
            Some(_) => {
                let mut m = "Channel '".to_owned();
                m.append(channel.name.as_str());
                m.append("' already exists");
                Err(CCSwitchError::Config(m))
            },
            None => {
                self.channels.push(channel);
                Ok(())
            },
        }
    }

    /// Removes the channel called `name`.
    pub fn remove_channel(&mut self, name: &str) -> (r: Result<(), CCSwitchError>)
        requires
            old(self).wf(),
        ensures
            final(self).wf(),
            match r {
                Ok(()) => exists|i: int| 0 <= i < old(self).channels@.len()
                    && old(self).channels@[i].name@ == name@
                    && final(self).channels@ == old(self).channels@.remove(i)
                    && final(self).default_model == old(self).default_model
                    && final(self).timeout_seconds == old(self).timeout_seconds
                    && final(self).retry_attempts == old(self).retry_attempts,
                Err(e) => !has_name(old(self).channels@, name@) && *final(self) == *old(self)
                    && match e {
                        CCSwitchError::ChannelNotFound(n) => n@ == name@,
                        _ => false,
                    },
            },
    {
        match self.index_of(name) {
            Some(i) => {
                self.channels.remove(i);
                proof {
                    let s = old(self).channels@;
                    let t = self.channels@;
                    assert forall|a: int, b: int| 0 <= a < t.len() && 0 <= b < t.len() && a != b
                        implies t[a].name@ != t[b].name@ by {
                        let a0 = if a < i { a } else { a + 1 };
                        let b0 = if b < i { b } else { b + 1 };
                        assert(t[a] == s[a0]);
                        assert(t[b] == s[b0]);
                    }
                }
                Ok(())
            },
            None => Err(CCSwitchError::ChannelNotFound(name.to_owned())),
        }
    }

    /// The channel called `name`, if one is registered.
    pub fn get_channel(&self, name: &str) -> (r: Option<&Channel>)
        ensures
            match r {
                Some(c) => exists|i: int| 0 <= i < self.channels@.len() && self.channels@[i] == *c
                    && c.name@ == name@,
                None => !has_name(self.channels@, name@),
            },
    {
        match self.index_of(name) {
            Some(i) => Some(&self.channels[i]),
            None => None,
        }
    }

    /// The enabled channels that serve `model`: those without a model
    /// restriction and those restricted to exactly `model`.
    pub fn get_channels_for_model(&self, model: &str) -> (r: Vec<&Channel>)
        ensures
            refers_to(r@, serving(self.channels@, model@)),
    {
        let key = model.to_owned();
        let mut out: Vec<&Channel> = Vec::new();
        let mut i: usize = 0;
        while i < self.channels.len()
            invariant
                i <= self.channels@.len(),
                key@ == model@,
                refers_to(out@, serving(self.channels@.subrange(0, i as int), model@)),
            decreases self.channels@.len() - i,
        {
            let ch = &self.channels[i];
            let ok = ch.enabled && match &ch.model {
                Some(m) => m.eq(&key),
                None => true,
            };
            proof {
                let s = self.channels@.subrange(0, i + 1);
                assert(s.drop_last() == self.channels@.subrange(0, i as int));
                assert(s.last() == *ch);
            }
            if ok {
                out.push(ch);
            }
            i = i + 1;
        }
        proof {
            assert(self.channels@.subrange(0, self.channels@.len() as int) == self.channels@);
        }
        out
    }

    /// The enabled channels, in the order of registration.
    pub fn enabled_channels(&self) -> (r: Vec<&Channel>)
        ensures
            refers_to(r@, enabled_of(self.channels@)),
    {
        let mut out: Vec<&Channel> = Vec::new();
        let mut i: usize = 0;
        while i < self.channels.len()
            invariant
                i <= self.channels@.len(),
                refers_to(out@, enabled_of(self.channels@.subrange(0, i as int))),
            decreases self.channels@.len() - i,
        {
            let ch = &self.channels[i];
            proof {
                let s = self.channels@.subrange(0, i + 1);
                assert(s.drop_last() == self.channels@.subrange(0, i as int));
                assert(s.last() == *ch);
            }
            if ch.enabled {
                out.push(ch);
            }
            i = i + 1;
        }
        proof {
            assert(self.channels@.subrange(0, self.channels@.len() as int) == self.channels@);
        }
        out
    }

    /// Every registered channel, in the order of registration.
    pub fn list_channels(&self) -> (r: Vec<&Channel>)
        ensures
            refers_to(r@, self.channels@),
    {
        let mut out: Vec<&Channel> = Vec::new();
        let mut i: usize = 0;
        while i < self.channels.len()
            invariant
                i <= self.channels@.len(),
                refers_to(out@, self.channels@.subrange(0, i as int)),
            decreases self.channels@.len() - i,
        {
            out.push(&self.channels[i]);
            i = i + 1;
        }
        out
    }
}

} // verus!
