//! Startup configuration: bot identity, administrators and watch list,
//! per-channel settings with their greeting rules, the SMS sink credentials,
//! and the optional log location. Reading the file itself is I/O and lives
//! outside the library; these are the plain values it produces.

use crate::greetings::Greeting;
use vstd::prelude::*;

verus! {

/// The bot section: administrators, per-subject cooldown (seconds), watched
/// participants.
pub struct Bot {
    pub admin: Vec<String>,
    pub message_frequency: u64,
    pub watch_list: Vec<String>,
}

/// One channel the bot joins, with its elevated-behaviour flag, optional
/// topic and chat-log flag.
pub struct ServerChannel {
    pub name: String,
    pub topic: Option<String>,
    pub admin: bool,
    pub log_chat: bool,
}

/// A channel as the specifications see it.
pub struct ChannelModel {
    pub name: Seq<char>,
    pub topic: Option<Seq<char>>,
    pub admin: bool,
    pub log_chat: bool,
}

impl View for ServerChannel {
    type V = ChannelModel;

    open spec fn view(&self) -> ChannelModel {
        ChannelModel {
            name: self.name@,
            topic: match self.topic {
                Option::None => Option::None,
                Option::Some(ref t) => Option::Some(t@),
            },
            admin: self.admin,
            log_chat: self.log_chat,
        }
    }
}

impl Clone for ServerChannel {
    fn clone(&self) -> (r: Self)
        ensures
            r == *self,
    {
        ServerChannel {
            name: self.name.clone(),
            topic: match &self.topic {
                Option::None => Option::None,
                Option::Some(t) => Option::Some(t.clone()),
            },
            admin: self.admin,
            log_chat: self.log_chat,
        }
    }
}

/// The server section: address, the channels to join, and the ordered
/// greeting rules.
pub struct Server {
    pub address: String,
    pub channels: Vec<ServerChannel>,
    pub greetings: Vec<Greeting>,
}

/// Credentials of the external SMS sink.
pub struct Twilio {
    pub sid: String,
    pub token: String,
    pub number: String,
    pub recipient: String,
}

/// The bot's own identity on the server.
pub struct User {
    pub nick: String,
    pub user: String,
    pub real: String,
}

impl Clone for User {
    fn clone(&self) -> (r: Self)
        ensures
            r == *self,
    {
        User { nick: self.nick.clone(), user: self.user.clone(), real: self.real.clone() }
    }
}

/// Where chat logs go; absent means logging is off.
pub struct Logging {
    pub path: String,
}

pub struct Config {
    pub bot: Bot,
    pub server: Server,
    pub user: User,
    pub twilio: Twilio,
    pub logging: Option<Logging>,
}

/// Why a configuration could not be loaded; all of these are fatal at
/// startup.
#[derive(Debug)]
pub enum ConfigError {
    /// The file is not available.
    Unavailable,
    /// The file's contents could not be read as configuration data.
    Unreadable(String),
    /// A section is present but malformed.
    BadElement(String),
    /// A required section is missing.
    MissingElement(String),
    /// The log path could not be created or accessed.
    InvalidLoggingConfig(String),
}

/// An element-wise copy of a name list.
pub fn clone_strings(v: &Vec<String>) -> (r: Vec<String>)
    ensures
        r@ == v@,
{
    let mut r: Vec<String> = Vec::new();
    let mut i: usize = 0;
    while i < v.len()
        invariant
            i <= v@.len(),
            r@ == v@.take(i as int),
        decreases v@.len() - i,
    {
        r.push(v[i].clone());
        proof {
            assert(v@.take(i as int).push(v@[i as int]) =~= v@.take(i + 1));
        }
        i = i + 1;
    }
    proof {
        assert(v@.take(v@.len() as int) =~= v@);
    }
    r
}

/// An element-wise copy of a channel list.
pub fn clone_channels(v: &Vec<ServerChannel>) -> (r: Vec<ServerChannel>)
    ensures
        r@ == v@,
{
    let mut r: Vec<ServerChannel> = Vec::new();
    let mut i: usize = 0;
    while i < v.len()
        invariant
            i <= v@.len(),
            r@ == v@.take(i as int),
        decreases v@.len() - i,
    {
        r.push(v[i].clone());
        proof {
            assert(v@.take(i as int).push(v@[i as int]) =~= v@.take(i + 1));
        }
        i = i + 1;
    }
    proof {
        assert(v@.take(v@.len() as int) =~= v@);
    }
    r
}

} // verus!
