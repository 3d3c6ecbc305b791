//! Who connects where: the session's identity, the transports' addresses
//! and the feed's topics.
use vstd::prelude::*;

use crate::message::strings_view;

verus! {

/// The user, channel and server of a session.
#[derive(Clone, Debug, PartialEq, Eq)]
pub struct Settings {
    pub name: String,
    pub channel: String,
    pub server: String,
}

pub open spec fn default_channel() -> Seq<char> {
    "Channel #1"@
}

pub open spec fn default_server() -> Seq<char> {
    "localhost"@
}

impl Settings {
    /// The settings from the command line: a missing channel or server takes
    /// its default.
    pub fn from_args(name: String, channel: Option<String>, server: Option<String>) -> (r: Settings)
        ensures
            r.name == name,
            r.channel@ == match channel {
                Some(c) => c@,
                None => default_channel(),
            },
            r.server@ == match server {
                Some(s) => s@,
                None => default_server(),
            },
    {
        let channel = match channel {
            Some(c) => c,
            None => String::from_str("Channel #1"),
        };
        let server = match server {
            Some(s) => s,
            None => String::from_str("localhost"),
        };
        Settings { name, channel, server }
    }

    /// The settings of the next session, after one ended: a switch to another
    /// channel keeps the user and the server; no switch means no next session.
    pub fn after_session(&self, next_channel: Option<String>) -> (r: Option<Settings>)
        ensures
            match next_channel {
                Some(c) => r is Some && r->0.name == self.name && r->0.server == self.server
                    && r->0.channel == c,
                None => r is None,
            },
    {
        match next_channel {
            Some(c) => Some(
                Settings { name: self.name.clone(), channel: c, server: self.server.clone() },
            ),
            None => None,
        }
    }
}

/// The address of the control transport on `server`.
pub fn control_endpoint(server: &str) -> (r: String)
    ensures
        r@ == "tcp://"@ + server@ + ":5555"@,
{
    let mut r = String::from_str("tcp://");
    r.append(server);
    r.append(":5555");
    r
}

/// The address of the broadcast transport on `server`.
pub fn feed_endpoint(server: &str) -> (r: String)
    ensures
        r@ == "tcp://"@ + server@ + ":6666"@,
{
    let mut r = String::from_str("tcp://");
    r.append(server);
    r.append(":6666");
    r
}

/// The topics that the feed subscribes to: the broadcast topic, then the
/// session's channel.
pub fn subscriptions(channel: &str) -> (r: Vec<String>)
    ensures
        strings_view(r@) == seq!["broadcast"@, channel@],
{
    let mut r: Vec<String> = Vec::new();
    r.push(String::from_str("broadcast"));
    r.push(String::from_str(channel));
    assert(strings_view(r@) =~= seq!["broadcast"@, channel@]);
    r
}

} // verus!
