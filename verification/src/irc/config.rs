//! Configuration values consumed by the engine.  Loading and decoding the
//! configuration file is a collaborator's job; the engine only reads the
//! decoded values.

use vstd::prelude::*;

use crate::irc::info::clone_strings;

verus! {

/// The engine's configuration: where to connect, the bot's identity, the
/// channels to join, the echo suppression lists, and the command sigil.
/// Outbound suppression patterns are held as regular-expression source
/// strings.
pub struct IrcConfig {
    pub host: String,
    pub port: u16,
    pub nick: String,
    pub descr: String,
    pub channels: Vec<String>,
    pub in_blacklist: Vec<String>,
    pub out_blacklist: Vec<String>,
    pub cmd_prefix: String,
}

/// The configuration exactly as the configuration file spells it; a
/// collaborator decodes the file into this shape.
pub struct JsonConfig {
    pub host: String,
    pub port: u16,
    pub nick: String,
    pub descr: String,
    pub channels: Vec<String>,
    pub in_blacklist: Vec<String>,
    pub out_blacklist: Vec<String>,
    pub cmd_prefix: String,
}

impl JsonConfig {
    /// The engine's view of this configuration.
    pub fn to_irc_config(&self) -> (r: IrcConfig)
        ensures
            r.host@ == self.host@,
            r.port == self.port,
            r.nick@ == self.nick@,
            r.descr@ == self.descr@,
            r.channels.deep_view() == self.channels.deep_view(),
            r.in_blacklist.deep_view() == self.in_blacklist.deep_view(),
            r.out_blacklist.deep_view() == self.out_blacklist.deep_view(),
            r.cmd_prefix@ == self.cmd_prefix@,
    {
        IrcConfig {
            host: self.host.clone(),
            port: self.port,
            nick: self.nick.clone(),
            descr: self.descr.clone(),
            channels: clone_strings(&self.channels),
            in_blacklist: clone_strings(&self.in_blacklist),
            out_blacklist: clone_strings(&self.out_blacklist),
            cmd_prefix: self.cmd_prefix.clone(),
        }
    }
}

} // verus!
