//! The bot's identity: an immutable snapshot taken from the configuration
//! at startup and shared read-only with every callback and plugin.

use vstd::prelude::*;

use crate::irc::config::IrcConfig;

verus! {

/// Information about the bot: nick, description, the channels to join, and
/// the command sigil.
pub struct BotInfo {
    pub nick: String,
    pub descr: String,
    pub channels: Vec<String>,
    pub cmd_prefix: String,
}

impl BotInfo {
    /// Construct a `BotInfo` from the configuration.
    pub fn new(conf: &IrcConfig) -> (r: BotInfo)
        ensures
            r.nick@ == conf.nick@,
            r.descr@ == conf.descr@,
            r.channels.deep_view() == conf.channels.deep_view(),
            r.cmd_prefix@ == conf.cmd_prefix@,
    {
        BotInfo {
            nick: conf.nick.clone(),
            descr: conf.descr.clone(),
            channels: clone_strings(&conf.channels),
            cmd_prefix: conf.cmd_prefix.clone(),
        }
    }
}

/// A clone of a vector of strings, character for character.
pub fn clone_strings(xs: &Vec<String>) -> (r: Vec<String>)
    ensures
        r.deep_view() == xs.deep_view(),
{
    let mut r: Vec<String> = Vec::new();
    let mut k: usize = 0;
    proof {
        assert(r.deep_view() =~= xs.deep_view().take(0));
    }
    while k < xs.len()
        invariant
            0 <= k <= xs.len(),
            r.deep_view() == xs.deep_view().take(k as int),
        decreases xs.len() - k,
    {
        let ghost prev = r.deep_view();
        r.push(xs[k].clone());
        proof {
            assert(r.deep_view() =~= prev.push(xs.deep_view()[k as int]));
            assert(r.deep_view() =~= xs.deep_view().take(k + 1));
        }
        k = k + 1;
    }
    proof {
        assert(xs.deep_view().take(xs.len() as int) =~= xs.deep_view());
    }
    r
}

} // verus!
