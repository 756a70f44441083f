//! The describe plugin: shares the bot description taken from the
//! configuration.

use vstd::prelude::*;
use vstd::string::*;

use crate::irc::command::IrcCommand;
use crate::irc::connection::EventView;
use crate::irc::info::BotInfo;
use crate::irc::plugin::{HandleResult, Plugin};
use crate::irc::privmsg::IrcPrivMsg;
use crate::irc::writer::{msg_events, IrcWriter};
use crate::util::str_eq;

verus! {

/// This struct only has the minimum number of fields for a plugin.
pub struct Describe {
    pub description: &'static str,
    pub name: &'static str,
}

impl Describe {
    /// A new describe plugin.
    pub fn new() -> (r: Describe)
        ensures
            r.description@ == "Describe the IRC bot"@,
            r.name@ == "describe"@,
    {
        Describe { description: "Describe the IRC bot", name: "describe" }
    }
}

impl Plugin for Describe {
    open spec fn claims_privmsg(&self, msg: &IrcPrivMsg) -> bool {
        false
    }

    open spec fn privmsg_effect(&self, msg: &IrcPrivMsg, info: &BotInfo, ev: Seq<EventView>) -> bool {
        ev == Seq::<EventView>::empty()
    }

    open spec fn claims_cmd(&self, cmd: &IrcCommand) -> bool {
        cmd.name@ == "describe"@
    }

    open spec fn cmd_effect(&self, cmd: &IrcCommand, info: &BotInfo, ev: Seq<EventView>) -> bool {
        ev == msg_events(cmd.channel@, info.descr@)
    }

    open spec fn name_v(&self) -> Seq<char> {
        self.name@
    }

    open spec fn help_v(&self) -> Seq<char> {
        self.description@
    }

    /// Chat messages are not claimed.
    fn privmsg(&mut self, msg: &IrcPrivMsg, writer: &mut IrcWriter, info: &BotInfo) -> (r:
        HandleResult) {
        HandleResult::Passed
    }

    /// Respond to the command `describe` with the bot description.
    fn cmd(&mut self, cmd: &IrcCommand, writer: &mut IrcWriter, info: &BotInfo) -> (r:
        HandleResult) {
        if str_eq(cmd.name.as_str(), "describe") {
            writer.msg(cmd.channel.as_str(), info.descr.as_str());
            proof {
                assert(writer@.skip(old(writer)@.len() as int) =~= msg_events(
                    cmd.channel@,
                    info.descr@,
                ));
            }
            HandleResult::Accepted
        } else {
            HandleResult::Passed
        }
    }

    fn help(&self) -> (r: &'static str) {
        self.description
    }

    fn name(&self) -> (r: &'static str) {
        self.name
    }
}

} // verus!
