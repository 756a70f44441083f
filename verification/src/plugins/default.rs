//! The fallback plugin: registered last, it claims every command that no
//! earlier plugin claimed and points the user at the help listing.

use vstd::prelude::*;
use vstd::string::*;

use crate::irc::command::IrcCommand;
use crate::irc::connection::EventView;
use crate::irc::info::BotInfo;
use crate::irc::plugin::{HandleResult, Plugin};
use crate::irc::privmsg::IrcPrivMsg;
use crate::irc::writer::{msg_events, IrcWriter};

verus! {

/// This struct only has the minimum number of fields for a plugin.
pub struct Default {
    pub description: &'static str,
    pub name: &'static str,
}

impl Default {
    /// A new fallback plugin.
    pub fn new() -> (r: Default)
        ensures
            r.description@ == "Learn about the help docs"@,
            r.name@ == "default"@,
    {
        Default { description: "Learn about the help docs", name: "default" }
    }
}

impl Plugin for Default {
    open spec fn claims_privmsg(&self, msg: &IrcPrivMsg) -> bool {
        false
    }

    open spec fn privmsg_effect(&self, msg: &IrcPrivMsg, info: &BotInfo, ev: Seq<EventView>) -> bool {
        ev == Seq::<EventView>::empty()
    }

    open spec fn claims_cmd(&self, cmd: &IrcCommand) -> bool {
        true
    }

    open spec fn cmd_effect(&self, cmd: &IrcCommand, info: &BotInfo, ev: Seq<EventView>) -> bool {
        ev == msg_events(cmd.channel@, "Type `/msg cleese help` to see my list of commands."@)
    }

    open spec fn name_v(&self) -> Seq<char> {
        self.name@
    }

    open spec fn help_v(&self) -> Seq<char> {
        self.description@
    }

    /// Chat messages are not claimed.
    fn privmsg(&mut self, msg: &IrcPrivMsg, writer: &mut IrcWriter, info: &BotInfo) -> (r:
        HandleResult) {
        HandleResult::Passed
    }

    /// Claim every command, telling the user where the help lives.
    fn cmd(&mut self, cmd: &IrcCommand, writer: &mut IrcWriter, info: &BotInfo) -> (r:
        HandleResult) {
        let text = "Type `/msg cleese help` to see my list of commands.";
        writer.msg(cmd.channel.as_str(), text);
        proof {
            assert(writer@.skip(old(writer)@.len() as int) =~= msg_events(cmd.channel@, text@));
        }
        HandleResult::Accepted
    }

    fn help(&self) -> (r: &'static str) {
        self.description
    }

    fn name(&self) -> (r: &'static str) {
        self.name
    }
}

} // verus!
