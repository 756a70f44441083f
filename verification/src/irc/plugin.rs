//! The plugin contract: an ordered, capability-polymorphic handler consulted
//! for chat messages and commands, able to claim exclusive handling.

use vstd::prelude::*;

use crate::irc::command::IrcCommand;
use crate::irc::connection::EventView;
use crate::irc::info::BotInfo;
use crate::irc::privmsg::IrcPrivMsg;
use crate::irc::writer::IrcWriter;

verus! {

/// Whether a handler claimed an event (`Accepted`, routing stops) or let it
/// fall through to the next handler (`Passed`).
pub enum HandleResult {
    Accepted,
    Passed,
}

/// A plugin responds to chat messages and to commands — possibly by doing
/// nothing — and describes itself for the help listing.
///
/// The contract every plugin obeys: a handler only appends to the writer's
/// queue; it appends nothing when it passes; it returns `Accepted` exactly
/// when it claims the event, and what a claimed event appends is pinned by
/// the plugin's own effect predicate.  Handlers do not change the plugin's
/// state.
pub trait Plugin: Sized {
    /// Whether this plugin claims the given chat message.
    spec fn claims_privmsg(&self, msg: &IrcPrivMsg) -> bool;

    /// What handling a claimed chat message appends to the writer.
    spec fn privmsg_effect(&self, msg: &IrcPrivMsg, info: &BotInfo, ev: Seq<EventView>) -> bool;

    /// Whether this plugin claims the given command.
    spec fn claims_cmd(&self, cmd: &IrcCommand) -> bool;

    /// What handling a claimed command appends to the writer.
    spec fn cmd_effect(&self, cmd: &IrcCommand, info: &BotInfo, ev: Seq<EventView>) -> bool;

    /// The plugin's name, as listed in the help reply.
    spec fn name_v(&self) -> Seq<char>;

    /// The plugin's help text.
    spec fn help_v(&self) -> Seq<char>;

    /// Respond to a chat message.
    fn privmsg(&mut self, msg: &IrcPrivMsg, writer: &mut IrcWriter, info: &BotInfo) -> (r:
        HandleResult)
        ensures
            *final(self) == *old(self),
            r is Accepted <==> old(self).claims_privmsg(msg),
            old(writer)@.is_prefix_of(final(writer)@),
            !old(self).claims_privmsg(msg) ==> final(writer)@ == old(writer)@,
            old(self).claims_privmsg(msg) ==> old(self).privmsg_effect(
                msg,
                info,
                final(writer)@.skip(old(writer)@.len() as int),
            ),
    ;

    /// Respond to a command.
    fn cmd(&mut self, cmd: &IrcCommand, writer: &mut IrcWriter, info: &BotInfo) -> (r:
        HandleResult)
        ensures
            *final(self) == *old(self),
            r is Accepted <==> old(self).claims_cmd(cmd),
            old(writer)@.is_prefix_of(final(writer)@),
            !old(self).claims_cmd(cmd) ==> final(writer)@ == old(writer)@,
            old(self).claims_cmd(cmd) ==> old(self).cmd_effect(
                cmd,
                info,
                final(writer)@.skip(old(writer)@.len() as int),
            ),
    ;

    /// Provide help text.
    fn help(&self) -> (r: &'static str)
        ensures
            r@ == self.help_v(),
    ;

    /// Provide the plugin name.
    fn name(&self) -> (r: &'static str)
        ensures
            r@ == self.name_v(),
    ;
}

} // verus!
