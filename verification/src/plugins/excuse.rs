//! The excuse plugin: asked for `excuse`, it shares one developer excuse
//! drawn at random from a fixed table.

use vstd::prelude::*;
use vstd::string::*;

use crate::irc::command::IrcCommand;
use crate::irc::connection::EventView;
use crate::irc::info::BotInfo;
use crate::irc::plugin::{HandleResult, Plugin};
use crate::irc::privmsg::IrcPrivMsg;
use crate::irc::writer::{msg_events, IrcWriter};
use crate::util::str_eq;

verus! {

/// Relies on `rand::random`: a uniformly drawn machine integer.  Nothing is
/// promised of the value.
#[verifier::external_body]
fn random_u64() -> u64 {
    rand::random::<u64>()
}

/// Contains a vector of excuses, defined in the constructor.
pub struct Excuse {
    pub excuses: Vec<&'static str>,
    pub description: &'static str,
    pub name: &'static str,
}

impl Excuse {
    /// The table of excuses, encoded directly in the source.
    pub fn new() -> (r: Excuse)
        ensures
            r.excuses@.len() == 47,
            r.description@ == "Get an excuse from developerexcuses.com"@,
            r.name@ == "excuse"@,
    {
        Excuse {
            excuses: vec![
                "I thought you signed off on that.",
                "Where were you when the program blew up?",
                "That feature was slated for phase two.",
                "That feature would be outside the scope.",
                "It must be a hardware problem.",
                "That isn't covered by my job description.",
                "It's never shown unexpected behavior like this before.",
                "There must be something strange in your data.",
                "Well, that's a first.",
                "I haven't touched that code in weeks.",
                "Oh, you said you DIDN'T want that to happen?",
                "That's already fixed. It just hasn't taken effect yet.",
                "I couldn't find any library that can even do that.",
                "I usually get a notification when that happens",
                "Oh, that was just a temporary fix.",
                "It's never done that before.",
                "It's a compatibility issue.",
                "I didn't anticipate that I would make any errors.",
                "I did a quick fix last time but it broke when we rebooted.",
                "Everything looks fine on my end.",
                "That error means it was successful.",
                "The marketing department made us put that there.",
                "I forgot to commit the code that fixes that.",
                "Oh, that was only supposed to be a placeholder.",
                "I haven't had a chance to run that code yet.",
                "You must have done something wrong.",
                "Well, at least it displays a very pretty error.",
                "That wasn't in the original specification.",
                "I haven't had any experience with that before.",
                "That's the fault of the graphic designer.",
                "I'll have to fix that at a later date.",
                "I told you yesterday it would be done by the end of today.",
                "I haven't been able to reproduce that.",
                "It's just some unlucky coincidence.",
                "I thought you signed off on that.",
                "That wouldn't be economically feasible.",
                "I didn't create that part of the program.",
                "It probably won't happen again.",
                "Actually, that's a feature.",
                "I have too many other high priority things to do right now.",
                "Our internet connection must not be working.",
                "It's always been like that.",
                "What did you type in wrong to get it to crash?",
                "It was working in my head.",
                "I thought I finished that.",
                "I must have been stress testing our production server.",
                "The request must have dropped some packets.",
            ],
            description: "Get an excuse from developerexcuses.com",
            name: "excuse",
        }
    }

    /// One excuse from the table, drawn at random.
    pub fn excuse(&self) -> (r: String)
        requires
            self.excuses@.len() > 0,
        ensures
            exists|i: int| 0 <= i < self.excuses@.len() && r@ == self.excuses@[i]@,
    {
        let draw = random_u64();
        let choice = (draw as usize) % self.excuses.len();
        let r = String::from_str(self.excuses[choice]);
        proof {
            assert(r@ == self.excuses@[choice as int]@);
        }
        r
    }
}

impl Plugin for Excuse {
    open spec fn claims_privmsg(&self, msg: &IrcPrivMsg) -> bool {
        false
    }

    open spec fn privmsg_effect(&self, msg: &IrcPrivMsg, info: &BotInfo, ev: Seq<EventView>) -> bool {
        ev == Seq::<EventView>::empty()
    }

    open spec fn claims_cmd(&self, cmd: &IrcCommand) -> bool {
        cmd.name@ == "excuse"@
    }

    open spec fn cmd_effect(&self, cmd: &IrcCommand, info: &BotInfo, ev: Seq<EventView>) -> bool {
        if self.excuses@.len() == 0 {
            ev == Seq::<EventView>::empty()
        } else {
            exists|i: int|
                0 <= i < self.excuses@.len() && ev == msg_events(cmd.channel@, self.excuses@[i]@)
        }
    }

    open spec fn name_v(&self) -> Seq<char> {
        self.name@
    }

    open spec fn help_v(&self) -> Seq<char> {
        self.description@
    }

    /// Chat messages are not claimed.
    fn privmsg(&mut self, msg: &IrcPrivMsg, writer: &mut IrcWriter, info: &BotInfo) -> (r:
        HandleResult) {
        HandleResult::Passed
    }

    /// Respond to the command `excuse` with one random excuse.
    fn cmd(&mut self, cmd: &IrcCommand, writer: &mut IrcWriter, info: &BotInfo) -> (r:
        HandleResult) {
        if str_eq(cmd.name.as_str(), "excuse") {
            if self.excuses.len() > 0 {
                let line = self.excuse();
                writer.msg(cmd.channel.as_str(), line.as_str());
                proof {
                    let ghost i = choose|i: int|
                        0 <= i < self.excuses@.len() && line@ == self.excuses@[i]@;
                    assert(writer@.skip(old(writer)@.len() as int) =~= msg_events(
                        cmd.channel@,
                        self.excuses@[i]@,
                    ));
                }
            } else {
                // an empty table claims the command and says nothing
                proof {
                    assert(writer@.skip(old(writer)@.len() as int) =~= Seq::<EventView>::empty());
                }
            }
            HandleResult::Accepted
        } else {
            HandleResult::Passed
        }
    }

    fn help(&self) -> (r: &'static str) {
        self.description
    }

    fn name(&self) -> (r: &'static str) {
        self.name
    }
}

} // verus!
