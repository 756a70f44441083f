//! A minimal plugin shape: it answers `uptime` and `describe` through one
//! inherent handler, without the full plugin surface.

use vstd::prelude::*;
use vstd::string::*;

use crate::irc::command::IrcCommand;
use crate::irc::info::BotInfo;
use crate::irc::writer::{msg_events, IrcWriter};
use crate::plugins::uptime::{duration_string, now_unix_seconds, uptime_text};
use crate::util::str_eq;

verus! {

/// Contains the starting time, set on construction.
pub struct Basic {
    pub start: i64,
}

/// Convert a number of seconds into a duration described in natural
/// language, such as `12 days 2 hours 3 minutes 48 seconds`.
pub fn format_duration(sec: i64) -> (r: String)
    ensures
        r@ == duration_string(sec as int),
{
    crate::plugins::uptime::format_duration(sec)
}

impl Basic {
    /// A new handler, started now.
    pub fn new() -> (r: Basic) {
        Basic { start: now_unix_seconds() }
    }

    /// The uptime report: the seconds since start, in natural language.
    fn uptime(&self) -> (r: String)
        ensures
            exists|now: int| r@ == uptime_text(self.start as int, now),
    {
        let now = now_unix_seconds();
        let dt: i64 = match now.checked_sub(self.start) {
            Some(d) => d,
            None => 0,
        };
        let r = crate::util::concat2("I've been awake ", format_duration(dt).as_str());
        proof {
            assert(r@ == uptime_text(self.start as int, now as int));
        }
        r
    }

    /// Answer `uptime` with the uptime report and `describe` with the bot
    /// description; other commands do nothing.
    pub fn cmd(&mut self, cmd: &IrcCommand, writer: &mut IrcWriter, info: &BotInfo)
        ensures
            *final(self) == *old(self),
            cmd.name@ == "uptime"@ ==> exists|now: int|
                final(writer)@ == old(writer)@ + msg_events(
                    cmd.channel@,
                    uptime_text(old(self).start as int, now),
                ),
            cmd.name@ == "describe"@ ==> final(writer)@ == old(writer)@ + msg_events(
                cmd.channel@,
                info.descr@,
            ),
            cmd.name@ != "uptime"@ && cmd.name@ != "describe"@ ==> final(writer)@ == old(writer)@,
    {
        proof {
            reveal_strlit("uptime");
            reveal_strlit("describe");
            assert("uptime"@.len() == 6);
            assert("describe"@.len() == 8);
            assert("uptime"@ != "describe"@);
        }
        if str_eq(cmd.name.as_str(), "uptime") {
            let report = self.uptime();
            writer.msg(cmd.channel.as_str(), report.as_str());
            proof {
                let ghost w = choose|now: int| report@ == uptime_text(self.start as int, now);
                assert(writer@ == old(writer)@ + msg_events(
                    cmd.channel@,
                    uptime_text(self.start as int, w),
                ));
            }
        } else if str_eq(cmd.name.as_str(), "describe") {
            writer.msg(cmd.channel.as_str(), info.descr.as_str());
            proof {
                assert(writer@ == old(writer)@ + msg_events(cmd.channel@, info.descr@));
            }
        }
    }
}

} // verus!
