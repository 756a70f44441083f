//! The uptime plugin: asked for `uptime`, it reports how long the bot has
//! been awake, as a human-friendly duration string.

use vstd::prelude::*;
use vstd::string::*;

use crate::irc::command::IrcCommand;
use crate::irc::connection::EventView;
use crate::irc::info::BotInfo;
use crate::irc::plugin::{HandleResult, Plugin};
use crate::irc::privmsg::IrcPrivMsg;
use crate::irc::writer::{msg_events, IrcWriter};
use crate::util::{dec_digits, i64_dec, int_str, join_strings, joined, str_eq, u64_dec};

verus! {

/// Truncating division: the quotient rounded towards zero, as machine
/// division of signed integers rounds.
pub open spec fn trunc_div(a: int, b: int) -> int {
    if a >= 0 {
        a / b
    } else {
        -((-a) / b)
    }
}

/// A count with its unit: the number, a space, the unit name, and a plural
/// `s` unless the count is exactly one.
pub open spec fn unit_str(x: int, name: Seq<char>) -> Seq<char> {
    int_str(x) + " "@ + name + (if x == 1 {
        Seq::<char>::empty()
    } else {
        "s"@
    })
}

/// The unit parts of a duration of `sec` seconds: days, hours, minutes and
/// seconds, leading zero units dropped down to a bare seconds count.
pub open spec fn duration_parts(sec: int) -> Seq<Seq<char>> {
    let min0 = trunc_div(sec, 60);
    let hours0 = trunc_div(min0, 60);
    let days = trunc_div(hours0, 24);
    let sec1 = if sec > 0 {
        sec - min0 * 60
    } else {
        sec
    };
    let min1 = if hours0 > 0 {
        min0 - hours0 * 60
    } else {
        min0
    };
    let hours1 = if days > 0 {
        hours0 - days * 24
    } else {
        hours0
    };
    if days > 0 {
        seq![
            unit_str(days, "day"@),
            unit_str(hours1, "hour"@),
            unit_str(min1, "minute"@),
            unit_str(sec1, "second"@),
        ]
    } else if hours0 > 0 {
        seq![unit_str(hours1, "hour"@), unit_str(min1, "minute"@), unit_str(sec1, "second"@)]
    } else if min0 > 0 {
        seq![unit_str(min1, "minute"@), unit_str(sec1, "second"@)]
    } else {
        seq![unit_str(sec1, "second"@)]
    }
}

/// A duration of `sec` seconds in natural language: its unit parts joined
/// with single spaces.
pub open spec fn duration_string(sec: int) -> Seq<char> {
    joined(duration_parts(sec), " "@)
}

/// The seconds elapsed from `start` to `now`, zero when the difference
/// cannot be represented.
pub open spec fn delta_sec(start: int, now: int) -> int {
    if i64::MIN <= now - start <= i64::MAX {
        now - start
    } else {
        0
    }
}

/// The uptime report for a bot started at `start`, asked at `now`.
pub open spec fn uptime_text(start: int, now: int) -> Seq<char> {
    "I've been awake "@ + duration_string(delta_sec(start, now))
}

/// Relies on `time::OffsetDateTime::now_utc` (read via `unix_timestamp`):
/// the current wall-clock time in whole seconds since the Unix epoch.
/// Nothing is promised of the value.
#[verifier::external_body]
pub(crate) fn now_unix_seconds() -> i64 {
    time::OffsetDateTime::now_utc().unix_timestamp()
}

/// A count of `x` with its unit, plural unless the count is one.
fn fmt_unit_u64(x: u64, singular: &str) -> (r: String)
    ensures
        r@ == unit_str(x as int, singular@),
{
    let num = u64_dec(x);
    let suffix: &str = if x == 1 {
        ""
    } else {
        "s"
    };
    let r = crate::util::concat4(num.as_str(), " ", singular, suffix);
    proof {
        reveal_strlit(" ");
        reveal_strlit("");
        reveal_strlit("s");
        assert(r@ =~= unit_str(x as int, singular@));
    }
    r
}

/// A signed count of `x` with its unit, plural unless the count is one.
fn fmt_unit_i64(x: i64, singular: &str) -> (r: String)
    ensures
        r@ == unit_str(x as int, singular@),
{
    let num = i64_dec(x);
    let suffix: &str = if x == 1 {
        ""
    } else {
        "s"
    };
    let r = crate::util::concat4(num.as_str(), " ", singular, suffix);
    proof {
        reveal_strlit(" ");
        reveal_strlit("");
        reveal_strlit("s");
        assert(r@ =~= unit_str(x as int, singular@));
    }
    r
}

/// Convert a number of seconds into a duration described in natural
/// language, such as `12 days 2 hours 3 minutes 48 seconds`.
pub fn format_duration(sec: i64) -> (r: String)
    ensures
        r@ == duration_string(sec as int),
{
    if sec < 0 {
        let mut parts: Vec<String> = Vec::new();
        parts.push(fmt_unit_i64(sec, "second"));
        proof {
            assert(parts.deep_view() =~= duration_parts(sec as int));
        }
        return join_strings(&parts, " ");
    }
    let s0 = sec as u64;
    let m = s0 / 60;
    let h = m / 60;
    let d = h / 24;
    let rs = s0 % 60;
    let rm = m % 60;
    let rh = h % 24;
    let mut parts: Vec<String> = Vec::new();
    if d > 0 {
        parts.push(fmt_unit_u64(d, "day"));
        parts.push(fmt_unit_u64(rh, "hour"));
        parts.push(fmt_unit_u64(rm, "minute"));
        parts.push(fmt_unit_u64(rs, "second"));
    } else if h > 0 {
        parts.push(fmt_unit_u64(h, "hour"));
        parts.push(fmt_unit_u64(rm, "minute"));
        parts.push(fmt_unit_u64(rs, "second"));
    } else if m > 0 {
        parts.push(fmt_unit_u64(m, "minute"));
        parts.push(fmt_unit_u64(rs, "second"));
    } else {
        parts.push(fmt_unit_u64(rs, "second"));
    }
    proof {
        assert(parts.deep_view() =~= duration_parts(sec as int));
    }
    join_strings(&parts, " ")
}

/// Contains the starting time, set when the plugin is constructed; close
/// enough to the time of the initial connection to be usable.
pub struct Uptime {
    pub start: i64,
    pub description: &'static str,
    pub name: &'static str,
}

impl Uptime {
    /// A new uptime plugin, started now.
    pub fn new() -> (r: Uptime)
        ensures
            r.description@ == "Find out how long the bot has been alive."@,
            r.name@ == "Uptime"@,
    {
        Uptime {
            start: now_unix_seconds(),
            description: "Find out how long the bot has been alive.",
            name: "Uptime",
        }
    }

    /// The uptime report: the seconds since start, in natural language.
    fn uptime(&self) -> (r: String)
        ensures
            exists|now: int| r@ == uptime_text(self.start as int, now),
    {
        let now = now_unix_seconds();
        let dt: i64 = match now.checked_sub(self.start) {
            Some(d) => d,
            None => 0,
        };
        let r = crate::util::concat2("I've been awake ", format_duration(dt).as_str());
        proof {
            assert(r@ == uptime_text(self.start as int, now as int));
        }
        r
    }
}

impl Plugin for Uptime {
    open spec fn claims_privmsg(&self, msg: &IrcPrivMsg) -> bool {
        false
    }

    open spec fn privmsg_effect(&self, msg: &IrcPrivMsg, info: &BotInfo, ev: Seq<EventView>) -> bool {
        ev == Seq::<EventView>::empty()
    }

    open spec fn claims_cmd(&self, cmd: &IrcCommand) -> bool {
        cmd.name@ == "uptime"@
    }

    open spec fn cmd_effect(&self, cmd: &IrcCommand, info: &BotInfo, ev: Seq<EventView>) -> bool {
        exists|now: int| ev == msg_events(cmd.channel@, uptime_text(self.start as int, now))
    }

    open spec fn name_v(&self) -> Seq<char> {
        self.name@
    }

    open spec fn help_v(&self) -> Seq<char> {
        self.description@
    }

    /// Chat messages are not claimed.
    fn privmsg(&mut self, msg: &IrcPrivMsg, writer: &mut IrcWriter, info: &BotInfo) -> (r:
        HandleResult) {
        HandleResult::Passed
    }

    /// Respond to the command `uptime` with the uptime report.
    fn cmd(&mut self, cmd: &IrcCommand, writer: &mut IrcWriter, info: &BotInfo) -> (r:
        HandleResult) {
        if str_eq(cmd.name.as_str(), "uptime") {
            let report = self.uptime();
            writer.msg(cmd.channel.as_str(), report.as_str());
            proof {
                let ghost w = choose|now: int| report@ == uptime_text(self.start as int, now);
                assert(writer@.skip(old(writer)@.len() as int) =~= msg_events(
                    cmd.channel@,
                    uptime_text(self.start as int, w),
                ));
            }
            HandleResult::Accepted
        } else {
            HandleResult::Passed
        }
    }

    fn help(&self) -> (r: &'static str) {
        self.description
    }

    fn name(&self) -> (r: &'static str) {
        self.name
    }
}

} // verus!
