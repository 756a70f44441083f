//! The officers plugin: shares the list of current officers, with their
//! chat nicks and degree programs, one line per officer.

use vstd::prelude::*;
use vstd::string::*;

use crate::irc::command::IrcCommand;
use crate::irc::connection::EventView;
use crate::irc::info::BotInfo;
use crate::irc::plugin::{HandleResult, Plugin};
use crate::irc::privmsg::IrcPrivMsg;
use crate::irc::writer::{msg_events, IrcWriter};
use crate::util::str_eq;

verus! {

/// Officer positions, spelled as a closed set so a mistyped position is a
/// compile-time error.
pub enum Position {
    President,
    VicePresident,
    Treasurer,
    Secretary,
    InformationOfficer,
    ActivitiesDirector,
    Webmaster,
}

/// The display name of a position.
pub open spec fn position_label(p: Position) -> Seq<char> {
    match p {
        Position::President => "President"@,
        Position::VicePresident => "Vice President"@,
        Position::Treasurer => "Treasurer"@,
        Position::Secretary => "Secretary"@,
        Position::InformationOfficer => "Information Officer"@,
        Position::ActivitiesDirector => "Activities Director"@,
        Position::Webmaster => "Webmaster"@,
    }
}

impl Position {
    /// The display name of this position.
    pub fn label(&self) -> (r: &'static str)
        ensures
            r@ == position_label(*self),
    {
        match self {
            Position::President => "President",
            Position::VicePresident => "Vice President",
            Position::Treasurer => "Treasurer",
            Position::Secretary => "Secretary",
            Position::InformationOfficer => "Information Officer",
            Position::ActivitiesDirector => "Activities Director",
            Position::Webmaster => "Webmaster",
        }
    }
}

/// Degree programs, spelled as a closed set so a mistyped program is a
/// compile-time error.
pub enum Program {
    CS,
    CE,
    Inter,
    Web,
    SysAdmin,
    GameDev,
    Graphics,
    Bioinfo,
    CSMasters,
    CSMinor,
    CSCert,
}

/// The display name of a program.
pub open spec fn program_label(p: Program) -> Seq<char> {
    match p {
        Program::CS => "Computer Science"@,
        Program::CE => "Computer Engineering"@,
        Program::Inter => "Computer Systems - Inter"@,
        Program::Web => "Computer Systems - Web"@,
        Program::SysAdmin => "Computer Systems - Sys Admin"@,
        Program::GameDev => "Computer Systems - Game Dev"@,
        Program::Graphics => "Computer Systems - Graphics"@,
        Program::Bioinfo => "Bioinformatics"@,
        Program::CSMasters => "Computer Science Masters"@,
        Program::CSMinor => "Computer Science Minor"@,
        Program::CSCert => "Computer Science Certificate"@,
    }
}

impl Program {
    /// The display name of this program.
    pub fn label(&self) -> (r: &'static str)
        ensures
            r@ == program_label(*self),
    {
        match self {
            Program::CS => "Computer Science",
            Program::CE => "Computer Engineering",
            Program::Inter => "Computer Systems - Inter",
            Program::Web => "Computer Systems - Web",
            Program::SysAdmin => "Computer Systems - Sys Admin",
            Program::GameDev => "Computer Systems - Game Dev",
            Program::Graphics => "Computer Systems - Graphics",
            Program::Bioinfo => "Bioinformatics",
            Program::CSMasters => "Computer Science Masters",
            Program::CSMinor => "Computer Science Minor",
            Program::CSCert => "Computer Science Certificate",
        }
    }
}

/// One officer: name, position, program, and chat nick when known.
pub struct Officer {
    pub name: &'static str,
    pub position: Position,
    pub program: Program,
    pub irc_nick: Option<&'static str>,
}

/// The nick shown for an officer: a placeholder when none is known.
pub open spec fn nick_label(o: Officer) -> Seq<char> {
    match o.irc_nick {
        Some(n) => n@,
        None => "<None>"@,
    }
}

/// One officer's line: `(nick) name, position. program`.
pub open spec fn officer_line(o: Officer) -> Seq<char> {
    "("@ + nick_label(o) + ") "@ + o.name@ + ", "@ + position_label(o.position) + ". "@
        + program_label(o.program)
}

/// All officers, one line each, each line newline-terminated.
pub open spec fn officers_text(os: Seq<Officer>) -> Seq<char>
    decreases os.len(),
{
    if os.len() == 0 {
        Seq::empty()
    } else {
        officers_text(os.drop_last()) + officer_line(os.last()) + "\n"@
    }
}

impl Officer {
    /// This officer's line.
    pub fn line(&self) -> (r: String)
        ensures
            r@ == officer_line(*self),
    {
        let nick: &'static str = match self.irc_nick {
            Some(x) => x,
            None => "<None>",
        };
        let mut r = String::from_str("(");
        r.append(nick);
        r.append(") ");
        r.append(self.name);
        r.append(", ");
        r.append(self.position.label());
        r.append(". ");
        r.append(self.program.label());
        proof {
            assert(r@ =~= officer_line(*self));
        }
        r
    }
}

/// A struct with nothing more than the officer table and the plugin
/// description.
pub struct Officers {
    pub officers: Vec<Officer>,
    pub description: &'static str,
    pub name: &'static str,
}

impl Officers {
    /// The officer table, encoded directly in the source.
    pub fn new() -> (r: Officers)
        ensures
            r.officers@.len() == 7,
            r.description@ == "Get the list of CSE Club officers"@,
            r.name@ == "officers"@,
    {
        Officers {
            officers: vec![
                Officer {
                    name: "Dylan Allbee",
                    position: Position::President,
                    program: Program::CE,
                    irc_nick: Some("dallbee"),
                },
                Officer {
                    name: "Andrew Brinker",
                    position: Position::VicePresident,
                    program: Program::CS,
                    irc_nick: Some("Hemamorphy"),
                },
                Officer {
                    name: "Beverly Abadines",
                    position: Position::Treasurer,
                    program: Program::CE,
                    irc_nick: None,
                },
                Officer {
                    name: "Abigail Legg",
                    position: Position::Secretary,
                    program: Program::CSMasters,
                    irc_nick: None,
                },
                Officer {
                    name: "Ammar Alsibai",
                    position: Position::ActivitiesDirector,
                    program: Program::CE,
                    irc_nick: Some("Pyrot1c"),
                },
                Officer {
                    name: "Anthony Sterrett",
                    position: Position::InformationOfficer,
                    program: Program::CS,
                    irc_nick: Some("Arandur"),
                },
                Officer {
                    name: "Mike Korcha",
                    position: Position::Webmaster,
                    program: Program::CSMasters,
                    irc_nick: Some("korcha"),
                },
            ],
            description: "Get the list of CSE Club officers",
            name: "officers",
        }
    }

    /// The officer listing, one newline-terminated line per officer.
    pub fn officers(&self) -> (r: String)
        ensures
            r@ == officers_text(self.officers@),
    {
        let mut r = String::new();
        let mut k: usize = 0;
        proof {
            assert(self.officers@.take(0) =~= Seq::<Officer>::empty());
        }
        while k < self.officers.len()
            invariant
                0 <= k <= self.officers.len(),
                r@ == officers_text(self.officers@.take(k as int)),
            decreases self.officers.len() - k,
        {
            proof {
                assert(self.officers@.take(k + 1).drop_last() =~= self.officers@.take(k as int));
                assert(self.officers@.take(k + 1).last() == self.officers@[k as int]);
            }
            let line = self.officers[k].line();
            r.append(line.as_str());
            r.append("\n");
            k = k + 1;
        }
        proof {
            assert(self.officers@.take(self.officers.len() as int) =~= self.officers@);
        }
        r
    }
}

impl Plugin for Officers {
    open spec fn claims_privmsg(&self, msg: &IrcPrivMsg) -> bool {
        false
    }

    open spec fn privmsg_effect(&self, msg: &IrcPrivMsg, info: &BotInfo, ev: Seq<EventView>) -> bool {
        ev == Seq::<EventView>::empty()
    }

    open spec fn claims_cmd(&self, cmd: &IrcCommand) -> bool {
        cmd.name@ == "officers"@
    }

    open spec fn cmd_effect(&self, cmd: &IrcCommand, info: &BotInfo, ev: Seq<EventView>) -> bool {
        ev == msg_events(cmd.channel@, officers_text(self.officers@))
    }

    open spec fn name_v(&self) -> Seq<char> {
        self.name@
    }

    open spec fn help_v(&self) -> Seq<char> {
        self.description@
    }

    /// Chat messages are not claimed.
    fn privmsg(&mut self, msg: &IrcPrivMsg, writer: &mut IrcWriter, info: &BotInfo) -> (r:
        HandleResult) {
        HandleResult::Passed
    }

    /// Respond to the command `officers` with the officer listing, one chat
    /// line per officer.
    fn cmd(&mut self, cmd: &IrcCommand, writer: &mut IrcWriter, info: &BotInfo) -> (r:
        HandleResult) {
        if str_eq(cmd.name.as_str(), "officers") {
            let listing = self.officers();
            writer.msg(cmd.channel.as_str(), listing.as_str());
            proof {
                assert(writer@.skip(old(writer)@.len() as int) =~= msg_events(
                    cmd.channel@,
                    listing@,
                ));
            }
            HandleResult::Accepted
        } else {
            HandleResult::Passed
        }
    }

    fn help(&self) -> (r: &'static str) {
        self.description
    }

    fn name(&self) -> (r: &'static str) {
        self.name
    }
}

} // verus!
