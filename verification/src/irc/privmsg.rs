//! A chat message: a generic message specialised to a channel-directed text
//! payload sent by an identified sender.

use vstd::prelude::*;
use vstd::string::*;

use crate::irc::msg::{parse_channel_spec, parse_sender_spec, IrcMsg};
use crate::util::str_eq;

verus! {

/// Whether a generic message with this code, prefix and parameters converts
/// to a chat message: the code must be `PRIVMSG` and both the sender and the
/// channel/text sub-parses must succeed.
pub open spec fn is_chat_spec(prefix: Seq<char>, code: Seq<char>, param: Seq<char>) -> bool {
    code == "PRIVMSG"@ && parse_sender_spec(prefix) is Some && parse_channel_spec(param) is Some
}

/// A chat message delivered to a channel.
pub struct IrcPrivMsg {
    pub orig: String,
    pub sender_nick: String,
    pub sender_info: String,
    pub channel: String,
    pub txt: String,
}

impl IrcPrivMsg {
    /// Convert a generic message into a chat message; non-`PRIVMSG` codes and
    /// non-channel messages give `None`.
    pub fn new(msg: &IrcMsg) -> (r: Option<IrcPrivMsg>)
        ensures
            r is Some <==> is_chat_spec(msg.prefix@, msg.code@, msg.param@),
            r matches Some(p) ==> parse_sender_spec(msg.prefix@) matches Some(s)
                && parse_channel_spec(msg.param@) matches Some(c) && p.orig@ == msg.orig@
                && p.sender_nick@ == s.0 && p.sender_info@ == s.1 && p.channel@ == c.0
                && p.txt@ == c.1,
    {
        if !str_eq(msg.code.as_str(), "PRIVMSG") {
            return None;
        }
        let sender = msg.match_sender();
        let message = msg.match_message();
        match (sender, message) {
            (Some((nick, info)), Some((channel, txt))) => Some(
                IrcPrivMsg {
                    orig: msg.orig.clone(),
                    sender_nick: nick,
                    sender_info: info,
                    channel: channel,
                    txt: txt,
                },
            ),
            _ => None,
        }
    }
}

} // verus!
