//! The command extractor: chat text beginning with the configured sigil is
//! split into a command name and whitespace-delimited arguments.

use vstd::prelude::*;
use vstd::string::*;

use crate::irc::privmsg::IrcPrivMsg;
use crate::util::{space_split, space_split_spec, str_starts_with, trim_of, trim_spec};

verus! {

/// Command extraction: the chat text is trimmed, must begin with the sigil
/// `key`, and the remainder is split on single spaces with empty tokens
/// discarded; the first token is the command name, the rest its arguments.
/// A missing sigil, or a sigil with nothing after it, gives no command.
pub open spec fn extract_spec(text: Seq<char>, key: Seq<char>) -> Option<
    (Seq<char>, Seq<Seq<char>>),
> {
    let t = trim_spec(text);
    if t.len() > 0 && key.is_prefix_of(t) {
        let toks = space_split_spec(t.skip(key.len() as int));
        if toks.len() >= 1 {
            Some((toks[0], toks.drop_first()))
        } else {
            None
        }
    } else {
        None
    }
}

/// A command without a channel: a name and its arguments.
pub struct Command {
    pub name: String,
    pub args: Vec<String>,
}

/// A command received over chat, with the channel it originated from.
pub struct IrcCommand {
    pub name: String,
    pub args: Vec<String>,
    pub channel: String,
}

impl Command {
    /// Extract a command from raw text given the command sigil `key`.
    pub fn new(s: &str, key: &str) -> (r: Option<Command>)
        ensures
            r is Some <==> extract_spec(s@, key@) is Some,
            r matches Some(c) ==> extract_spec(s@, key@) matches Some(e) && c.name@ == e.0
                && c.args.deep_view() == e.1,
    {
        let t = trim_of(s);
        let tn = t.unicode_len();
        if tn == 0 {
            return None;
        }
        if !str_starts_with(t, key) {
            return None;
        }
        let body = t.substring_char(key.unicode_len(), tn);
        proof {
            assert(body@ =~= trim_spec(s@).skip(key@.len() as int));
        }
        let toks = space_split(body);
        if toks.len() == 0 {
            return None;
        }
        let name = String::from_str(toks[0]);
        let mut args: Vec<String> = Vec::new();
        let mut k: usize = 1;
        proof {
            assert(args.deep_view() =~= toks.deep_view().drop_first().take(0));
        }
        while k < toks.len()
            invariant
                1 <= k <= toks.len(),
                args.deep_view() == toks.deep_view().drop_first().take(k - 1),
            decreases toks.len() - k,
        {
            let ghost prev = args.deep_view();
            args.push(String::from_str(toks[k]));
            proof {
                assert(args.deep_view() =~= prev.push(toks.deep_view()[k as int]));
                assert(args.deep_view() =~= toks.deep_view().drop_first().take(k as int));
            }
            k = k + 1;
        }
        proof {
            assert(toks.deep_view().drop_first().take(toks.len() - 1) =~= toks
                .deep_view()
                .drop_first());
        }
        Some(Command { name, args })
    }
}

impl IrcCommand {
    /// Extract a command from a chat message, keeping the originating channel.
    pub fn new(msg: &IrcPrivMsg, key: &str) -> (r: Option<IrcCommand>)
        ensures
            r is Some <==> extract_spec(msg.txt@, key@) is Some,
            r matches Some(c) ==> extract_spec(msg.txt@, key@) matches Some(e) && c.name@ == e.0
                && c.args.deep_view() == e.1 && c.channel@ == msg.channel@,
    {
        match Command::new(msg.txt.as_str(), key) {
            Some(cmd) => Some(
                IrcCommand { name: cmd.name, args: cmd.args, channel: msg.channel.clone() },
            ),
            None => None,
        }
    }
}

} // verus!
