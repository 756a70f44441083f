//! The engine: registration of callbacks and plugins, the built-in
//! protocol callbacks, and the per-event step of the event loop.

use vstd::prelude::*;
use vstd::string::*;

use crate::irc::config::IrcConfig;
use crate::irc::connection::{ConnectionEvent, EventView};
use crate::irc::data::{
    received_appended, received_echo_ok, suppressed, tbl_has, tbl_keys, tbl_lookup, tbl_register,
    Callback, CbEntry, IrcData,
};
use crate::irc::writer::IrcWriter;
use crate::plugins::PluginEntry;
use crate::util::concat2;

verus! {

/// What the event loop does with one consumed event: possibly echo a line
/// to the operator log, possibly transmit a line, possibly stop.
pub struct EventOutcome {
    pub echo: Option<String>,
    pub transmit: Option<String>,
    pub stop: bool,
}

/// The engine: all dispatcher state, ready to consume events.  The
/// transport itself lives with the caller, which feeds inbound lines in
/// and carries outbound lines to the wire.
pub struct Irc {
    pub data: IrcData,
}

impl Irc {
    /// A new engine over a configuration, with the built-in protocol
    /// callbacks in place: every `PING <param>` is answered with
    /// `PONG <param>`, and the welcome-complete code `004` joins every
    /// configured channel.
    pub fn new(conf: IrcConfig) -> (r: Irc)
        ensures
            r.data.info.nick@ == conf.nick@,
            r.data.info.descr@ == conf.descr@,
            r.data.info.channels.deep_view() == conf.channels.deep_view(),
            r.data.info.cmd_prefix@ == conf.cmd_prefix@,
            r.data.in_blacklist.deep_view() == conf.in_blacklist.deep_view(),
            r.data.out_blacklist.deep_view() == conf.out_blacklist.deep_view(),
            tbl_lookup(r.data.code_cb@, "PING"@) == seq![Callback::SendPong],
            tbl_lookup(r.data.code_cb@, "004"@) == seq![Callback::JoinChannels],
            tbl_keys(r.data.code_cb@) == seq!["PING"@, "004"@],
            r.data.raw_cb@ == Seq::<Callback>::empty(),
            r.data.privmsg_cb@ == Seq::<Callback>::empty(),
            r.data.cmd_cb@ == Seq::<CbEntry>::empty(),
            r.data.plugins@ == Seq::<PluginEntry>::empty(),
    {
        let mut r = Irc { data: IrcData::new(conf) };
        r.init_callbacks();
        r
    }

    /// The built-in callbacks: answer pings and join the configured
    /// channels once the server reports registration complete.
    fn init_callbacks(&mut self)
        requires
            old(self).data.code_cb@ == Seq::<CbEntry>::empty(),
        ensures
            final(self).data.info == old(self).data.info,
            final(self).data.in_blacklist == old(self).data.in_blacklist,
            final(self).data.out_blacklist == old(self).data.out_blacklist,
            final(self).data.raw_cb == old(self).data.raw_cb,
            final(self).data.privmsg_cb == old(self).data.privmsg_cb,
            final(self).data.cmd_cb == old(self).data.cmd_cb,
            final(self).data.plugins == old(self).data.plugins,
            tbl_lookup(final(self).data.code_cb@, "PING"@) == seq![Callback::SendPong],
            tbl_lookup(final(self).data.code_cb@, "004"@) == seq![Callback::JoinChannels],
            tbl_keys(final(self).data.code_cb@) == seq!["PING"@, "004"@],
    {
        proof {
            reveal_strlit("PING");
            reveal_strlit("004");
            assert("PING"@.len() == 4);
            assert("004"@.len() == 3);
            assert(tbl_keys(old(self).data.code_cb@) =~= Seq::<Seq<char>>::empty());
            assert(!tbl_has(old(self).data.code_cb@, "PING"@));
        }
        tbl_register(&mut self.data.code_cb, "PING", Callback::SendPong);
        proof {
            assert(!tbl_has(self.data.code_cb@, "004"@)) by {
                assert(tbl_keys(self.data.code_cb@) =~= seq!["PING"@]);
                if tbl_has(self.data.code_cb@, "004"@) {
                    let i = choose|i: int|
                        0 <= i < self.data.code_cb@.len() && self.data.code_cb@[i].key@ == "004"@;
                    assert(tbl_keys(self.data.code_cb@)[i] == "004"@);
                }
            }
        }
        tbl_register(&mut self.data.code_cb, "004", Callback::JoinChannels);
        proof {
            assert(tbl_lookup(final(self).data.code_cb@, "PING"@) =~= seq![Callback::SendPong]);
            assert(tbl_lookup(final(self).data.code_cb@, "004"@) =~= seq![Callback::JoinChannels]);
            assert(tbl_keys(final(self).data.code_cb@) =~= seq!["PING"@, "004"@]);
        }
    }

    /// Register a callback under a command name.
    pub fn register_cmd_cb(&mut self, cmd: &str, cb: Callback)
        ensures
            final(self).data.info == old(self).data.info,
            final(self).data.in_blacklist == old(self).data.in_blacklist,
            final(self).data.out_blacklist == old(self).data.out_blacklist,
            final(self).data.raw_cb == old(self).data.raw_cb,
            final(self).data.code_cb == old(self).data.code_cb,
            final(self).data.privmsg_cb == old(self).data.privmsg_cb,
            final(self).data.plugins == old(self).data.plugins,
            tbl_lookup(final(self).data.cmd_cb@, cmd@) == tbl_lookup(
                old(self).data.cmd_cb@,
                cmd@,
            ).push(cb),
            forall|k: Seq<char>|
                k != cmd@ ==> tbl_lookup(final(self).data.cmd_cb@, k) == tbl_lookup(
                    old(self).data.cmd_cb@,
                    k,
                ),
            tbl_keys(final(self).data.cmd_cb@) == (if tbl_has(old(self).data.cmd_cb@, cmd@) {
                tbl_keys(old(self).data.cmd_cb@)
            } else {
                tbl_keys(old(self).data.cmd_cb@).push(cmd@)
            }),
    {
        tbl_register(&mut self.data.cmd_cb, cmd, cb);
    }

    /// Register a callback under a protocol code.
    pub fn register_code_cb(&mut self, code: &str, cb: Callback)
        ensures
            final(self).data.info == old(self).data.info,
            final(self).data.in_blacklist == old(self).data.in_blacklist,
            final(self).data.out_blacklist == old(self).data.out_blacklist,
            final(self).data.raw_cb == old(self).data.raw_cb,
            final(self).data.cmd_cb == old(self).data.cmd_cb,
            final(self).data.privmsg_cb == old(self).data.privmsg_cb,
            final(self).data.plugins == old(self).data.plugins,
            tbl_lookup(final(self).data.code_cb@, code@) == tbl_lookup(
                old(self).data.code_cb@,
                code@,
            ).push(cb),
            forall|k: Seq<char>|
                k != code@ ==> tbl_lookup(final(self).data.code_cb@, k) == tbl_lookup(
                    old(self).data.code_cb@,
                    k,
                ),
            tbl_keys(final(self).data.code_cb@) == (if tbl_has(old(self).data.code_cb@, code@) {
                tbl_keys(old(self).data.code_cb@)
            } else {
                tbl_keys(old(self).data.code_cb@).push(code@)
            }),
    {
        tbl_register(&mut self.data.code_cb, code, cb);
    }

    /// Register a callback for every chat message.
    pub fn register_privmsg_cb(&mut self, cb: Callback)
        ensures
            final(self).data.info == old(self).data.info,
            final(self).data.in_blacklist == old(self).data.in_blacklist,
            final(self).data.out_blacklist == old(self).data.out_blacklist,
            final(self).data.raw_cb == old(self).data.raw_cb,
            final(self).data.code_cb == old(self).data.code_cb,
            final(self).data.cmd_cb == old(self).data.cmd_cb,
            final(self).data.plugins == old(self).data.plugins,
            final(self).data.privmsg_cb@ == old(self).data.privmsg_cb@.push(cb),
    {
        self.data.privmsg_cb.push(cb);
    }

    /// Register a callback for every raw inbound line.
    pub fn register_raw_cb(&mut self, cb: Callback)
        ensures
            final(self).data.info == old(self).data.info,
            final(self).data.in_blacklist == old(self).data.in_blacklist,
            final(self).data.out_blacklist == old(self).data.out_blacklist,
            final(self).data.code_cb == old(self).data.code_cb,
            final(self).data.cmd_cb == old(self).data.cmd_cb,
            final(self).data.privmsg_cb == old(self).data.privmsg_cb,
            final(self).data.plugins == old(self).data.plugins,
            final(self).data.raw_cb@ == old(self).data.raw_cb@.push(cb),
    {
        self.data.raw_cb.push(cb);
    }

    /// Register a plugin at the end of the consultation order.
    pub fn register_plugin(&mut self, plugin: PluginEntry)
        ensures
            final(self).data.info == old(self).data.info,
            final(self).data.in_blacklist == old(self).data.in_blacklist,
            final(self).data.out_blacklist == old(self).data.out_blacklist,
            final(self).data.raw_cb == old(self).data.raw_cb,
            final(self).data.code_cb == old(self).data.code_cb,
            final(self).data.cmd_cb == old(self).data.cmd_cb,
            final(self).data.privmsg_cb == old(self).data.privmsg_cb,
            final(self).data.plugins@ == old(self).data.plugins@.push(plugin),
    {
        self.data.plugins.push(plugin);
    }

    /// A fresh writer handle: callbacks and plugins queue outbound work
    /// into it, and the caller drains it back into the event stream.
    pub fn writer(&self) -> (w: IrcWriter)
        ensures
            w@ == Seq::<EventView>::empty(),
    {
        IrcWriter::new()
    }

    /// Consume one event.  An outbound line is echoed unless suppressed and
    /// always handed back for transmission; an inbound line is dispatched,
    /// queueing any replies into `writer`; the terminate signal stops the
    /// loop.
    pub fn handle_event(&mut self, ev: ConnectionEvent, writer: &mut IrcWriter) -> (r:
        EventOutcome)
        ensures
            final(self).data.info == old(self).data.info,
            final(self).data.in_blacklist == old(self).data.in_blacklist,
            final(self).data.out_blacklist == old(self).data.out_blacklist,
            final(self).data.raw_cb == old(self).data.raw_cb,
            final(self).data.code_cb == old(self).data.code_cb,
            final(self).data.privmsg_cb == old(self).data.privmsg_cb,
            final(self).data.cmd_cb == old(self).data.cmd_cb,
            final(self).data.plugins@ == old(self).data.plugins@,
            old(writer)@.is_prefix_of(final(writer)@),
            ev@ matches EventView::Output(s) ==> {
                &&& r.stop == false
                &&& r.transmit matches Some(t) && t@ == s
                &&& (r.echo is Some <==> !suppressed(old(self).data.out_blacklist.deep_view(), s))
                &&& (r.echo matches Some(e) ==> e@ == "> "@ + s)
                &&& final(writer)@ == old(writer)@
            },
            ev@ matches EventView::Received(s) ==> {
                &&& r.stop == false
                &&& r.transmit is None
                &&& received_appended(
                    old(self).data,
                    s,
                    final(writer)@.skip(old(writer)@.len() as int),
                )
                &&& received_echo_ok(old(self).data, s, r.echo)
            },
            ev@ is Quit ==> {
                &&& r.stop == true
                &&& r.transmit is None
                &&& r.echo is None
                &&& final(writer)@ == old(writer)@
            },
    {
        match ev {
            ConnectionEvent::Output(s) => {
                let echo_it = self.data.handle_write(s.as_str());
                let echo: Option<String> = if echo_it {
                    Some(concat2("> ", s.as_str()))
                } else {
                    None
                };
                EventOutcome { echo, transmit: Some(s), stop: false }
            },
            ConnectionEvent::Received(s) => {
                let echo = self.data.handle_received(s.as_str(), writer);
                EventOutcome { echo, transmit: None, stop: false }
            },
            ConnectionEvent::Quit => {
                EventOutcome { echo: None, transmit: None, stop: true }
            },
        }
    }
}

} // verus!
