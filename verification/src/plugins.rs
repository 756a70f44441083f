//! The plugins: the user-facing behaviours consulted by the dispatcher, in
//! registration order, together with the registry entry type and the
//! ordered first-responder dispatch over it.

pub mod basic;
pub mod default;
pub mod describe;
pub mod excuse;
pub mod officers;
pub mod uptime;

use vstd::prelude::*;

use crate::irc::command::IrcCommand;
use crate::irc::connection::EventView;
use crate::irc::info::BotInfo;
use crate::irc::plugin::{HandleResult, Plugin};
use crate::irc::privmsg::IrcPrivMsg;
use crate::irc::writer::IrcWriter;
use crate::plugins::describe::Describe;
use crate::plugins::excuse::Excuse;
use crate::plugins::officers::Officers;
use crate::plugins::uptime::Uptime;

verus! {

/// One registered plugin.  The registry is an ordered list of these;
/// registration order is the tie-break for the first responder.
pub enum PluginEntry {
    Describe(Describe),
    Uptime(Uptime),
    Excuse(Excuse),
    Officers(Officers),
    Default(crate::plugins::default::Default),
}

impl Plugin for PluginEntry {
    open spec fn claims_privmsg(&self, msg: &IrcPrivMsg) -> bool {
        match self {
            PluginEntry::Describe(p) => p.claims_privmsg(msg),
            PluginEntry::Uptime(p) => p.claims_privmsg(msg),
            PluginEntry::Excuse(p) => p.claims_privmsg(msg),
            PluginEntry::Officers(p) => p.claims_privmsg(msg),
            PluginEntry::Default(p) => p.claims_privmsg(msg),
        }
    }

    open spec fn privmsg_effect(&self, msg: &IrcPrivMsg, info: &BotInfo, ev: Seq<EventView>) -> bool {
        match self {
            PluginEntry::Describe(p) => p.privmsg_effect(msg, info, ev),
            PluginEntry::Uptime(p) => p.privmsg_effect(msg, info, ev),
            PluginEntry::Excuse(p) => p.privmsg_effect(msg, info, ev),
            PluginEntry::Officers(p) => p.privmsg_effect(msg, info, ev),
            PluginEntry::Default(p) => p.privmsg_effect(msg, info, ev),
        }
    }

    open spec fn claims_cmd(&self, cmd: &IrcCommand) -> bool {
        match self {
            PluginEntry::Describe(p) => p.claims_cmd(cmd),
            PluginEntry::Uptime(p) => p.claims_cmd(cmd),
            PluginEntry::Excuse(p) => p.claims_cmd(cmd),
            PluginEntry::Officers(p) => p.claims_cmd(cmd),
            PluginEntry::Default(p) => p.claims_cmd(cmd),
        }
    }

    open spec fn cmd_effect(&self, cmd: &IrcCommand, info: &BotInfo, ev: Seq<EventView>) -> bool {
        match self {
            PluginEntry::Describe(p) => p.cmd_effect(cmd, info, ev),
            PluginEntry::Uptime(p) => p.cmd_effect(cmd, info, ev),
            PluginEntry::Excuse(p) => p.cmd_effect(cmd, info, ev),
            PluginEntry::Officers(p) => p.cmd_effect(cmd, info, ev),
            PluginEntry::Default(p) => p.cmd_effect(cmd, info, ev),
        }
    }

    open spec fn name_v(&self) -> Seq<char> {
        match self {
            PluginEntry::Describe(p) => p.name_v(),
            PluginEntry::Uptime(p) => p.name_v(),
            PluginEntry::Excuse(p) => p.name_v(),
            PluginEntry::Officers(p) => p.name_v(),
            PluginEntry::Default(p) => p.name_v(),
        }
    }

    open spec fn help_v(&self) -> Seq<char> {
        match self {
            PluginEntry::Describe(p) => p.help_v(),
            PluginEntry::Uptime(p) => p.help_v(),
            PluginEntry::Excuse(p) => p.help_v(),
            PluginEntry::Officers(p) => p.help_v(),
            PluginEntry::Default(p) => p.help_v(),
        }
    }

    fn privmsg(&mut self, msg: &IrcPrivMsg, writer: &mut IrcWriter, info: &BotInfo) -> (r:
        HandleResult) {
        match self {
            PluginEntry::Describe(p) => p.privmsg(msg, writer, info),
            PluginEntry::Uptime(p) => p.privmsg(msg, writer, info),
            PluginEntry::Excuse(p) => p.privmsg(msg, writer, info),
            PluginEntry::Officers(p) => p.privmsg(msg, writer, info),
            PluginEntry::Default(p) => p.privmsg(msg, writer, info),
        }
    }

    fn cmd(&mut self, cmd: &IrcCommand, writer: &mut IrcWriter, info: &BotInfo) -> (r:
        HandleResult) {
        match self {
            PluginEntry::Describe(p) => p.cmd(cmd, writer, info),
            PluginEntry::Uptime(p) => p.cmd(cmd, writer, info),
            PluginEntry::Excuse(p) => p.cmd(cmd, writer, info),
            PluginEntry::Officers(p) => p.cmd(cmd, writer, info),
            PluginEntry::Default(p) => p.cmd(cmd, writer, info),
        }
    }

    fn help(&self) -> (r: &'static str) {
        match self {
            PluginEntry::Describe(p) => p.help(),
            PluginEntry::Uptime(p) => p.help(),
            PluginEntry::Excuse(p) => p.help(),
            PluginEntry::Officers(p) => p.help(),
            PluginEntry::Default(p) => p.help(),
        }
    }

    fn name(&self) -> (r: &'static str) {
        match self {
            PluginEntry::Describe(p) => p.name(),
            PluginEntry::Uptime(p) => p.name(),
            PluginEntry::Excuse(p) => p.name(),
            PluginEntry::Officers(p) => p.name(),
            PluginEntry::Default(p) => p.name(),
        }
    }
}

/// What an ordered chain of plugins appends to the writer for one chat
/// message: plugins are consulted in order; one that passes appends nothing;
/// the first that claims the message appends its own effect and ends the
/// chain, so no later plugin is consulted.
pub open spec fn privmsg_chain_ok(
    plugins: Seq<PluginEntry>,
    msg: IrcPrivMsg,
    info: BotInfo,
    ev: Seq<EventView>,
) -> bool
    decreases plugins.len(),
{
    if plugins.len() == 0 {
        ev == Seq::<EventView>::empty()
    } else if plugins[0].claims_privmsg(&msg) {
        plugins[0].privmsg_effect(&msg, &info, ev)
    } else {
        privmsg_chain_ok(plugins.drop_first(), msg, info, ev)
    }
}

/// What an ordered chain of plugins appends to the writer for one command;
/// the first plugin that claims the command ends the chain.
pub open spec fn cmd_chain_ok(
    plugins: Seq<PluginEntry>,
    cmd: IrcCommand,
    info: BotInfo,
    ev: Seq<EventView>,
) -> bool
    decreases plugins.len(),
{
    if plugins.len() == 0 {
        ev == Seq::<EventView>::empty()
    } else if plugins[0].claims_cmd(&cmd) {
        plugins[0].cmd_effect(&cmd, &info, ev)
    } else {
        cmd_chain_ok(plugins.drop_first(), cmd, info, ev)
    }
}

/// When no plugin among the first `k` claims the message, the chain over
/// the whole list is the chain over the rest.
proof fn lemma_privmsg_chain_skip(
    plugins: Seq<PluginEntry>,
    msg: IrcPrivMsg,
    info: BotInfo,
    ev: Seq<EventView>,
    k: int,
)
    requires
        0 <= k <= plugins.len(),
        forall|j: int| 0 <= j < k ==> !plugins[j].claims_privmsg(&msg),
    ensures
        privmsg_chain_ok(plugins, msg, info, ev) == privmsg_chain_ok(plugins.skip(k), msg, info, ev),
    decreases k,
{
    if k > 0 {
        lemma_privmsg_chain_skip(plugins.drop_first(), msg, info, ev, k - 1);
        assert(plugins.drop_first().skip(k - 1) =~= plugins.skip(k));
    } else {
        assert(plugins.skip(0) =~= plugins);
    }
}

/// When no plugin among the first `k` claims the command, the chain over
/// the whole list is the chain over the rest.
proof fn lemma_cmd_chain_skip(
    plugins: Seq<PluginEntry>,
    cmd: IrcCommand,
    info: BotInfo,
    ev: Seq<EventView>,
    k: int,
)
    requires
        0 <= k <= plugins.len(),
        forall|j: int| 0 <= j < k ==> !plugins[j].claims_cmd(&cmd),
    ensures
        cmd_chain_ok(plugins, cmd, info, ev) == cmd_chain_ok(plugins.skip(k), cmd, info, ev),
    decreases k,
{
    if k > 0 {
        lemma_cmd_chain_skip(plugins.drop_first(), cmd, info, ev, k - 1);
        assert(plugins.drop_first().skip(k - 1) =~= plugins.skip(k));
    } else {
        assert(plugins.skip(0) =~= plugins);
    }
}

/// Consult every plugin for a chat message, in registration order, stopping
/// at the first that claims it.
pub fn run_plugins_privmsg(
    plugins: &mut Vec<PluginEntry>,
    msg: &IrcPrivMsg,
    writer: &mut IrcWriter,
    info: &BotInfo,
)
    ensures
        final(plugins)@ == old(plugins)@,
        old(writer)@.is_prefix_of(final(writer)@),
        privmsg_chain_ok(
            old(plugins)@,
            *msg,
            *info,
            final(writer)@.skip(old(writer)@.len() as int),
        ),
{
    let n = plugins.len();
    let mut k: usize = 0;
    loop
        invariant_except_break
            writer@ == old(writer)@,
        invariant
            0 <= k <= n,
            n == plugins.len(),
            plugins@ == old(plugins)@,
            forall|j: int| 0 <= j < k ==> !old(plugins)@[j].claims_privmsg(msg),
        ensures
            plugins@ == old(plugins)@,
            old(writer)@.is_prefix_of(writer@),
            privmsg_chain_ok(old(plugins)@, *msg, *info, writer@.skip(old(writer)@.len() as int)),
        decreases n - k,
    {
        if k == n {
            proof {
                lemma_privmsg_chain_skip(
                    old(plugins)@,
                    *msg,
                    *info,
                    writer@.skip(old(writer)@.len() as int),
                    n as int,
                );
                assert(old(plugins)@.skip(n as int).len() == 0);
                assert(writer@.skip(old(writer)@.len() as int) =~= Seq::<EventView>::empty());
            }
            break ;
        }
        let ghost pre = writer@;
        let mut p = plugins.remove(k);
        let r = p.privmsg(msg, writer, info);
        plugins.insert(k, p);
        proof {
            assert(plugins@ =~= old(plugins)@);
        }
        match r {
            HandleResult::Accepted => {
                proof {
                    let suffix = writer@.skip(old(writer)@.len() as int);
                    lemma_privmsg_chain_skip(old(plugins)@, *msg, *info, suffix, k as int);
                    assert(old(plugins)@.skip(k as int)[0] == old(plugins)@[k as int]);
                    assert(suffix =~= writer@.skip(pre.len() as int));
                }
                break ;
            },
            HandleResult::Passed => {
                k = k + 1;
            },
        }
    }
}

/// Consult every plugin for a command, in registration order, stopping at
/// the first that claims it.
pub fn run_plugins_cmd(
    plugins: &mut Vec<PluginEntry>,
    cmd: &IrcCommand,
    writer: &mut IrcWriter,
    info: &BotInfo,
)
    ensures
        final(plugins)@ == old(plugins)@,
        old(writer)@.is_prefix_of(final(writer)@),
        cmd_chain_ok(old(plugins)@, *cmd, *info, final(writer)@.skip(old(writer)@.len() as int)),
{
    let n = plugins.len();
    let mut k: usize = 0;
    loop
        invariant_except_break
            writer@ == old(writer)@,
        invariant
            0 <= k <= n,
            n == plugins.len(),
            plugins@ == old(plugins)@,
            forall|j: int| 0 <= j < k ==> !old(plugins)@[j].claims_cmd(cmd),
        ensures
            plugins@ == old(plugins)@,
            old(writer)@.is_prefix_of(writer@),
            cmd_chain_ok(old(plugins)@, *cmd, *info, writer@.skip(old(writer)@.len() as int)),
        decreases n - k,
    {
        if k == n {
            proof {
                lemma_cmd_chain_skip(
                    old(plugins)@,
                    *cmd,
                    *info,
                    writer@.skip(old(writer)@.len() as int),
                    n as int,
                );
                assert(old(plugins)@.skip(n as int).len() == 0);
                assert(writer@.skip(old(writer)@.len() as int) =~= Seq::<EventView>::empty());
            }
            break ;
        }
        let ghost pre = writer@;
        let mut p = plugins.remove(k);
        let r = p.cmd(cmd, writer, info);
        plugins.insert(k, p);
        proof {
            assert(plugins@ =~= old(plugins)@);
        }
        match r {
            HandleResult::Accepted => {
                proof {
                    let suffix = writer@.skip(old(writer)@.len() as int);
                    lemma_cmd_chain_skip(old(plugins)@, *cmd, *info, suffix, k as int);
                    assert(old(plugins)@.skip(k as int)[0] == old(plugins)@[k as int]);
                    assert(suffix =~= writer@.skip(pre.len() as int));
                }
                break ;
            },
            HandleResult::Passed => {
                k = k + 1;
            },
        }
    }
}

/// Register every plugin, in the order they are consulted: describe,
/// uptime, excuse, officers, and last the fallback that claims everything.
pub fn register(irc: &mut crate::irc::irc::Irc)
    ensures
        final(irc).data.info == old(irc).data.info,
        final(irc).data.in_blacklist == old(irc).data.in_blacklist,
        final(irc).data.out_blacklist == old(irc).data.out_blacklist,
        final(irc).data.raw_cb == old(irc).data.raw_cb,
        final(irc).data.code_cb == old(irc).data.code_cb,
        final(irc).data.cmd_cb == old(irc).data.cmd_cb,
        final(irc).data.privmsg_cb == old(irc).data.privmsg_cb,
        final(irc).data.plugins@.len() == old(irc).data.plugins@.len() + 5,
        forall|j: int|
            0 <= j < old(irc).data.plugins@.len() ==> final(irc).data.plugins@[j] == old(
                irc,
            ).data.plugins@[j],
        final(irc).data.plugins@[old(irc).data.plugins@.len() as int] is Describe,
        final(irc).data.plugins@[old(irc).data.plugins@.len() as int + 1] is Uptime,
        final(irc).data.plugins@[old(irc).data.plugins@.len() as int + 2] is Excuse,
        final(irc).data.plugins@[old(irc).data.plugins@.len() as int + 3] is Officers,
        final(irc).data.plugins@[old(irc).data.plugins@.len() as int + 4] is Default,
{
    irc.register_plugin(PluginEntry::Describe(Describe::new()));
    irc.register_plugin(PluginEntry::Uptime(Uptime::new()));
    irc.register_plugin(PluginEntry::Excuse(Excuse::new()));
    irc.register_plugin(PluginEntry::Officers(Officers::new()));
    irc.register_plugin(PluginEntry::Default(crate::plugins::default::Default::new()));
}

/// The dispatch short-circuit, stated as a law: when the first plugin of a
/// two-plugin registry claims a command, what the chain appends is the first
/// plugin's effect alone — the second is never consulted; when the first
/// passes, the chain is exactly the second plugin's chain.
pub proof fn lemma_dispatch_short_circuit(
    first: PluginEntry,
    second: PluginEntry,
    cmd: IrcCommand,
    info: BotInfo,
    ev: Seq<EventView>,
)
    ensures
        first.claims_cmd(&cmd) ==> (cmd_chain_ok(seq![first, second], cmd, info, ev)
            == first.cmd_effect(&cmd, &info, ev)),
        !first.claims_cmd(&cmd) ==> (cmd_chain_ok(seq![first, second], cmd, info, ev)
            == cmd_chain_ok(seq![second], cmd, info, ev)),
{
    let ps = seq![first, second];
    assert(ps[0] == first);
    assert(ps.drop_first() =~= seq![second]);
}

} // verus!
