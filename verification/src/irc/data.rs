//! The dispatcher's state: the bot identity, the echo suppression lists,
//! the callback tables, and the plugin registry, together with the
//! per-event dispatch itself.

use vstd::prelude::*;
use vstd::string::*;

use crate::irc::command::{extract_spec, IrcCommand};
use crate::irc::config::IrcConfig;
use crate::irc::connection::EventView;
use crate::irc::info::BotInfo;
use crate::irc::msg::{parse_channel_spec, parse_generic_spec, parse_sender_spec, IrcMsg};
use crate::irc::plugin::Plugin;
use crate::irc::privmsg::{is_chat_spec, IrcPrivMsg};
use crate::irc::writer::{join_line, msg_events, output_events, IrcWriter};
use crate::plugins::{cmd_chain_ok, privmsg_chain_ok, run_plugins_cmd, run_plugins_privmsg,
    PluginEntry};
use crate::util::{concat2, joined, str_eq, trim_of, trim_spec};

verus! {

/// Whether some pattern of the list is a valid regular expression matching
/// `line`; patterns that do not compile match nothing.
pub open spec fn suppressed(patterns: Seq<Seq<char>>, line: Seq<char>) -> bool {
    exists|i: int|
        0 <= i < patterns.len() && regex_valid(patterns[i]) && regex_match(patterns[i], line)
}

/// Whether `pattern` is a valid regular expression.
pub uninterp spec fn regex_valid(pattern: Seq<char>) -> bool;

/// Whether the regular expression `pattern` matches somewhere in `text`.
pub uninterp spec fn regex_match(pattern: Seq<char>, text: Seq<char>) -> bool;

/// Relies on `regex::Regex::new` and `regex::Regex::is_match`: whether
/// `pattern` compiles (`None` when it does not), and whether the compiled
/// expression matches somewhere in `text`; both depend on the two strings
/// alone.
#[verifier::external_body]
fn regex_is_match(pattern: &str, text: &str) -> (r: Option<bool>)
    ensures
        r is Some <==> regex_valid(pattern@),
        r matches Some(b) ==> b == regex_match(pattern@, text@),
{
    match regex::Regex::new(pattern) {
        Ok(re) => Some(re.is_match(text)),
        Err(_) => None,
    }
}

/// A registered callback action.  Callbacks are data, applied by the
/// dispatcher with the triggering message at hand.
pub enum Callback {
    /// Reply `PONG <params>` to the triggering line (line-keyed tables).
    SendPong,
    /// Join every configured channel.
    JoinChannels,
    /// Emit a fixed protocol line.
    Note(String),
    /// Send a fixed chat text back to the originating channel
    /// (chat- and command-keyed tables).
    Reply(String),
}

/// What one callback appends when keyed by a protocol line or code: the
/// reply action needs a channel and appends nothing here.
pub open spec fn line_cb_events(cb: Callback, param: Seq<char>, channels: Seq<Seq<char>>) -> Seq<
    EventView,
> {
    match cb {
        Callback::SendPong => output_events("PONG "@ + param),
        Callback::JoinChannels => join_all_events(channels),
        Callback::Note(s) => output_events(s@),
        Callback::Reply(s) => Seq::empty(),
    }
}

/// What one callback appends when keyed by a chat message or command: the
/// pong action has no parameters here and appends nothing.
pub open spec fn chat_cb_events(cb: Callback, channel: Seq<char>, channels: Seq<Seq<char>>) -> Seq<
    EventView,
> {
    match cb {
        Callback::SendPong => Seq::empty(),
        Callback::JoinChannels => join_all_events(channels),
        Callback::Note(s) => output_events(s@),
        Callback::Reply(s) => msg_events(channel, s@),
    }
}

/// One join line per configured channel.
pub open spec fn join_all_events(channels: Seq<Seq<char>>) -> Seq<EventView>
    decreases channels.len(),
{
    if channels.len() == 0 {
        Seq::empty()
    } else {
        output_events(join_line(channels[0])) + join_all_events(channels.drop_first())
    }
}

/// What a list of line-keyed callbacks appends, in registration order.
pub open spec fn line_cbs_events(
    cbs: Seq<Callback>,
    param: Seq<char>,
    channels: Seq<Seq<char>>,
) -> Seq<EventView>
    decreases cbs.len(),
{
    if cbs.len() == 0 {
        Seq::empty()
    } else {
        line_cb_events(cbs[0], param, channels) + line_cbs_events(
            cbs.drop_first(),
            param,
            channels,
        )
    }
}

/// What a list of chat-keyed callbacks appends, in registration order.
pub open spec fn chat_cbs_events(
    cbs: Seq<Callback>,
    channel: Seq<char>,
    channels: Seq<Seq<char>>,
) -> Seq<EventView>
    decreases cbs.len(),
{
    if cbs.len() == 0 {
        Seq::empty()
    } else {
        chat_cb_events(cbs[0], channel, channels) + chat_cbs_events(
            cbs.drop_first(),
            channel,
            channels,
        )
    }
}

/// `join_all_events` distributes over a channel appended at the right.
proof fn lemma_join_all_push(channels: Seq<Seq<char>>, x: Seq<char>)
    ensures
        join_all_events(channels.push(x)) == join_all_events(channels) + output_events(
            join_line(x),
        ),
    decreases channels.len(),
{
    if channels.len() == 0 {
        let p = channels.push(x);
        assert(p[0] == x);
        assert(p.drop_first() =~= Seq::<Seq<char>>::empty());
        assert(join_all_events(p.drop_first()) =~= Seq::<EventView>::empty());
        assert(join_all_events(p) =~= output_events(join_line(x)));
        assert(join_all_events(channels) + output_events(join_line(x)) =~= output_events(
            join_line(x),
        ));
    } else {
        lemma_join_all_push(channels.drop_first(), x);
        assert(channels.push(x).drop_first() =~= channels.drop_first().push(x));
        assert(channels.push(x)[0] == channels[0]);
        assert(join_all_events(channels.push(x)) =~= (join_all_events(channels) + output_events(
            join_line(x),
        )));
    }
}

/// `line_cbs_events` distributes over a callback appended at the right.
proof fn lemma_line_cbs_push(
    cbs: Seq<Callback>,
    x: Callback,
    param: Seq<char>,
    channels: Seq<Seq<char>>,
)
    ensures
        line_cbs_events(cbs.push(x), param, channels) == line_cbs_events(cbs, param, channels)
            + line_cb_events(x, param, channels),
    decreases cbs.len(),
{
    if cbs.len() == 0 {
        let p = cbs.push(x);
        assert(p[0] == x);
        assert(p.drop_first() =~= Seq::<Callback>::empty());
        assert(line_cbs_events(p.drop_first(), param, channels) =~= Seq::<EventView>::empty());
        assert(line_cbs_events(p, param, channels) =~= line_cb_events(x, param, channels));
        assert(line_cbs_events(cbs, param, channels) + line_cb_events(x, param, channels)
            =~= line_cb_events(x, param, channels));
    } else {
        lemma_line_cbs_push(cbs.drop_first(), x, param, channels);
        assert(cbs.push(x).drop_first() =~= cbs.drop_first().push(x));
        assert(cbs.push(x)[0] == cbs[0]);
        assert(line_cbs_events(cbs.push(x), param, channels) =~= (line_cbs_events(
            cbs,
            param,
            channels,
        ) + line_cb_events(x, param, channels)));
    }
}

/// `chat_cbs_events` distributes over a callback appended at the right.
proof fn lemma_chat_cbs_push(
    cbs: Seq<Callback>,
    x: Callback,
    channel: Seq<char>,
    channels: Seq<Seq<char>>,
)
    ensures
        chat_cbs_events(cbs.push(x), channel, channels) == chat_cbs_events(cbs, channel, channels)
            + chat_cb_events(x, channel, channels),
    decreases cbs.len(),
{
    if cbs.len() == 0 {
        let p = cbs.push(x);
        assert(p[0] == x);
        assert(p.drop_first() =~= Seq::<Callback>::empty());
        assert(chat_cbs_events(p.drop_first(), channel, channels) =~= Seq::<EventView>::empty());
        assert(chat_cbs_events(p, channel, channels) =~= chat_cb_events(x, channel, channels));
        assert(chat_cbs_events(cbs, channel, channels) + chat_cb_events(x, channel, channels)
            =~= chat_cb_events(x, channel, channels));
    } else {
        lemma_chat_cbs_push(cbs.drop_first(), x, channel, channels);
        assert(cbs.push(x).drop_first() =~= cbs.drop_first().push(x));
        assert(cbs.push(x)[0] == cbs[0]);
        assert(chat_cbs_events(cbs.push(x), channel, channels) =~= (chat_cbs_events(
            cbs,
            channel,
            channels,
        ) + chat_cb_events(x, channel, channels)));
    }
}

/// One row of a callback table: a key and the callbacks registered under
/// it, in registration order.
pub struct CbEntry {
    pub key: String,
    pub cbs: Vec<Callback>,
}

/// The keys of a table, in insertion order.
pub open spec fn tbl_keys(tbl: Seq<CbEntry>) -> Seq<Seq<char>> {
    tbl.map_values(|e: CbEntry| e.key@)
}

/// Whether a table holds a row for `key`.
pub open spec fn tbl_has(tbl: Seq<CbEntry>, key: Seq<char>) -> bool {
    exists|i: int| 0 <= i < tbl.len() && tbl[i].key@ == key
}

/// The callbacks registered under `key`: those of the first row with that
/// key, none when the key is absent.
pub open spec fn tbl_lookup(tbl: Seq<CbEntry>, key: Seq<char>) -> Seq<Callback>
    decreases tbl.len(),
{
    if tbl.len() == 0 {
        Seq::empty()
    } else if tbl[0].key@ == key {
        tbl[0].cbs@
    } else {
        tbl_lookup(tbl.drop_first(), key)
    }
}

/// When the first row holding `key` is at `i`, the lookup gives that row.
proof fn lemma_tbl_lookup_at(tbl: Seq<CbEntry>, key: Seq<char>, i: int)
    requires
        0 <= i < tbl.len(),
        forall|j: int| 0 <= j < i ==> tbl[j].key@ != key,
        tbl[i].key@ == key,
    ensures
        tbl_lookup(tbl, key) == tbl[i].cbs@,
    decreases i,
{
    if i > 0 {
        lemma_tbl_lookup_at(tbl.drop_first(), key, i - 1);
    }
}

/// When no row holds `key`, the lookup is empty.
proof fn lemma_tbl_lookup_absent(tbl: Seq<CbEntry>, key: Seq<char>)
    requires
        forall|j: int| 0 <= j < tbl.len() ==> tbl[j].key@ != key,
    ensures
        tbl_lookup(tbl, key) == Seq::<Callback>::empty(),
    decreases tbl.len(),
{
    if tbl.len() > 0 {
        lemma_tbl_lookup_absent(tbl.drop_first(), key);
    }
}

/// A row appended at the right changes only lookups of keys the table did
/// not hold.
proof fn lemma_tbl_lookup_push(tbl: Seq<CbEntry>, e: CbEntry, k: Seq<char>)
    ensures
        tbl_lookup(tbl.push(e), k) == (if tbl_has(tbl, k) {
            tbl_lookup(tbl, k)
        } else if e.key@ == k {
            e.cbs@
        } else {
            Seq::<Callback>::empty()
        }),
    decreases tbl.len(),
{
    let p = tbl.push(e);
    if tbl.len() == 0 {
        assert(p[0] == e);
        assert(!tbl_has(tbl, k));
        if e.key@ != k {
            assert(p.drop_first() =~= Seq::<CbEntry>::empty());
            assert(tbl_lookup(p, k) == tbl_lookup(p.drop_first(), k));
        }
    } else {
        lemma_tbl_lookup_push(tbl.drop_first(), e, k);
        assert(p.drop_first() =~= tbl.drop_first().push(e));
        assert(p[0] == tbl[0]);
        if tbl[0].key@ == k {
            assert(tbl_lookup(p, k) == tbl[0].cbs@);
            assert(tbl_lookup(tbl, k) == tbl[0].cbs@);
            assert(tbl_has(tbl, k));
        } else {
            assert(tbl_lookup(p, k) == tbl_lookup(tbl.drop_first().push(e), k));
            assert(tbl_lookup(tbl, k) == tbl_lookup(tbl.drop_first(), k));
            // membership in the rest decides both sides alike
            if tbl_has(tbl, k) {
                let i = choose|i: int| 0 <= i < tbl.len() && tbl[i].key@ == k;
                assert(tbl.drop_first()[i - 1].key@ == k);
                assert(tbl_has(tbl.drop_first(), k));
            }
            if tbl_has(tbl.drop_first(), k) {
                let i = choose|i: int|
                    0 <= i < tbl.drop_first().len() && tbl.drop_first()[i].key@ == k;
                assert(tbl[i + 1].key@ == k);
                assert(tbl_has(tbl, k));
            }
        }
    }
}

/// An update that keeps a row's key changes only that key's lookup.
proof fn lemma_tbl_lookup_update(tbl: Seq<CbEntry>, i: int, e: CbEntry, k: Seq<char>)
    requires
        0 <= i < tbl.len(),
        e.key@ == tbl[i].key@,
        k != tbl[i].key@,
    ensures
        tbl_lookup(tbl.update(i, e), k) == tbl_lookup(tbl, k),
    decreases i,
{
    let u = tbl.update(i, e);
    if i == 0 {
        assert(u[0] == e);
        assert(u.drop_first() =~= tbl.drop_first());
    } else {
        lemma_tbl_lookup_update(tbl.drop_first(), i - 1, e, k);
        assert(u[0] == tbl[0]);
        assert(u.drop_first() =~= tbl.drop_first().update(i - 1, e));
    }
}

/// Register `cb` under `key`: append it to the row holding `key`, or open a
/// new row at the end of the table.  Lookups of other keys and the key
/// order are untouched; a fresh key is appended to the key order.
pub fn tbl_register(tbl: &mut Vec<CbEntry>, key: &str, cb: Callback)
    ensures
        tbl_lookup(final(tbl)@, key@) == tbl_lookup(old(tbl)@, key@).push(cb),
        forall|k: Seq<char>|
            k != key@ ==> tbl_lookup(final(tbl)@, k) == tbl_lookup(old(tbl)@, k),
        tbl_keys(final(tbl)@) == (if tbl_has(old(tbl)@, key@) {
            tbl_keys(old(tbl)@)
        } else {
            tbl_keys(old(tbl)@).push(key@)
        }),
{
    let n = tbl.len();
    let mut i: usize = 0;
    loop
        invariant
            0 <= i <= n,
            n == tbl.len(),
            tbl@ == old(tbl)@,
            forall|j: int| 0 <= j < i ==> tbl@[j].key@ != key@,
        ensures
            tbl@ == old(tbl)@,
            forall|j: int| 0 <= j < i ==> tbl@[j].key@ != key@,
            i <= n,
            i < n ==> tbl@[i as int].key@ == key@,
            i == n ==> forall|j: int| 0 <= j < n ==> tbl@[j].key@ != key@,
        decreases n - i,
    {
        if i == n {
            break ;
        }
        if str_eq(tbl[i].key.as_str(), key) {
            break ;
        }
        i = i + 1;
    }
    if i < n {
        let mut e = tbl.remove(i);
        e.cbs.push(cb);
        let ghost e2 = e;
        tbl.insert(i, e);
        proof {
            assert(tbl@ =~= old(tbl)@.update(i as int, e2));
            lemma_tbl_lookup_at(old(tbl)@, key@, i as int);
            lemma_tbl_lookup_at(tbl@, key@, i as int);
            assert forall|k: Seq<char>| k != key@ implies tbl_lookup(tbl@, k) == tbl_lookup(
                old(tbl)@,
                k,
            ) by {
                lemma_tbl_lookup_update(old(tbl)@, i as int, e2, k);
            }
            assert(tbl_has(old(tbl)@, key@));
            assert(tbl_keys(tbl@) =~= tbl_keys(old(tbl)@));
        }
    } else {
        let mut cbs: Vec<Callback> = Vec::new();
        cbs.push(cb);
        let e = CbEntry { key: String::from_str(key), cbs };
        let ghost e2 = e;
        tbl.push(e);
        proof {
            assert(tbl@ =~= old(tbl)@.push(e2));
            assert forall|k: Seq<char>| true implies tbl_lookup(tbl@, k) == (if tbl_has(
                old(tbl)@,
                k,
            ) {
                tbl_lookup(old(tbl)@, k)
            } else if k == key@ {
                e2.cbs@
            } else {
                Seq::<Callback>::empty()
            }) by {
                lemma_tbl_lookup_push(old(tbl)@, e2, k);
            }
            assert(!tbl_has(old(tbl)@, key@));
            lemma_tbl_lookup_absent(old(tbl)@, key@);
            assert(e2.cbs@ =~= tbl_lookup(old(tbl)@, key@).push(cb));
            assert forall|k: Seq<char>| k != key@ implies tbl_lookup(tbl@, k) == tbl_lookup(
                old(tbl)@,
                k,
            ) by {
                if !tbl_has(old(tbl)@, k) {
                    lemma_tbl_lookup_absent(old(tbl)@, k);
                }
            }
            assert(tbl_keys(tbl@) =~= tbl_keys(old(tbl)@).push(key@));
        }
    }
}

/// Whether some string of the list holds exactly the characters of `s`.
pub fn contains_str(xs: &Vec<String>, s: &str) -> (r: bool)
    ensures
        r == xs.deep_view().contains(s@),
{
    let mut k: usize = 0;
    while k < xs.len()
        invariant
            0 <= k <= xs.len(),
            forall|j: int| 0 <= j < k ==> xs.deep_view()[j] != s@,
        decreases xs.len() - k,
    {
        if str_eq(xs[k].as_str(), s) {
            proof {
                assert(xs.deep_view()[k as int] == s@);
            }
            return true;
        }
        k = k + 1;
    }
    proof {
        assert(!xs.deep_view().contains(s@));
    }
    false
}

/// Join every configured channel.
fn join_all(writer: &mut IrcWriter, info: &BotInfo)
    ensures
        final(writer)@ == old(writer)@ + join_all_events(info.channels.deep_view()),
{
    let ghost chans = info.channels.deep_view();
    let mut k: usize = 0;
    proof {
        assert(chans.take(0) =~= Seq::<Seq<char>>::empty());
        assert(writer@ + join_all_events(chans.take(0)) =~= writer@);
    }
    while k < info.channels.len()
        invariant
            0 <= k <= info.channels.len(),
            chans == info.channels.deep_view(),
            writer@ == old(writer)@ + join_all_events(chans.take(k as int)),
        decreases info.channels.len() - k,
    {
        writer.join(info.channels[k].as_str());
        proof {
            lemma_join_all_push(chans.take(k as int), chans[k as int]);
            assert(chans.take(k + 1) =~= chans.take(k as int).push(chans[k as int]));
            assert(writer@ =~= old(writer)@ + join_all_events(chans.take(k + 1)));
        }
        k = k + 1;
    }
    proof {
        assert(chans.take(info.channels.len() as int) =~= chans);
    }
}

/// Apply one line-keyed callback.
fn apply_line_cb(cb: &Callback, param: &str, writer: &mut IrcWriter, info: &BotInfo)
    ensures
        final(writer)@ == old(writer)@ + line_cb_events(*cb, param@, info.channels.deep_view()),
{
    match cb {
        Callback::SendPong => {
            let line = concat2("PONG ", param);
            writer.output(line.as_str());
        },
        Callback::JoinChannels => {
            join_all(writer, info);
        },
        Callback::Note(s) => {
            writer.output(s.as_str());
        },
        Callback::Reply(s) => {
            proof {
                assert(writer@ + line_cb_events(*cb, param@, info.channels.deep_view())
                    =~= writer@);
            }
        },
    }
}

/// Apply one chat-keyed callback.
fn apply_chat_cb(cb: &Callback, channel: &str, writer: &mut IrcWriter, info: &BotInfo)
    ensures
        final(writer)@ == old(writer)@ + chat_cb_events(*cb, channel@, info.channels.deep_view()),
{
    match cb {
        Callback::SendPong => {
            proof {
                assert(writer@ + chat_cb_events(*cb, channel@, info.channels.deep_view())
                    =~= writer@);
            }
        },
        Callback::JoinChannels => {
            join_all(writer, info);
        },
        Callback::Note(s) => {
            writer.output(s.as_str());
        },
        Callback::Reply(s) => {
            writer.msg(channel, s.as_str());
        },
    }
}

/// Apply a list of line-keyed callbacks, in registration order.
fn run_line_cbs(cbs: &Vec<Callback>, param: &str, writer: &mut IrcWriter, info: &BotInfo)
    ensures
        final(writer)@ == old(writer)@ + line_cbs_events(cbs@, param@, info.channels.deep_view()),
{
    let ghost cv = cbs@;
    let ghost chans = info.channels.deep_view();
    let mut k: usize = 0;
    proof {
        assert(cv.take(0) =~= Seq::<Callback>::empty());
        assert(writer@ + line_cbs_events(cv.take(0), param@, chans) =~= writer@);
    }
    while k < cbs.len()
        invariant
            0 <= k <= cbs.len(),
            cv == cbs@,
            chans == info.channels.deep_view(),
            writer@ == old(writer)@ + line_cbs_events(cv.take(k as int), param@, chans),
        decreases cbs.len() - k,
    {
        apply_line_cb(&cbs[k], param, writer, info);
        proof {
            lemma_line_cbs_push(cv.take(k as int), cv[k as int], param@, chans);
            assert(cv.take(k + 1) =~= cv.take(k as int).push(cv[k as int]));
            assert(writer@ =~= old(writer)@ + line_cbs_events(cv.take(k + 1), param@, chans));
        }
        k = k + 1;
    }
    proof {
        assert(cv.take(cbs.len() as int) =~= cv);
    }
}

/// Apply a list of chat-keyed callbacks, in registration order.
fn run_chat_cbs(cbs: &Vec<Callback>, channel: &str, writer: &mut IrcWriter, info: &BotInfo)
    ensures
        final(writer)@ == old(writer)@ + chat_cbs_events(
            cbs@,
            channel@,
            info.channels.deep_view(),
        ),
{
    let ghost cv = cbs@;
    let ghost chans = info.channels.deep_view();
    let mut k: usize = 0;
    proof {
        assert(cv.take(0) =~= Seq::<Callback>::empty());
        assert(writer@ + chat_cbs_events(cv.take(0), channel@, chans) =~= writer@);
    }
    while k < cbs.len()
        invariant
            0 <= k <= cbs.len(),
            cv == cbs@,
            chans == info.channels.deep_view(),
            writer@ == old(writer)@ + chat_cbs_events(cv.take(k as int), channel@, chans),
        decreases cbs.len() - k,
    {
        apply_chat_cb(&cbs[k], channel, writer, info);
        proof {
            lemma_chat_cbs_push(cv.take(k as int), cv[k as int], channel@, chans);
            assert(cv.take(k + 1) =~= cv.take(k as int).push(cv[k as int]));
            assert(writer@ =~= old(writer)@ + chat_cbs_events(cv.take(k + 1), channel@, chans));
        }
        k = k + 1;
    }
    proof {
        assert(cv.take(cbs.len() as int) =~= cv);
    }
}

/// One help reply line: the bot's sigil-quoted name and plugin name, then
/// the plugin's help text.
pub open spec fn help_line(nick: Seq<char>, p: PluginEntry) -> Seq<char> {
    "`"@ + nick + " "@ + p.name_v() + "`: "@ + p.help_v()
}

/// The help reply: one chat line to `user` per registered plugin, in
/// registration order.
pub open spec fn help_events(plugins: Seq<PluginEntry>, nick: Seq<char>, user: Seq<char>) -> Seq<
    EventView,
>
    decreases plugins.len(),
{
    if plugins.len() == 0 {
        Seq::empty()
    } else {
        msg_events(user, help_line(nick, plugins[0])) + help_events(
            plugins.drop_first(),
            nick,
            user,
        )
    }
}

/// `help_events` distributes over a plugin appended at the right.
proof fn lemma_help_events_push(
    plugins: Seq<PluginEntry>,
    x: PluginEntry,
    nick: Seq<char>,
    user: Seq<char>,
)
    ensures
        help_events(plugins.push(x), nick, user) == help_events(plugins, nick, user) + msg_events(
            user,
            help_line(nick, x),
        ),
    decreases plugins.len(),
{
    if plugins.len() == 0 {
        let p = plugins.push(x);
        assert(p[0] == x);
        assert(p.drop_first() =~= Seq::<PluginEntry>::empty());
        assert(help_events(p.drop_first(), nick, user) =~= Seq::<EventView>::empty());
        assert(help_events(p, nick, user) =~= msg_events(user, help_line(nick, x)));
        assert(help_events(plugins, nick, user) + msg_events(user, help_line(nick, x))
            =~= msg_events(user, help_line(nick, x)));
    } else {
        lemma_help_events_push(plugins.drop_first(), x, nick, user);
        assert(plugins.push(x).drop_first() =~= plugins.drop_first().push(x));
        assert(plugins.push(x)[0] == plugins[0]);
        assert(help_events(plugins.push(x), nick, user) =~= (help_events(plugins, nick, user)
            + msg_events(user, help_line(nick, x))));
    }
}

/// Send the help reply to `user`: one line per plugin.
fn run_help_replies(plugins: &Vec<PluginEntry>, nick: &str, user: &str, writer: &mut IrcWriter)
    ensures
        final(writer)@ == old(writer)@ + help_events(plugins@, nick@, user@),
{
    let ghost pv = plugins@;
    let mut k: usize = 0;
    proof {
        assert(pv.take(0) =~= Seq::<PluginEntry>::empty());
        assert(writer@ + help_events(pv.take(0), nick@, user@) =~= writer@);
    }
    while k < plugins.len()
        invariant
            0 <= k <= plugins.len(),
            pv == plugins@,
            writer@ == old(writer)@ + help_events(pv.take(k as int), nick@, user@),
        decreases plugins.len() - k,
    {
        let p = &plugins[k];
        let head = crate::util::concat4("`", nick, " ", p.name());
        let line = crate::util::concat3(head.as_str(), "`: ", p.help());
        proof {
            assert(line@ =~= help_line(nick@, pv[k as int]));
        }
        writer.msg(user, line.as_str());
        proof {
            lemma_help_events_push(pv.take(k as int), pv[k as int], nick@, user@);
            assert(pv.take(k + 1) =~= pv.take(k as int).push(pv[k as int]));
            assert(writer@ =~= old(writer)@ + help_events(pv.take(k + 1), nick@, user@));
        }
        k = k + 1;
    }
    proof {
        assert(pv.take(plugins.len() as int) =~= pv);
    }
}

/// The index of the first row holding `key`, if any.
fn tbl_find(tbl: &Vec<CbEntry>, key: &str) -> (r: Option<usize>)
    ensures
        r matches Some(i) ==> 0 <= i < tbl@.len() && tbl@[i as int].key@ == key@ && (forall|j: int|
            0 <= j < i ==> tbl@[j].key@ != key@),
        r is None ==> forall|j: int| 0 <= j < tbl@.len() ==> tbl@[j].key@ != key@,
{
    let n = tbl.len();
    let mut i: usize = 0;
    while i < n
        invariant
            0 <= i <= n,
            n == tbl.len(),
            forall|j: int| 0 <= j < i ==> tbl@[j].key@ != key@,
        decreases n - i,
    {
        if str_eq(tbl[i].key.as_str(), key) {
            return Some(i);
        }
        i = i + 1;
    }
    None
}

/// The keys of a callback table, in insertion order.
fn tbl_key_list<'a>(tbl: &'a Vec<CbEntry>) -> (r: Vec<&'a str>)
    ensures
        r.deep_view() == tbl_keys(tbl@),
{
    let mut r: Vec<&str> = Vec::new();
    let mut k: usize = 0;
    proof {
        assert(r.deep_view() =~= tbl_keys(tbl@).take(0));
    }
    while k < tbl.len()
        invariant
            0 <= k <= tbl.len(),
            r.deep_view() == tbl_keys(tbl@).take(k as int),
        decreases tbl.len() - k,
    {
        let ghost prev = r.deep_view();
        r.push(tbl[k].key.as_str());
        proof {
            assert(r.deep_view() =~= prev.push(tbl@[k as int].key@));
            assert(r.deep_view() =~= tbl_keys(tbl@).take(k + 1));
        }
        k = k + 1;
    }
    proof {
        assert(tbl_keys(tbl@).take(tbl.len() as int) =~= tbl_keys(tbl@));
    }
    r
}

/// The help reply appended for a message: sent only when the parameters
/// spell a help request addressed to the bot, and only when the origin
/// prefix names a sender to reply to.
pub open spec fn help_part(data: IrcData, m: IrcMsg) -> Seq<EventView> {
    if m.param@ == data.info.nick@ + " :help"@ {
        match parse_sender_spec(m.prefix@) {
            Some(q) => help_events(data.plugins@, data.info.nick@, q.0),
            None => Seq::empty(),
        }
    } else {
        Seq::empty()
    }
}

/// The code-keyed callback events appended for a message.
pub open spec fn code_part(data: IrcData, m: IrcMsg) -> Seq<EventView> {
    line_cbs_events(tbl_lookup(data.code_cb@, m.code@), m.param@, data.info.channels.deep_view())
}

/// The command stage short of the plugin chain: the `cmds` listing — every
/// registered command-callback key, comma-joined, sent to the command's
/// channel, plugins never consulted for it — followed by the events of the
/// callbacks registered under the command's name.
pub open spec fn cmd_base_events(data: IrcData, cv: IrcCommand) -> Seq<EventView> {
    (if cv.name@ == "cmds"@ {
        msg_events(cv.channel@, joined(tbl_keys(data.cmd_cb@), ", "@))
    } else {
        Seq::<EventView>::empty()
    }) + chat_cbs_events(
        tbl_lookup(data.cmd_cb@, cv.name@),
        cv.channel@,
        data.info.channels.deep_view(),
    )
}

/// What the command stage appends: the base events, then one plugin chain.
pub open spec fn cmd_appended(data: IrcData, cv: IrcCommand, app: Seq<EventView>) -> bool {
    exists|ev2: Seq<EventView>|
        app == cmd_base_events(data, cv) + ev2 && cmd_chain_ok(data.plugins@, cv, data.info, ev2)
}

/// The command `cmds` always answers first with the listing of every
/// registered command-callback key, comma-joined in registration order and
/// sent to the command's channel: whatever the command stage appended, it
/// begins with that listing, which is built from the callback table alone —
/// no plugin is consulted for it.
pub proof fn lemma_cmds_lists_all_keys(data: IrcData, cv: IrcCommand, app: Seq<EventView>)
    requires
        cv.name@ == "cmds"@,
        cmd_appended(data, cv, app),
    ensures
        msg_events(cv.channel@, joined(tbl_keys(data.cmd_cb@), ", "@)).is_prefix_of(app),
{
    let ev2 = choose|ev2: Seq<EventView>|
        app == cmd_base_events(data, cv) + ev2 && cmd_chain_ok(data.plugins@, cv, data.info, ev2);
    let listing = msg_events(cv.channel@, joined(tbl_keys(data.cmd_cb@), ", "@));
    assert(listing =~= app.subrange(0, listing.len() as int));
}

/// What the chat stage appends: the chat callbacks, one plugin chain, and —
/// when the text extracts to a command under the configured sigil — the
/// command stage.
pub open spec fn chat_appended(data: IrcData, pm: IrcPrivMsg, app: Seq<EventView>) -> bool {
    exists|ev1: Seq<EventView>, rest: Seq<EventView>|
        {
            &&& app == chat_cbs_events(
                data.privmsg_cb@,
                pm.channel@,
                data.info.channels.deep_view(),
            ) + ev1 + rest
            &&& privmsg_chain_ok(data.plugins@, pm, data.info, ev1)
            &&& match extract_spec(pm.txt@, data.info.cmd_prefix@) {
                Option::None => rest == Seq::<EventView>::empty(),
                Option::Some(e) => exists|cv: IrcCommand|
                    cv.name@ == e.0 && cv.args.deep_view() == e.1 && cv.channel@ == pm.channel@
                        && cmd_appended(data, cv, rest),
            }
        }
}

/// The chat message a generic message converts to, field by field.
pub open spec fn chat_fields_ok(pm: IrcPrivMsg, m: IrcMsg) -> bool {
    &&& pm.orig@ == m.orig@
    &&& parse_sender_spec(m.prefix@) matches Some(s) && pm.sender_nick@ == s.0 && pm.sender_info@
        == s.1
    &&& parse_channel_spec(m.param@) matches Some(c) && pm.channel@ == c.0 && pm.txt@ == c.1
}

/// What handling a parsed message appends: the help reply, the code-keyed
/// callbacks, and — for chat messages — the chat stage.
pub open spec fn msg_appended(data: IrcData, m: IrcMsg, app: Seq<EventView>) -> bool {
    if is_chat_spec(m.prefix@, m.code@, m.param@) {
        exists|pm: IrcPrivMsg, capp: Seq<EventView>|
            chat_fields_ok(pm, m) && app == help_part(data, m) + code_part(data, m) + capp
                && chat_appended(data, pm, capp)
    } else {
        app == help_part(data, m) + code_part(data, m)
    }
}

/// What handling a raw inbound line appends: the raw-line callbacks see the
/// trimmed line first; a line with the generic shape is then dispatched as
/// a message, and one without it only echoes a diagnostic.
pub open spec fn received_appended(data: IrcData, line: Seq<char>, app: Seq<EventView>) -> bool {
    let t = trim_spec(line);
    let raw = line_cbs_events(data.raw_cb@, t, data.info.channels.deep_view());
    match parse_generic_spec(t) {
        Option::None => app == raw,
        Option::Some(g) => exists|m: IrcMsg, mapp: Seq<EventView>|
            m.orig@ == t && m.prefix@ == g.0 && m.code@ == g.1 && m.param@ == g.2 && app == raw
                + mapp && msg_appended(data, m, mapp),
    }
}

/// The diagnostic echo for a raw inbound line: unparseable lines echo with
/// a distinct marker; parsed lines echo unless their code is suppressed.
pub open spec fn received_echo_ok(data: IrcData, line: Seq<char>, echo: Option<String>) -> bool {
    let t = trim_spec(line);
    match parse_generic_spec(t) {
        Option::None => echo matches Some(e) && e@ == "<! "@ + t,
        Option::Some(g) => if data.in_blacklist.deep_view().contains(g.1) {
            echo is None
        } else {
            echo matches Some(e) && e@ == "< "@ + t
        },
    }
}

/// All dispatcher state: the read-only identity, the echo suppression
/// lists, the callback tables (ordered multimaps), and the plugin registry.
pub struct IrcData {
    pub info: BotInfo,
    pub in_blacklist: Vec<String>,
    pub out_blacklist: Vec<String>,
    pub raw_cb: Vec<Callback>,
    pub code_cb: Vec<CbEntry>,
    pub privmsg_cb: Vec<Callback>,
    pub cmd_cb: Vec<CbEntry>,
    pub plugins: Vec<PluginEntry>,
}

impl IrcData {
    /// Fresh dispatcher state over a configuration: empty tables, no
    /// plugins.
    pub fn new(conf: IrcConfig) -> (r: IrcData)
        ensures
            r.info.nick@ == conf.nick@,
            r.info.descr@ == conf.descr@,
            r.info.channels.deep_view() == conf.channels.deep_view(),
            r.info.cmd_prefix@ == conf.cmd_prefix@,
            r.in_blacklist.deep_view() == conf.in_blacklist.deep_view(),
            r.out_blacklist.deep_view() == conf.out_blacklist.deep_view(),
            r.raw_cb@ == Seq::<Callback>::empty(),
            r.code_cb@ == Seq::<CbEntry>::empty(),
            r.privmsg_cb@ == Seq::<Callback>::empty(),
            r.cmd_cb@ == Seq::<CbEntry>::empty(),
            r.plugins@ == Seq::<PluginEntry>::empty(),
    {
        let info = BotInfo::new(&conf);
        let r = IrcData {
            info,
            in_blacklist: conf.in_blacklist,
            out_blacklist: conf.out_blacklist,
            raw_cb: Vec::new(),
            code_cb: Vec::new(),
            privmsg_cb: Vec::new(),
            cmd_cb: Vec::new(),
            plugins: Vec::new(),
        };
        proof {
            assert(r.raw_cb@ =~= Seq::<Callback>::empty());
            assert(r.code_cb@ =~= Seq::<CbEntry>::empty());
            assert(r.privmsg_cb@ =~= Seq::<Callback>::empty());
            assert(r.cmd_cb@ =~= Seq::<CbEntry>::empty());
            assert(r.plugins@ =~= Seq::<PluginEntry>::empty());
        }
        r
    }

    /// Decide whether an outbound line is echoed to the operator log: it is
    /// unless some suppression pattern matches.  Suppression affects only
    /// the echo; the caller transmits the line either way.
    pub fn handle_write(&self, s: &str) -> (echo: bool)
        ensures
            echo <==> !suppressed(self.out_blacklist.deep_view(), s@),
    {
        let ghost pats = self.out_blacklist.deep_view();
        let mut blacklisted = false;
        let mut k: usize = 0;
        proof {
            assert(!suppressed(pats.take(0), s@));
        }
        while k < self.out_blacklist.len()
            invariant
                0 <= k <= self.out_blacklist.len(),
                pats == self.out_blacklist.deep_view(),
                blacklisted == suppressed(pats.take(k as int), s@),
            decreases self.out_blacklist.len() - k,
        {
            let ghost pre = blacklisted;
            match regex_is_match(self.out_blacklist[k].as_str(), s) {
                Some(true) => {
                    blacklisted = true;
                },
                _ => {},
            }
            proof {
                let t1 = pats.take(k + 1);
                if blacklisted {
                    if pre {
                        let i = choose|i: int|
                            0 <= i < k && regex_valid(pats.take(k as int)[i]) && regex_match(
                                pats.take(k as int)[i],
                                s@,
                            );
                        assert(t1[i] == pats[i]);
                        assert(suppressed(t1, s@));
                    } else {
                        assert(t1[k as int] == pats[k as int]);
                        assert(suppressed(t1, s@));
                    }
                } else {
                    if suppressed(t1, s@) {
                        let i = choose|i: int|
                            0 <= i < t1.len() && regex_valid(t1[i]) && regex_match(t1[i], s@);
                        if i < k {
                            assert(pats.take(k as int)[i] == t1[i]);
                            assert(suppressed(pats.take(k as int), s@));
                        }
                    }
                }
            }
            k = k + 1;
        }
        proof {
            assert(pats.take(self.out_blacklist.len() as int) =~= pats);
        }
        !blacklisted
    }

    /// Dispatch one chat message: every chat callback in registration
    /// order, then the plugins, stopping at the first that claims it.
    pub fn handle_priv_msg(&mut self, msg: &IrcPrivMsg, writer: &mut IrcWriter)
        ensures
            final(self).info == old(self).info,
            final(self).in_blacklist == old(self).in_blacklist,
            final(self).out_blacklist == old(self).out_blacklist,
            final(self).raw_cb == old(self).raw_cb,
            final(self).code_cb == old(self).code_cb,
            final(self).privmsg_cb == old(self).privmsg_cb,
            final(self).cmd_cb == old(self).cmd_cb,
            final(self).plugins@ == old(self).plugins@,
            old(writer)@.is_prefix_of(final(writer)@),
            exists|ev1: Seq<EventView>|
                final(writer)@.skip(old(writer)@.len() as int) == chat_cbs_events(
                    old(self).privmsg_cb@,
                    msg.channel@,
                    old(self).info.channels.deep_view(),
                ) + ev1 && privmsg_chain_ok(old(self).plugins@, *msg, old(self).info, ev1),
    {
        run_chat_cbs(&self.privmsg_cb, msg.channel.as_str(), writer, &self.info);
        let ghost mid = writer@;
        run_plugins_privmsg(&mut self.plugins, msg, writer, &self.info);
        proof {
            let ghost ev1 = writer@.skip(mid.len() as int);
            assert(writer@ =~= mid + ev1);
            assert(mid == old(writer)@ + chat_cbs_events(
                old(self).privmsg_cb@,
                msg.channel@,
                old(self).info.channels.deep_view(),
            ));
            assert(writer@.skip(old(writer)@.len() as int) =~= chat_cbs_events(
                old(self).privmsg_cb@,
                msg.channel@,
                old(self).info.channels.deep_view(),
            ) + ev1);
            assert(old(writer)@.is_prefix_of(writer@));
        }
    }

    /// Dispatch one command: the `cmds` listing when asked for, then every
    /// callback registered under the command's name in registration order,
    /// then the plugins, stopping at the first that claims it.
    pub fn handle_cmd(&mut self, cmd: &IrcCommand, writer: &mut IrcWriter)
        ensures
            final(self).info == old(self).info,
            final(self).in_blacklist == old(self).in_blacklist,
            final(self).out_blacklist == old(self).out_blacklist,
            final(self).raw_cb == old(self).raw_cb,
            final(self).code_cb == old(self).code_cb,
            final(self).privmsg_cb == old(self).privmsg_cb,
            final(self).cmd_cb == old(self).cmd_cb,
            final(self).plugins@ == old(self).plugins@,
            old(writer)@.is_prefix_of(final(writer)@),
            cmd_appended(*old(self), *cmd, final(writer)@.skip(old(writer)@.len() as int)),
    {
        proof {
            reveal_strlit("cmds");
        }
        let ghost listing_part = (if cmd.name@ == "cmds"@ {
            msg_events(cmd.channel@, joined(tbl_keys(self.cmd_cb@), ", "@))
        } else {
            Seq::<EventView>::empty()
        });
        if str_eq(cmd.name.as_str(), "cmds") {
            let keys = tbl_key_list(&self.cmd_cb);
            let response = crate::util::join(&keys, ", ");
            writer.msg(cmd.channel.as_str(), response.as_str());
        }
        let ghost after_listing = writer@;
        proof {
            assert(after_listing =~= old(writer)@ + listing_part);
        }
        let ghost cbs_part = chat_cbs_events(
            tbl_lookup(self.cmd_cb@, cmd.name@),
            cmd.channel@,
            self.info.channels.deep_view(),
        );
        match tbl_find(&self.cmd_cb, cmd.name.as_str()) {
            Some(i) => {
                proof {
                    lemma_tbl_lookup_at(self.cmd_cb@, cmd.name@, i as int);
                }
                run_chat_cbs(&self.cmd_cb[i].cbs, cmd.channel.as_str(), writer, &self.info);
            },
            None => {
                proof {
                    lemma_tbl_lookup_absent(self.cmd_cb@, cmd.name@);
                    assert(cbs_part =~= Seq::<EventView>::empty());
                    assert(writer@ =~= after_listing + cbs_part);
                }
            },
        }
        let ghost mid = writer@;
        proof {
            assert(mid =~= after_listing + cbs_part);
            assert(mid =~= old(writer)@ + (listing_part + cbs_part));
            assert(mid =~= old(writer)@ + cmd_base_events(*old(self), *cmd));
        }
        run_plugins_cmd(&mut self.plugins, cmd, writer, &self.info);
        proof {
            let ghost ev2 = writer@.skip(mid.len() as int);
            assert(writer@ =~= mid + ev2);
            assert(writer@.skip(old(writer)@.len() as int) =~= cmd_base_events(*old(self), *cmd)
                + ev2);
            assert(old(writer)@.is_prefix_of(writer@));
        }
    }

    /// Dispatch one parsed message: the help reply when asked for, the
    /// callbacks registered under the message's code, and — when the
    /// message converts to a chat message — the chat and command stages.
    /// Returns the operator-log echo, withheld when the code is suppressed.
    #[verifier::rlimit(100)]
    pub fn handle_msg(&mut self, msg: &IrcMsg, writer: &mut IrcWriter) -> (echo: Option<String>)
        ensures
            final(self).info == old(self).info,
            final(self).in_blacklist == old(self).in_blacklist,
            final(self).out_blacklist == old(self).out_blacklist,
            final(self).raw_cb == old(self).raw_cb,
            final(self).code_cb == old(self).code_cb,
            final(self).privmsg_cb == old(self).privmsg_cb,
            final(self).cmd_cb == old(self).cmd_cb,
            final(self).plugins@ == old(self).plugins@,
            old(writer)@.is_prefix_of(final(writer)@),
            echo is Some <==> !old(self).in_blacklist.deep_view().contains(msg.code@),
            echo matches Some(e) ==> e@ == "< "@ + msg.orig@,
            msg_appended(*old(self), *msg, final(writer)@.skip(old(writer)@.len() as int)),
    {
        let echo: Option<String> = if !contains_str(&self.in_blacklist, msg.code.as_str()) {
            Some(concat2("< ", msg.orig.as_str()))
        } else {
            None
        };
        // the help request addressed to the bot
        let expected = concat2(self.info.nick.as_str(), " :help");
        if str_eq(msg.param.as_str(), expected.as_str()) {
            match msg.match_sender() {
                Some((user, _)) => {
                    run_help_replies(
                        &self.plugins,
                        self.info.nick.as_str(),
                        user.as_str(),
                        writer,
                    );
                },
                None => {},
            }
        }
        proof {
            assert(writer@ =~= old(writer)@ + help_part(*old(self), *msg));
        }
        // callbacks keyed by the message's code
        match tbl_find(&self.code_cb, msg.code.as_str()) {
            Some(i) => {
                proof {
                    lemma_tbl_lookup_at(self.code_cb@, msg.code@, i as int);
                }
                run_line_cbs(&self.code_cb[i].cbs, msg.param.as_str(), writer, &self.info);
            },
            None => {
                proof {
                    lemma_tbl_lookup_absent(self.code_cb@, msg.code@);
                    assert(line_cbs_events(
                        tbl_lookup(self.code_cb@, msg.code@),
                        msg.param@,
                        self.info.channels.deep_view(),
                    ) =~= Seq::<EventView>::empty());
                }
            },
        }
        let ghost after_code = writer@;
        proof {
            assert(after_code =~= old(writer)@ + help_part(*old(self), *msg) + code_part(
                *old(self),
                *msg,
            ));
        }
        // the chat and command stages
        match IrcPrivMsg::new(msg) {
            Some(pm) => {
                self.handle_priv_msg(&pm, writer);
                let ghost after_chat_cbs = writer@;
                let ghost data_mid = *self;
                let prefix = self.info.cmd_prefix.clone();
                let extracted = IrcCommand::new(&pm, prefix.as_str());
                match extracted {
                    Some(cv) => {
                        self.handle_cmd(&cv, writer);
                        proof {
                            let data = *old(self);
                            let rest = writer@.skip(after_chat_cbs.len() as int);
                            assert(writer@ =~= after_chat_cbs + rest);
                            // the state at the command stage had the same views
                            let ev2 = choose|ev2: Seq<EventView>|
                                rest == cmd_base_events(data_mid, cv) + ev2 && cmd_chain_ok(
                                    data_mid.plugins@,
                                    cv,
                                    data_mid.info,
                                    ev2,
                                );
                            assert(data_mid.cmd_cb == data.cmd_cb);
                            assert(data_mid.info == data.info);
                            assert(data_mid.plugins@ == data.plugins@);
                            assert(cmd_base_events(data_mid, cv) == cmd_base_events(data, cv));
                            assert(cmd_chain_ok(data.plugins@, cv, data.info, ev2));
                            assert(cmd_appended(data, cv, rest));
                        }
                    },
                    None => {},
                }
                proof {
                    let data = *old(self);
                    let capp = writer@.skip(after_code.len() as int);
                    let priv_part = chat_cbs_events(
                        data.privmsg_cb@,
                        pm.channel@,
                        data.info.channels.deep_view(),
                    );
                    let ev1 = choose|ev1: Seq<EventView>|
                        after_chat_cbs.skip(after_code.len() as int) == priv_part + ev1
                            && privmsg_chain_ok(data.plugins@, pm, data.info, ev1);
                    let rest = writer@.skip(after_chat_cbs.len() as int);
                    assert(after_chat_cbs =~= after_code + (priv_part + ev1));
                    assert(writer@ =~= after_chat_cbs + rest);
                    assert(capp =~= priv_part + ev1 + rest);
                    match extract_spec(pm.txt@, data.info.cmd_prefix@) {
                        Option::None => {
                            assert(rest =~= Seq::<EventView>::empty());
                        },
                        Option::Some(e) => {
                            assert(extracted is Some);
                        },
                    }
                    assert(chat_appended(data, pm, capp));
                    assert(writer@.skip(old(writer)@.len() as int) =~= help_part(data, *msg)
                        + code_part(data, *msg) + capp);
                    assert(chat_fields_ok(pm, *msg));
                    assert(msg_appended(data, *msg, writer@.skip(old(writer)@.len() as int)));
                }
            },
            None => {
                proof {
                    assert(writer@.skip(old(writer)@.len() as int) =~= help_part(*old(self), *msg)
                        + code_part(*old(self), *msg));
                }
            },
        }
        echo
    }

    /// Dispatch one raw inbound line: trim it, hand it to every raw-line
    /// callback, then parse it; a line with the generic shape is dispatched
    /// as a message, one without it is only echoed as a diagnostic.
    pub fn handle_received(&mut self, line: &str, writer: &mut IrcWriter) -> (echo: Option<
        String,
    >)
        ensures
            final(self).info == old(self).info,
            final(self).in_blacklist == old(self).in_blacklist,
            final(self).out_blacklist == old(self).out_blacklist,
            final(self).raw_cb == old(self).raw_cb,
            final(self).code_cb == old(self).code_cb,
            final(self).privmsg_cb == old(self).privmsg_cb,
            final(self).cmd_cb == old(self).cmd_cb,
            final(self).plugins@ == old(self).plugins@,
            old(writer)@.is_prefix_of(final(writer)@),
            received_appended(*old(self), line@, final(writer)@.skip(old(writer)@.len() as int)),
            received_echo_ok(*old(self), line@, echo),
    {
        let s = trim_of(line);
        run_line_cbs(&self.raw_cb, s, writer, &self.info);
        let ghost after_raw = writer@;
        match IrcMsg::new(s) {
            Some(m) => {
                let echo = self.handle_msg(&m, writer);
                proof {
                    let data = *old(self);
                    let mapp = writer@.skip(after_raw.len() as int);
                    assert(writer@ =~= after_raw + mapp);
                    assert(after_raw == old(writer)@ + line_cbs_events(
                        data.raw_cb@,
                        trim_spec(line@),
                        data.info.channels.deep_view(),
                    ));
                    assert(writer@.skip(old(writer)@.len() as int) =~= line_cbs_events(
                        data.raw_cb@,
                        trim_spec(line@),
                        data.info.channels.deep_view(),
                    ) + mapp);
                    assert(msg_appended(data, m, mapp));
                    assert(received_appended(
                        data,
                        line@,
                        writer@.skip(old(writer)@.len() as int),
                    ));
                }
                echo
            },
            None => {
                let echo = Some(concat2("<! ", s));
                proof {
                    assert(writer@.skip(old(writer)@.len() as int) =~= line_cbs_events(
                        old(self).raw_cb@,
                        trim_spec(line@),
                        old(self).info.channels.deep_view(),
                    ));
                }
                echo
            },
        }
    }
}

} // verus!
