//! The outbound formatter: high-level intents (join, identify, say, quit)
//! become protocol lines, queued as events for the event loop to flush.

use vstd::prelude::*;
use vstd::string::*;

use crate::irc::connection::{ConnectionEvent, EventView};
use crate::util::{concat2, concat4, newline_split, newline_split_spec};

verus! {

/// One outbound event per line.
pub open spec fn out_lines(lines: Seq<Seq<char>>) -> Seq<EventView> {
    lines.map_values(|l: Seq<char>| EventView::Output(l))
}

/// The events `output` queues for `s`: one outbound event per non-empty
/// trimmed line of `s`.
pub open spec fn output_events(s: Seq<char>) -> Seq<EventView> {
    out_lines(newline_split_spec(s))
}

/// A chat line addressed to `target`.
pub open spec fn privmsg_line(target: Seq<char>, line: Seq<char>) -> Seq<char> {
    "PRIVMSG "@ + target + " :"@ + line
}

/// The events queued for a chat text already split into lines: each line
/// becomes one `PRIVMSG` to `target`.
pub open spec fn msg_events_rec(target: Seq<char>, lines: Seq<Seq<char>>) -> Seq<EventView>
    decreases lines.len(),
{
    if lines.len() == 0 {
        Seq::empty()
    } else {
        output_events(privmsg_line(target, lines[0])) + msg_events_rec(target, lines.drop_first())
    }
}

/// The events `msg` queues: `text` split on newlines, empty lines dropped,
/// one `PRIVMSG target :line` per remaining line.
pub open spec fn msg_events(target: Seq<char>, text: Seq<char>) -> Seq<EventView> {
    msg_events_rec(target, newline_split_spec(text))
}

/// The join line for a channel.
pub open spec fn join_line(chan: Seq<char>) -> Seq<char> {
    "JOIN "@ + chan
}

/// The nick line.
pub open spec fn nick_line(nick: Seq<char>) -> Seq<char> {
    "NICK "@ + nick
}

/// The user registration line: fixed mode bits, the description passed
/// through as the real-name field.
pub open spec fn user_line(nick: Seq<char>, descr: Seq<char>) -> Seq<char> {
    "USER "@ + nick + " 8 * :"@ + descr
}

/// The quit line.
pub open spec fn quit_line(reason: Seq<char>) -> Seq<char> {
    "QUIT :"@ + reason
}

/// `msg_events_rec` distributes over a line appended at the right.
pub proof fn lemma_msg_events_push(target: Seq<char>, lines: Seq<Seq<char>>, x: Seq<char>)
    ensures
        msg_events_rec(target, lines.push(x)) == msg_events_rec(target, lines) + output_events(
            privmsg_line(target, x),
        ),
    decreases lines.len(),
{
    if lines.len() == 0 {
        let p = lines.push(x);
        assert(p[0] == x);
        assert(p.drop_first() =~= Seq::<Seq<char>>::empty());
        assert(msg_events_rec(target, p.drop_first()) =~= Seq::<EventView>::empty());
        assert(msg_events_rec(target, p) == output_events(privmsg_line(target, p[0]))
            + msg_events_rec(target, p.drop_first()));
        assert(msg_events_rec(target, p) =~= output_events(privmsg_line(target, x)));
        assert(msg_events_rec(target, lines) + output_events(privmsg_line(target, x))
            =~= output_events(privmsg_line(target, x)));
    } else {
        lemma_msg_events_push(target, lines.drop_first(), x);
        assert(lines.push(x).drop_first() =~= lines.drop_first().push(x));
        assert(lines.push(x)[0] == lines[0]);
        assert(msg_events_rec(target, lines.push(x)) =~= (msg_events_rec(target, lines)
            + output_events(privmsg_line(target, x))));
    }
}

/// What `msg` queues, line by line: for a target free of newlines, every
/// non-empty trimmed line of the text becomes exactly one outbound
/// `PRIVMSG target :line` event, in order, and empty segments are dropped
/// — no more and no fewer events than lines.
pub proof fn lemma_msg_one_event_per_line(target: Seq<char>, text: Seq<char>)
    requires
        forall|j: int| 0 <= j < target.len() ==> target[j] != '\n',
    ensures
        msg_events(target, text).len() == newline_split_spec(text).len(),
        forall|i: int|
            0 <= i < newline_split_spec(text).len() ==> msg_events(target, text)[i]
                == EventView::Output(privmsg_line(target, newline_split_spec(text)[i])),
{
    let lines = newline_split_spec(text);
    assert forall|i: int| 0 <= i < lines.len() implies line_is_clean(lines[i]) by {
        crate::util::lemma_newline_split_lines(text, i);
    }
    lemma_msg_events_rec_lines(target, lines);
}

/// A line the inner split passes through whole: non-empty, free of
/// newlines, no surrounding whitespace.
pub open spec fn line_is_clean(l: Seq<char>) -> bool {
    l.len() > 0 && !crate::util::is_space(l[0]) && !crate::util::is_space(l.last()) && (forall|
        j: int,
    |
        0 <= j < l.len() ==> l[j] != '\n')
}

/// Over clean lines, the chat formatter queues exactly one event per line.
proof fn lemma_msg_events_rec_lines(target: Seq<char>, lines: Seq<Seq<char>>)
    requires
        forall|j: int| 0 <= j < target.len() ==> target[j] != '\n',
        forall|i: int| 0 <= i < lines.len() ==> line_is_clean(lines[i]),
    ensures
        msg_events_rec(target, lines).len() == lines.len(),
        forall|i: int|
            0 <= i < lines.len() ==> msg_events_rec(target, lines)[i] == EventView::Output(
                privmsg_line(target, lines[i]),
            ),
    decreases lines.len(),
{
    if lines.len() > 0 {
        let l = lines[0];
        let pl = privmsg_line(target, l);
        reveal_strlit("PRIVMSG ");
        reveal_strlit(" :");
        assert("PRIVMSG "@.len() == 8);
        assert(" :"@.len() == 2);
        assert(pl[0] == 'P');
        assert(pl.last() == l.last());
        assert forall|j: int| 0 <= j < pl.len() implies pl[j] != '\n' by {
            if j < 8 {
                assert(pl[j] == "PRIVMSG "@[j]);
            } else if j < 8 + target.len() {
                assert(pl[j] == target[j - 8]);
            } else if j < 8 + target.len() + 2 {
                assert(pl[j] == " :"@[j - 8 - target.len()]);
            } else {
                assert(pl[j] == l[j - 8 - target.len() - 2]);
            }
        }
        crate::util::lemma_newline_split_single(pl);
        assert(output_events(pl) =~= seq![EventView::Output(pl)]);
        assert forall|i: int| 0 <= i < lines.drop_first().len() implies line_is_clean(
            lines.drop_first()[i],
        ) by {
            assert(lines.drop_first()[i] == lines[i + 1]);
        }
        lemma_msg_events_rec_lines(target, lines.drop_first());
        assert forall|i: int|
            0 <= i < lines.len() implies msg_events_rec(target, lines)[i] == EventView::Output(
            privmsg_line(target, lines[i]),
        ) by {
            if i > 0 {
                assert(msg_events_rec(target, lines)[i] == msg_events_rec(
                    target,
                    lines.drop_first(),
                )[i - 1]);
                assert(lines.drop_first()[i - 1] == lines[i]);
            }
        }
    }
}

/// A handle through which callbacks and plugins queue outbound work: every
/// formatted line is held in order until the event loop flushes it to the
/// transport.
pub struct IrcWriter {
    pub queue: Vec<ConnectionEvent>,
}

impl View for IrcWriter {
    type V = Seq<EventView>;

    open spec fn view(&self) -> Seq<EventView> {
        self.queue.deep_view()
    }
}

impl IrcWriter {
    /// A writer with an empty queue.
    pub fn new() -> (w: IrcWriter)
        ensures
            w@ == Seq::<EventView>::empty(),
    {
        let w = IrcWriter { queue: Vec::new() };
        proof {
            assert(w@ =~= Seq::<EventView>::empty());
        }
        w
    }

    /// Queue general output: one outbound event per non-empty trimmed line.
    pub fn output(&mut self, s: &str)
        ensures
            final(self)@ == old(self)@ + output_events(s@),
    {
        let lines = newline_split(s);
        let ghost lv = lines.deep_view();
        let mut k: usize = 0;
        proof {
            assert(old(self)@ + out_lines(lv.take(0)) =~= old(self)@);
        }
        while k < lines.len()
            invariant
                0 <= k <= lines.len(),
                lv == lines.deep_view(),
                lv == newline_split_spec(s@),
                self@ == old(self)@ + out_lines(lv.take(k as int)),
            decreases lines.len() - k,
        {
            let ghost prev = self@;
            self.queue.push(ConnectionEvent::Output(String::from_str(lines[k])));
            proof {
                assert(self@ =~= prev.push(EventView::Output(lv[k as int])));
                assert(out_lines(lv.take(k + 1)) =~= out_lines(lv.take(k as int)).push(
                    EventView::Output(lv[k as int]),
                ));
                assert(self@ =~= old(self)@ + out_lines(lv.take(k + 1)));
            }
            k = k + 1;
        }
        proof {
            assert(lv.take(lines.len() as int) =~= lv);
        }
    }

    /// Join a channel.
    pub fn join(&mut self, chan: &str)
        ensures
            final(self)@ == old(self)@ + output_events(join_line(chan@)),
    {
        let line = concat2("JOIN ", chan);
        self.output(line.as_str());
    }

    /// Change or announce the nick.
    pub fn nick(&mut self, s: &str)
        ensures
            final(self)@ == old(self)@ + output_events(nick_line(s@)),
    {
        let line = concat2("NICK ", s);
        self.output(line.as_str());
    }

    /// Identify to the server: a nick line followed by a user line.
    pub fn identify(&mut self, nick: &str, descr: &str)
        ensures
            final(self)@ == old(self)@ + output_events(nick_line(nick@)) + output_events(
                user_line(nick@, descr@),
            ),
    {
        let n = concat2("NICK ", nick);
        self.output(n.as_str());
        let u = concat4("USER ", nick, " 8 * :", descr);
        proof {
            assert(u@ =~= user_line(nick@, descr@));
        }
        self.output(u.as_str());
    }

    /// Send a chat text to `target`: one `PRIVMSG` per non-empty trimmed
    /// line, empty segments dropped.
    pub fn msg(&mut self, target: &str, text: &str)
        ensures
            final(self)@ == old(self)@ + msg_events(target@, text@),
    {
        let lines = newline_split(text);
        let ghost lv = lines.deep_view();
        let mut k: usize = 0;
        proof {
            assert(lv.take(0) =~= Seq::<Seq<char>>::empty());
            assert(old(self)@ + msg_events_rec(target@, lv.take(0)) =~= old(self)@);
        }
        while k < lines.len()
            invariant
                0 <= k <= lines.len(),
                lv == lines.deep_view(),
                lv == newline_split_spec(text@),
                self@ == old(self)@ + msg_events_rec(target@, lv.take(k as int)),
            decreases lines.len() - k,
        {
            let line = concat4("PRIVMSG ", target, " :", lines[k]);
            proof {
                assert(line@ =~= privmsg_line(target@, lv[k as int]));
            }
            self.output(line.as_str());
            proof {
                lemma_msg_events_push(target@, lv.take(k as int), lv[k as int]);
                assert(lv.take(k + 1) =~= lv.take(k as int).push(lv[k as int]));
                assert(self@ =~= old(self)@ + msg_events_rec(target@, lv.take(k + 1)));
            }
            k = k + 1;
        }
        proof {
            assert(lv.take(lines.len() as int) =~= lv);
        }
    }

    /// Quit: one quit line, then the terminate signal; the reason is not
    /// split.
    pub fn quit(&mut self, reason: &str)
        ensures
            final(self)@ == old(self)@ + seq![
                EventView::Output(quit_line(reason@)),
                EventView::Quit,
            ],
    {
        let ghost prev0 = self@;
        let line = concat2("QUIT :", reason);
        self.queue.push(ConnectionEvent::Output(line));
        proof {
            assert(self@ =~= prev0.push(EventView::Output(quit_line(reason@))));
        }
        let ghost prev1 = self@;
        self.queue.push(ConnectionEvent::Quit);
        proof {
            assert(self@ =~= prev1.push(EventView::Quit));
            assert(self@ =~= prev0 + seq![EventView::Output(quit_line(reason@)), EventView::Quit]);
        }
    }
}

} // verus!
