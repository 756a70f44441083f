//! The wire parser: one raw protocol line decomposed into an optional origin
//! prefix, a mandatory code token, and free-form trailing parameters.

use vstd::prelude::*;
use vstd::string::*;

use crate::util::{
    find_char, find_non_space, find_space, lemma_find_char, lemma_find_non_space, lemma_find_space,
};

verus! {

/// Length of `s` once trailing carriage returns are dropped.
pub open spec fn cr_end(s: Seq<char>) -> int
    decreases s.len(),
{
    if s.len() > 0 && s.last() == '\r' {
        cr_end(s.drop_last())
    } else {
        s.len() as int
    }
}

/// `s` with trailing carriage returns dropped.
pub open spec fn strip_cr(s: Seq<char>) -> Seq<char> {
    s.take(cr_end(s))
}

/// `cr_end` bounds the trailing run of carriage returns.
pub proof fn lemma_cr_end(s: Seq<char>)
    ensures
        0 <= cr_end(s) <= s.len(),
        forall|j: int| cr_end(s) <= j < s.len() ==> s[j] == '\r',
        cr_end(s) > 0 ==> s[cr_end(s) - 1] != '\r',
    decreases s.len(),
{
    if s.len() > 0 && s.last() == '\r' {
        lemma_cr_end(s.drop_last());
        let e = cr_end(s);
        assert forall|j: int| e <= j < s.len() implies s[j] == '\r' by {
            if j < s.len() - 1 {
                assert(s.drop_last()[j] == s[j]);
            }
        }
        if e > 0 {
            assert(s.drop_last()[e - 1] == s[e - 1]);
        }
    }
}

/// The generic shape of a protocol line, after trailing carriage returns are
/// stripped: an optional `:`-prefixed origin token, then a mandatory code
/// token, then at least one whitespace character, then the parameters, which
/// keep their internal whitespace verbatim.  Lines without a code token or
/// without a whitespace boundary after it have no generic shape.
pub open spec fn parse_generic_spec(line: Seq<char>) -> Option<(Seq<char>, Seq<char>, Seq<char>)> {
    let t = strip_cr(line);
    let pre_end = if t.len() > 0 && t[0] == ':' {
        find_space(t)
    } else {
        0
    };
    let pre = t.take(pre_end);
    let rest = t.skip(pre_end);
    let r2 = rest.skip(find_non_space(rest));
    let ce = find_space(r2);
    if ce == 0 {
        None
    } else if ce == r2.len() {
        None
    } else {
        let code = r2.take(ce);
        let after = r2.skip(ce);
        let params = after.skip(find_non_space(after));
        Some((pre, code, params))
    }
}

/// The origin token split into a nick and optional host info: the shape
/// `:nick[!host_info]`, where the nick is non-empty and stops at the first
/// `!`, and the host info is empty when absent.
pub open spec fn parse_sender_spec(p: Seq<char>) -> Option<(Seq<char>, Seq<char>)> {
    if p.len() >= 2 && p[0] == ':' && p[1] != '!' {
        let body = p.skip(1);
        let e = find_char(body, '!');
        let nick = body.take(e);
        let host = if e == body.len() {
            Seq::<char>::empty()
        } else {
            body.skip(e + 1)
        };
        Some((nick, host))
    } else {
        None
    }
}

/// Parameters split into a leading `#`-prefixed channel token and a
/// `:`-delimited free-text payload: the shape `#chan<ws>:text`.
pub open spec fn parse_channel_spec(params: Seq<char>) -> Option<(Seq<char>, Seq<char>)> {
    if params.len() >= 2 && params[0] == '#' {
        let ce = find_space(params);
        if ce < 2 || ce == params.len() {
            None
        } else {
            let rest = params.skip(ce);
            let rest2 = rest.skip(find_non_space(rest));
            if rest2.len() > 0 && rest2[0] == ':' {
                Some((params.take(ce), rest2.skip(1)))
            } else {
                None
            }
        }
    } else {
        None
    }
}

/// A generic protocol message: the original line together with its origin
/// prefix (possibly empty), code and parameters.
pub struct IrcMsg {
    pub orig: String,
    pub prefix: String,
    pub code: String,
    pub param: String,
}

impl IrcMsg {
    /// Parse one raw protocol line; lines without the generic shape give
    /// `None`.
    pub fn new(s: &str) -> (r: Option<IrcMsg>)
        ensures
            r is Some <==> parse_generic_spec(s@) is Some,
            r matches Some(m) ==> parse_generic_spec(s@) matches Some(g) && m.orig@ == s@
                && m.prefix@ == g.0 && m.code@ == g.1 && m.param@ == g.2,
    {
        let n = s.unicode_len();
        // drop trailing carriage returns
        let mut e = n;
        loop
            invariant
                0 <= e <= n,
                n == s@.len(),
                forall|j: int| e <= j < n ==> s@[j] == '\r',
            ensures
                0 <= e <= n,
                forall|j: int| e <= j < n ==> s@[j] == '\r',
                e == 0 || s@[e - 1] != '\r',
            decreases e,
        {
            if e == 0 {
                break ;
            }
            if s.get_char(e - 1) != '\r' {
                break ;
            }
            e = e - 1;
        }
        proof {
            lemma_cr_end(s@);
            let ce = cr_end(s@);
            if ce < e {
                assert(s@[e - 1] == '\r');
            }
            if e < ce {
                assert(s@[ce - 1] == '\r');
            }
        }
        let sub = s.substring_char(0, e);
        proof {
            assert(sub@ =~= strip_cr(s@));
        }
        let t = sub;
        let ghost tv = sub@;
        let pre_end: usize = if t.unicode_len() > 0 && t.get_char(0) == ':' {
            let p = crate::util::scan_space(t, 0);
            proof {
                assert(tv.skip(0) =~= tv);
            }
            p
        } else {
            0
        };
        let a = crate::util::scan_non_space(t, pre_end);
        let ce_abs = crate::util::scan_space(t, a);
        proof {
            let rest = tv.skip(pre_end as int);
            lemma_find_non_space(rest);
            assert(rest.skip(find_non_space(rest)) =~= tv.skip(a as int));
            let r2 = tv.skip(a as int);
            lemma_find_space(r2);
            assert(find_space(r2) == ce_abs - a);
        }
        if ce_abs == a {
            return None;
        }
        if ce_abs == e {
            proof {
                assert(tv.skip(a as int).len() == e - a);
            }
            return None;
        }
        let p = crate::util::scan_non_space(t, ce_abs);
        proof {
            let r2 = tv.skip(a as int);
            let after = r2.skip(ce_abs - a);
            assert(after =~= tv.skip(ce_abs as int));
            lemma_find_non_space(after);
            assert(after.skip(find_non_space(after)) =~= tv.skip(p as int));
        }
        let prefix = t.substring_char(0, pre_end);
        let code = t.substring_char(a, ce_abs);
        let param = t.substring_char(p, e);
        proof {
            let g = parse_generic_spec(s@).unwrap();
            assert(prefix@ =~= g.0);
            assert(code@ =~= tv.skip(a as int).take(ce_abs - a));
            assert(param@ =~= g.2);
        }
        Some(
            IrcMsg {
                orig: String::from_str(s),
                prefix: String::from_str(prefix),
                code: String::from_str(code),
                param: String::from_str(param),
            },
        )
    }

    /// Split the origin prefix into the sender's nick and host info.
    pub fn match_sender(&self) -> (r: Option<(String, String)>)
        ensures
            r is Some <==> parse_sender_spec(self.prefix@) is Some,
            r matches Some(p) ==> parse_sender_spec(self.prefix@) matches Some(q) && p.0@ == q.0
                && p.1@ == q.1,
    {
        let pr = self.prefix.as_str();
        let n = pr.unicode_len();
        if n < 2 {
            return None;
        }
        if pr.get_char(0) != ':' || pr.get_char(1) == '!' {
            return None;
        }
        let e_abs = crate::util::scan_char(pr, 1, '!');
        proof {
            let body = pr@.skip(1);
            lemma_find_char(body, '!');
            assert(find_char(body, '!') == e_abs - 1);
        }
        let nick = pr.substring_char(1, e_abs);
        let host = if e_abs == n {
            pr.substring_char(0, 0)
        } else {
            pr.substring_char(e_abs + 1, n)
        };
        proof {
            let q = parse_sender_spec(self.prefix@).unwrap();
            assert(nick@ =~= q.0);
            assert(host@ =~= q.1);
        }
        Some((String::from_str(nick), String::from_str(host)))
    }

    /// Split the parameters into a channel and the message text.
    pub fn match_message(&self) -> (r: Option<(String, String)>)
        ensures
            r is Some <==> parse_channel_spec(self.param@) is Some,
            r matches Some(p) ==> parse_channel_spec(self.param@) matches Some(q) && p.0@ == q.0
                && p.1@ == q.1,
    {
        let pm = self.param.as_str();
        let n = pm.unicode_len();
        if n < 2 {
            return None;
        }
        if pm.get_char(0) != '#' {
            return None;
        }
        let ce = crate::util::scan_space(pm, 0);
        proof {
            assert(pm@.skip(0) =~= pm@);
        }
        if ce < 2 || ce == n {
            return None;
        }
        let k = crate::util::scan_non_space(pm, ce);
        proof {
            let rest = pm@.skip(ce as int);
            lemma_find_non_space(rest);
            assert(rest.skip(find_non_space(rest)) =~= pm@.skip(k as int));
        }
        if k == n {
            proof {
                assert(pm@.skip(k as int).len() == 0);
            }
            return None;
        }
        if pm.get_char(k) != ':' {
            proof {
                assert(pm@.skip(k as int)[0] == pm@[k as int]);
            }
            return None;
        }
        proof {
            assert(pm@.skip(k as int)[0] == pm@[k as int]);
        }
        let chan = pm.substring_char(0, ce);
        let text = pm.substring_char(k + 1, n);
        proof {
            let q = parse_channel_spec(self.param@).unwrap();
            assert(chan@ =~= q.0);
            assert(text@ =~= q.1);
        }
        Some((String::from_str(chan), String::from_str(text)))
    }
}

} // verus!
