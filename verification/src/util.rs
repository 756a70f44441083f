//! String utilities shared by the wire parser, the outbound formatter and
//! the plugins: splitting, trimming, joining and decimal formatting, each
//! specified over `Seq<char>` views.

use vstd::prelude::*;
use vstd::string::*;

verus! {

/// The whitespace characters recognised by the protocol parser: the ASCII
/// blank characters (space, tab, carriage return, line feed, vertical tab,
/// form feed).
pub open spec fn is_space(c: char) -> bool {
    c == ' ' || c == '\t' || c == '\r' || c == '\n' || c == '\u{b}' || c == '\u{c}'
}

/// Index of the first occurrence of `sep` in `s`, or `s.len()` if absent.
pub open spec fn find_char(s: Seq<char>, sep: char) -> int
    decreases s.len(),
{
    if s.len() == 0 {
        0
    } else if s[0] == sep {
        0
    } else {
        1 + find_char(s.drop_first(), sep)
    }
}

/// Index of the first whitespace character of `s`, or `s.len()` if none.
pub open spec fn find_space(s: Seq<char>) -> int
    decreases s.len(),
{
    if s.len() == 0 {
        0
    } else if is_space(s[0]) {
        0
    } else {
        1 + find_space(s.drop_first())
    }
}

/// Index of the first non-whitespace character of `s`, or `s.len()` if none.
pub open spec fn find_non_space(s: Seq<char>) -> int
    decreases s.len(),
{
    if s.len() == 0 {
        0
    } else if !is_space(s[0]) {
        0
    } else {
        1 + find_non_space(s.drop_first())
    }
}

/// One past the last non-whitespace character of `s`, or `0` if none.
pub open spec fn end_non_space(s: Seq<char>) -> int
    decreases s.len(),
{
    if s.len() == 0 {
        0
    } else if !is_space(s.last()) {
        s.len() as int
    } else {
        end_non_space(s.drop_last())
    }
}

/// `find_char` is the least index holding `sep`; beyond the end when absent.
pub proof fn lemma_find_char(s: Seq<char>, sep: char)
    ensures
        0 <= find_char(s, sep) <= s.len(),
        forall|j: int| 0 <= j < find_char(s, sep) ==> s[j] != sep,
        find_char(s, sep) < s.len() ==> s[find_char(s, sep)] == sep,
    decreases s.len(),
{
    if s.len() > 0 && s[0] != sep {
        lemma_find_char(s.drop_first(), sep);
        let f = find_char(s, sep);
        assert forall|j: int| 0 <= j < f implies s[j] != sep by {
            if j > 0 {
                assert(s.drop_first()[j - 1] == s[j]);
            }
        }
        if f < s.len() {
            assert(s.drop_first()[f - 1] == s[f]);
        }
    }
}

/// `find_space` is the least index holding whitespace; beyond the end when absent.
pub proof fn lemma_find_space(s: Seq<char>)
    ensures
        0 <= find_space(s) <= s.len(),
        forall|j: int| 0 <= j < find_space(s) ==> !is_space(s[j]),
        find_space(s) < s.len() ==> is_space(s[find_space(s)]),
    decreases s.len(),
{
    if s.len() > 0 && !is_space(s[0]) {
        lemma_find_space(s.drop_first());
        let f = find_space(s);
        assert forall|j: int| 0 <= j < f implies !is_space(s[j]) by {
            if j > 0 {
                assert(s.drop_first()[j - 1] == s[j]);
            }
        }
        if f < s.len() {
            assert(s.drop_first()[f - 1] == s[f]);
        }
    }
}

/// `find_non_space` is the least index holding non-whitespace.
pub proof fn lemma_find_non_space(s: Seq<char>)
    ensures
        0 <= find_non_space(s) <= s.len(),
        forall|j: int| 0 <= j < find_non_space(s) ==> is_space(s[j]),
        find_non_space(s) < s.len() ==> !is_space(s[find_non_space(s)]),
    decreases s.len(),
{
    if s.len() > 0 && is_space(s[0]) {
        lemma_find_non_space(s.drop_first());
        let f = find_non_space(s);
        assert forall|j: int| 0 <= j < f implies is_space(s[j]) by {
            if j > 0 {
                assert(s.drop_first()[j - 1] == s[j]);
            }
        }
        if f < s.len() {
            assert(s.drop_first()[f - 1] == s[f]);
        }
    }
}

/// `end_non_space` bounds the trailing whitespace run of `s`.
pub proof fn lemma_end_non_space(s: Seq<char>)
    ensures
        0 <= end_non_space(s) <= s.len(),
        forall|j: int| end_non_space(s) <= j < s.len() ==> is_space(s[j]),
        end_non_space(s) > 0 ==> !is_space(s[end_non_space(s) - 1]),
    decreases s.len(),
{
    if s.len() > 0 && is_space(s.last()) {
        lemma_end_non_space(s.drop_last());
        let e = end_non_space(s);
        assert forall|j: int| e <= j < s.len() implies is_space(s[j]) by {
            if j < s.len() - 1 {
                assert(s.drop_last()[j] == s[j]);
            }
        }
        if e > 0 {
            assert(s.drop_last()[e - 1] == s[e - 1]);
        }
    }
}

/// `s` split at every occurrence of `sep`; empty segments are kept, so the
/// result always holds at least one segment.
pub open spec fn split_char(s: Seq<char>, sep: char) -> Seq<Seq<char>>
    decreases s.len(),
    via split_char_decreases
{
    let f = find_char(s, sep);
    if f == s.len() {
        seq![s]
    } else {
        seq![s.take(f)] + split_char(s.skip(f + 1), sep)
    }
}

#[via_fn]
proof fn split_char_decreases(s: Seq<char>, sep: char) {
    lemma_find_char(s, sep);
}

/// `s` with leading and trailing whitespace removed.
pub open spec fn trim_spec(s: Seq<char>) -> Seq<char> {
    if end_non_space(s) <= find_non_space(s) {
        Seq::empty()
    } else {
        s.subrange(find_non_space(s), end_non_space(s))
    }
}

/// A non-empty segment.
pub open spec fn non_empty(t: Seq<char>) -> bool {
    t.len() > 0
}

/// `s` split on single spaces with empty segments discarded.
pub open spec fn space_split_spec(s: Seq<char>) -> Seq<Seq<char>> {
    split_char(s, ' ').filter(|t: Seq<char>| non_empty(t))
}

/// `s` split on newlines, each segment trimmed, empty segments discarded.
pub open spec fn newline_split_spec(s: Seq<char>) -> Seq<Seq<char>> {
    split_char(s, '\n').map_values(|t: Seq<char>| trim_spec(t)).filter(
        |t: Seq<char>| non_empty(t),
    )
}

/// The classic left fold of a join: a separator is placed before a segment
/// exactly when the text accumulated so far is non-empty.
pub open spec fn joined(xs: Seq<Seq<char>>, between: Seq<char>) -> Seq<char>
    decreases xs.len(),
{
    if xs.len() == 0 {
        Seq::empty()
    } else {
        let prev = joined(xs.drop_last(), between);
        if prev.len() == 0 {
            prev + xs.last()
        } else {
            prev + between + xs.last()
        }
    }
}

/// A trimmed, non-empty sequence starts and ends with non-whitespace.
pub proof fn lemma_trim_ends(s: Seq<char>)
    ensures
        trim_spec(s).len() > 0 ==> !is_space(trim_spec(s)[0]),
        trim_spec(s).len() > 0 ==> !is_space(trim_spec(s).last()),
{
    lemma_find_non_space(s);
    lemma_end_non_space(s);
}

/// A sequence that starts and ends with non-whitespace trims to itself.
pub proof fn lemma_trim_id(s: Seq<char>)
    requires
        s.len() > 0,
        !is_space(s[0]),
        !is_space(s.last()),
    ensures
        trim_spec(s) == s,
{
    lemma_find_non_space(s);
    lemma_end_non_space(s);
    assert(find_non_space(s) == 0);
    assert(end_non_space(s) == s.len());
    assert(s.subrange(0, s.len() as int) =~= s);
}

/// Splitting a sequence free of the separator gives that sequence alone.
pub proof fn lemma_split_char_single(s: Seq<char>, sep: char)
    requires
        forall|j: int| 0 <= j < s.len() ==> s[j] != sep,
    ensures
        split_char(s, sep) == seq![s],
{
    lemma_find_char(s, sep);
    if find_char(s, sep) < s.len() {
        assert(s[find_char(s, sep)] == sep);
    }
}

/// A non-empty line free of newlines and of surrounding whitespace splits
/// to exactly itself.
pub proof fn lemma_newline_split_single(s: Seq<char>)
    requires
        s.len() > 0,
        !is_space(s[0]),
        !is_space(s.last()),
        forall|j: int| 0 <= j < s.len() ==> s[j] != '\n',
    ensures
        newline_split_spec(s) == seq![s],
{
    lemma_split_char_single(s, '\n');
    lemma_trim_id(s);
    let mp = split_char(s, '\n').map_values(|t: Seq<char>| trim_spec(t));
    assert(mp =~= seq![s]);
    reveal(Seq::filter);
    assert(mp.drop_last() =~= Seq::<Seq<char>>::empty());
    assert(Seq::<Seq<char>>::empty().filter(|t: Seq<char>| non_empty(t)) =~= Seq::<
        Seq<char>,
    >::empty());
    assert(mp.filter(|t: Seq<char>| non_empty(t)) =~= seq![s]);
}

/// Every element of a filtered sequence is an element of the original.
pub proof fn lemma_filter_origin<A>(s: Seq<A>, pred: spec_fn(A) -> bool, i: int)
    requires
        0 <= i < s.filter(pred).len(),
    ensures
        exists|j: int| 0 <= j < s.len() && s[j] == s.filter(pred)[i],
    decreases s.len(),
{
    reveal(Seq::filter);
    if s.len() > 0 {
        let sub = s.drop_last();
        if i < sub.filter(pred).len() {
            lemma_filter_origin(sub, pred, i);
            let j = choose|j: int| 0 <= j < sub.len() && sub[j] == sub.filter(pred)[i];
            assert(s[j] == s.filter(pred)[i]);
        } else {
            assert(s.filter(pred)[i] == s.last());
            assert(s[s.len() - 1] == s.filter(pred)[i]);
        }
    }
}

/// Every line of a newline split is non-empty, free of newlines, and free
/// of surrounding whitespace.
pub proof fn lemma_newline_split_lines(s: Seq<char>, i: int)
    requires
        0 <= i < newline_split_spec(s).len(),
    ensures
        newline_split_spec(s)[i].len() > 0,
        !is_space(newline_split_spec(s)[i][0]),
        !is_space(newline_split_spec(s)[i].last()),
        forall|j: int|
            0 <= j < newline_split_spec(s)[i].len() ==> newline_split_spec(s)[i][j] != '\n',
{
    let sp = split_char(s, '\n');
    let mp = sp.map_values(|t: Seq<char>| trim_spec(t));
    let pred = |t: Seq<char>| non_empty(t);
    let line = newline_split_spec(s)[i];
    mp.lemma_filter_pred(pred, i);
    lemma_filter_origin(mp, pred, i);
    let j = choose|j: int| 0 <= j < mp.len() && mp[j] == line;
    let seg = sp[j];
    assert(line == trim_spec(seg));
    lemma_trim_ends(seg);
    lemma_split_char_parts(s, '\n');
    lemma_find_non_space(seg);
    lemma_end_non_space(seg);
    assert forall|q: int| 0 <= q < line.len() implies line[q] != '\n' by {
        assert(line[q] == seg[find_non_space(seg) + q]);
    }
}

/// No segment of a split contains the separator.
pub proof fn lemma_split_char_parts(s: Seq<char>, sep: char)
    ensures
        forall|i: int, j: int|
            0 <= i < split_char(s, sep).len() && 0 <= j < split_char(s, sep)[i].len()
                ==> split_char(s, sep)[i][j] != sep,
    decreases s.len(),
{
    lemma_find_char(s, sep);
    let f = find_char(s, sep);
    let sp = split_char(s, sep);
    if f == s.len() {
        assert forall|i: int, j: int|
            0 <= i < sp.len() && 0 <= j < sp[i].len() implies sp[i][j] != sep by {
            assert(sp[i] == s);
        }
    } else {
        lemma_split_char_parts(s.skip(f + 1), sep);
        let rest = split_char(s.skip(f + 1), sep);
        assert forall|i: int, j: int|
            0 <= i < sp.len() && 0 <= j < sp[i].len() implies sp[i][j] != sep by {
            if i == 0 {
                assert(sp[0] == s.take(f));
                assert(s.take(f)[j] == s[j]);
            } else {
                assert(sp[i] == rest[i - 1]);
            }
        }
    }
}

/// The decimal digit character for `d`, which must be below ten.
pub open spec fn digit_char(d: int) -> char {
    if d == 0 {
        '0'
    } else if d == 1 {
        '1'
    } else if d == 2 {
        '2'
    } else if d == 3 {
        '3'
    } else if d == 4 {
        '4'
    } else if d == 5 {
        '5'
    } else if d == 6 {
        '6'
    } else if d == 7 {
        '7'
    } else if d == 8 {
        '8'
    } else {
        '9'
    }
}

/// The decimal digits of a non-negative number, most significant first.
pub open spec fn dec_digits(n: int) -> Seq<char>
    decreases n,
{
    if n < 10 {
        seq![digit_char(n)]
    } else {
        dec_digits(n / 10) + seq![digit_char(n % 10)]
    }
}

/// The decimal rendering of an integer, with a leading minus sign when negative.
pub open spec fn int_str(x: int) -> Seq<char> {
    if x < 0 {
        seq!['-'] + dec_digits(-x)
    } else {
        dec_digits(x)
    }
}

/// The decimal digit character for `d`.
fn digit_str(d: u64) -> (r: &'static str)
    requires
        d < 10,
    ensures
        r@ == seq![digit_char(d as int)],
{
    let r: &'static str = if d == 0 {
        "0"
    } else if d == 1 {
        "1"
    } else if d == 2 {
        "2"
    } else if d == 3 {
        "3"
    } else if d == 4 {
        "4"
    } else if d == 5 {
        "5"
    } else if d == 6 {
        "6"
    } else if d == 7 {
        "7"
    } else if d == 8 {
        "8"
    } else {
        "9"
    };
    proof {
        reveal_strlit("0");
        reveal_strlit("1");
        reveal_strlit("2");
        reveal_strlit("3");
        reveal_strlit("4");
        reveal_strlit("5");
        reveal_strlit("6");
        reveal_strlit("7");
        reveal_strlit("8");
        reveal_strlit("9");
        assert(r@ =~= seq![digit_char(d as int)]);
    }
    r
}

/// The decimal rendering of a `u64`.
pub fn u64_dec(n: u64) -> (r: String)
    ensures
        r@ == dec_digits(n as int),
    decreases n,
{
    if n < 10 {
        String::from_str(digit_str(n))
    } else {
        let mut r = u64_dec(n / 10);
        r.append(digit_str(n % 10));
        r
    }
}

/// The decimal rendering of an `i64`, with a minus sign when negative.
pub fn i64_dec(x: i64) -> (r: String)
    ensures
        r@ == int_str(x as int),
{
    if x >= 0 {
        u64_dec(x as u64)
    } else {
        let wide: i128 = x as i128;
        let mag: u64 = (-wide) as u64;
        let mut r = String::from_str("-");
        r.append(u64_dec(mag).as_str());
        proof {
            reveal_strlit("-");
            assert(r@ =~= int_str(x as int));
        }
        r
    }
}

/// First index at or after `from` holding `sep`, or the length of `s`.
pub fn scan_char(s: &str, from: usize, sep: char) -> (i: usize)
    requires
        from <= s@.len(),
    ensures
        i == from + find_char(s@.skip(from as int), sep),
        from <= i <= s@.len(),
{
    let n = s.unicode_len();
    let mut i = from;
    loop
        invariant
            from <= i <= n,
            n == s@.len(),
            forall|j: int| from <= j < i ==> s@[j] != sep,
        ensures
            from <= i <= n,
            forall|j: int| from <= j < i ==> s@[j] != sep,
            i == n || s@[i as int] == sep,
        decreases n - i,
    {
        if i == n {
            break ;
        }
        if s.get_char(i) == sep {
            break ;
        }
        i = i + 1;
    }
    proof {
        lemma_find_char(s@.skip(from as int), sep);
        let f = find_char(s@.skip(from as int), sep);
        // both i - from and f satisfy the "least index" characterization
        if f < i - from {
            assert(s@.skip(from as int)[f] == s@[from + f]);
        }
        if i - from < f {
            assert(s@.skip(from as int)[i - from] == s@[i as int]);
        }
    }
    i
}

/// First index at or after `from` holding whitespace, or the length of `s`.
pub fn scan_space(s: &str, from: usize) -> (i: usize)
    requires
        from <= s@.len(),
    ensures
        i == from + find_space(s@.skip(from as int)),
        from <= i <= s@.len(),
{
    let n = s.unicode_len();
    let mut i = from;
    loop
        invariant
            from <= i <= n,
            n == s@.len(),
            forall|j: int| from <= j < i ==> !is_space(s@[j]),
        ensures
            from <= i <= n,
            forall|j: int| from <= j < i ==> !is_space(s@[j]),
            i == n || is_space(s@[i as int]),
        decreases n - i,
    {
        if i == n {
            break ;
        }
        let c = s.get_char(i);
        if c == ' ' || c == '\t' || c == '\r' || c == '\n' || c == '\u{b}' || c == '\u{c}' {
            break ;
        }
        i = i + 1;
    }
    proof {
        lemma_find_space(s@.skip(from as int));
        let f = find_space(s@.skip(from as int));
        if f < i - from {
            assert(s@.skip(from as int)[f] == s@[from + f]);
        }
        if i - from < f {
            assert(s@.skip(from as int)[i - from] == s@[i as int]);
        }
    }
    i
}

/// First index at or after `from` holding non-whitespace, or the length of `s`.
pub fn scan_non_space(s: &str, from: usize) -> (i: usize)
    requires
        from <= s@.len(),
    ensures
        i == from + find_non_space(s@.skip(from as int)),
        from <= i <= s@.len(),
{
    let n = s.unicode_len();
    let mut i = from;
    loop
        invariant
            from <= i <= n,
            n == s@.len(),
            forall|j: int| from <= j < i ==> is_space(s@[j]),
        ensures
            from <= i <= n,
            forall|j: int| from <= j < i ==> is_space(s@[j]),
            i == n || !is_space(s@[i as int]),
        decreases n - i,
    {
        if i == n {
            break ;
        }
        let c = s.get_char(i);
        if !(c == ' ' || c == '\t' || c == '\r' || c == '\n' || c == '\u{b}' || c == '\u{c}') {
            break ;
        }
        i = i + 1;
    }
    proof {
        lemma_find_non_space(s@.skip(from as int));
        let f = find_non_space(s@.skip(from as int));
        if f < i - from {
            assert(s@.skip(from as int)[f] == s@[from + f]);
        }
        if i - from < f {
            assert(s@.skip(from as int)[i - from] == s@[i as int]);
        }
    }
    i
}

/// Whether two string slices hold the same characters.
pub fn str_eq(a: &str, b: &str) -> (r: bool)
    ensures
        r == (a@ == b@),
{
    let na = a.unicode_len();
    let nb = b.unicode_len();
    if na != nb {
        return false;
    }
    let mut i: usize = 0;
    while i < na
        invariant
            0 <= i <= na,
            na == a@.len(),
            na == b@.len(),
            forall|j: int| 0 <= j < i ==> a@[j] == b@[j],
        decreases na - i,
    {
        if a.get_char(i) != b.get_char(i) {
            return false;
        }
        i = i + 1;
    }
    proof {
        assert(a@ =~= b@);
    }
    true
}

/// Whether `p` is a prefix of `s`.
pub fn str_starts_with(s: &str, p: &str) -> (r: bool)
    ensures
        r == p@.is_prefix_of(s@),
{
    let ns = s.unicode_len();
    let np = p.unicode_len();
    if np > ns {
        assert(!p@.is_prefix_of(s@));
        return false;
    }
    let mut i: usize = 0;
    while i < np
        invariant
            0 <= i <= np,
            np <= ns,
            ns == s@.len(),
            np == p@.len(),
            forall|j: int| 0 <= j < i ==> s@[j] == p@[j],
        decreases np - i,
    {
        if s.get_char(i) != p.get_char(i) {
            assert(!p@.is_prefix_of(s@));
            return false;
        }
        i = i + 1;
    }
    proof {
        assert(p@ =~= s@.subrange(0, p@.len() as int));
    }
    true
}

/// The concatenation of two string slices.
pub fn concat2(a: &str, b: &str) -> (r: String)
    ensures
        r@ == a@ + b@,
{
    let mut r = String::from_str(a);
    r.append(b);
    r
}

/// The concatenation of three string slices.
pub fn concat3(a: &str, b: &str, c: &str) -> (r: String)
    ensures
        r@ == a@ + b@ + c@,
{
    let mut r = String::from_str(a);
    r.append(b);
    r.append(c);
    r
}

/// The concatenation of four string slices.
pub fn concat4(a: &str, b: &str, c: &str, d: &str) -> (r: String)
    ensures
        r@ == a@ + b@ + c@ + d@,
{
    let mut r = String::from_str(a);
    r.append(b);
    r.append(c);
    r.append(d);
    r
}

/// `s` with leading and trailing whitespace removed.
pub fn trim_of<'a>(s: &'a str) -> (r: &'a str)
    ensures
        r@ == trim_spec(s@),
{
    let n = s.unicode_len();
    let a = scan_non_space(s, 0);
    proof {
        lemma_find_non_space(s@);
        lemma_end_non_space(s@);
        assert(s@.skip(0) =~= s@);
    }
    if a == n {
        // all whitespace: end_non_space must be 0
        proof {
            let e = end_non_space(s@);
            if e > 0 {
                assert(is_space(s@[e - 1]));
            }
        }
        let r = s.substring_char(0, 0);
        proof {
            assert(r@ =~= trim_spec(s@));
        }
        return r;
    }
    // scan the trailing whitespace run from the right
    let mut e = n;
    loop
        invariant
            0 <= e <= n,
            n == s@.len(),
            forall|j: int| e <= j < n ==> is_space(s@[j]),
        ensures
            0 <= e <= n,
            forall|j: int| e <= j < n ==> is_space(s@[j]),
            e == 0 || !is_space(s@[e - 1]),
        decreases e,
    {
        if e == 0 {
            break ;
        }
        let c = s.get_char(e - 1);
        if !(c == ' ' || c == '\t' || c == '\r' || c == '\n' || c == '\u{b}' || c == '\u{c}') {
            break ;
        }
        e = e - 1;
    }
    proof {
        let ee = end_non_space(s@);
        if ee < e {
            assert(!is_space(s@[e - 1]));
            assert(is_space(s@[e - 1]));
        }
        if e < ee {
            assert(!is_space(s@[ee - 1]));
            assert(is_space(s@[ee - 1]));
        }
        assert(e == ee);
        // a < e since position a is non-whitespace
        assert(!is_space(s@[a as int]));
        if e <= a {
            assert(is_space(s@[a as int]));
        }
    }
    let r = s.substring_char(a, e);
    proof {
        assert(r@ =~= trim_spec(s@));
    }
    r
}

/// `s` split at every occurrence of `sep`, empty segments kept.
pub fn split_on_char<'a>(s: &'a str, sep: char) -> (r: Vec<&'a str>)
    ensures
        r.deep_view() == split_char(s@, sep),
{
    let n = s.unicode_len();
    let mut r: Vec<&str> = Vec::new();
    let mut start: usize = 0;
    proof {
        assert(s@.skip(0) =~= s@);
        assert(r.deep_view() =~= Seq::<Seq<char>>::empty());
        assert(r.deep_view() + split_char(s@, sep) =~= split_char(s@, sep));
    }
    loop
        invariant
            0 <= start <= n,
            n == s@.len(),
            split_char(s@, sep) == r.deep_view() + split_char(s@.skip(start as int), sep),
        decreases n - start + 1,
    {
        let i = scan_char(s, start, sep);
        let seg = s.substring_char(start, i);
        proof {
            let rest = s@.skip(start as int);
            lemma_find_char(rest, sep);
            let f = find_char(rest, sep);
            assert(f == i - start);
            assert(rest.take(f) =~= s@.subrange(start as int, i as int));
            if f < rest.len() {
                assert(rest.skip(f + 1) =~= s@.skip(i + 1));
            } else {
                assert(rest =~= s@.subrange(start as int, i as int));
            }
        }
        if i == n {
            let ghost prev = r.deep_view();
            r.push(seg);
            proof {
                assert(r.deep_view() =~= prev + seq![seg@]);
                assert(r.deep_view() =~= split_char(s@, sep));
            }
            return r;
        }
        let ghost prev = r.deep_view();
        r.push(seg);
        proof {
            assert(r.deep_view() =~= prev + seq![seg@]);
            assert(prev + split_char(s@.skip(start as int), sep) =~= (prev + seq![seg@])
                + split_char(s@.skip(i + 1), sep));
        }
        start = i + 1;
    }
}

/// Split a string on spaces, excluding empty segments.
pub fn space_split<'a>(s: &'a str) -> (r: Vec<&'a str>)
    ensures
        r.deep_view() == space_split_spec(s@),
{
    let parts = split_on_char(s, ' ');
    let mut r: Vec<&str> = Vec::new();
    let ghost all = parts.deep_view();
    let mut k: usize = 0;
    proof {
        assert(all.take(0) =~= Seq::<Seq<char>>::empty());
        reveal(Seq::filter);
    }
    while k < parts.len()
        invariant
            0 <= k <= parts.len(),
            all == parts.deep_view(),
            all == split_char(s@, ' '),
            r.deep_view() == all.take(k as int).filter(|t: Seq<char>| non_empty(t)),
        decreases parts.len() - k,
    {
        let ghost prev = r.deep_view();
        let seg = parts[k];
        if seg.unicode_len() > 0 {
            r.push(seg);
        }
        proof {
            reveal(Seq::filter);
            assert(all.take(k + 1).drop_last() =~= all.take(k as int));
            assert(all.take(k + 1).last() == all[k as int]);
            if seg@.len() > 0 {
                assert(r.deep_view() =~= prev.push(seg@));
            }
        }
        k = k + 1;
    }
    proof {
        assert(all.take(parts.len() as int) =~= all);
    }
    r
}

/// Split a string on newlines, trimming each line and excluding empty lines.
pub fn newline_split<'a>(s: &'a str) -> (r: Vec<&'a str>)
    ensures
        r.deep_view() == newline_split_spec(s@),
{
    let parts = split_on_char(s, '\n');
    let mut r: Vec<&str> = Vec::new();
    let ghost all = parts.deep_view().map_values(|t: Seq<char>| trim_spec(t));
    let mut k: usize = 0;
    proof {
        assert(all.take(0) =~= Seq::<Seq<char>>::empty());
        reveal(Seq::filter);
    }
    while k < parts.len()
        invariant
            0 <= k <= parts.len(),
            parts.deep_view() == split_char(s@, '\n'),
            all == parts.deep_view().map_values(|t: Seq<char>| trim_spec(t)),
            all.len() == parts.len(),
            r.deep_view() == all.take(k as int).filter(|t: Seq<char>| non_empty(t)),
        decreases parts.len() - k,
    {
        let ghost prev = r.deep_view();
        let seg = trim_of(parts[k]);
        if seg.unicode_len() > 0 {
            r.push(seg);
        }
        proof {
            reveal(Seq::filter);
            assert(all.take(k + 1).drop_last() =~= all.take(k as int));
            assert(all.take(k + 1).last() == all[k as int]);
            assert(all[k as int] == trim_spec(parts.deep_view()[k as int]));
            if seg@.len() > 0 {
                assert(r.deep_view() =~= prev.push(seg@));
            }
        }
        k = k + 1;
    }
    proof {
        assert(all.take(all.len() as int) =~= all);
    }
    r
}

/// Join string slices, placing `between` between adjacent non-empty parts.
pub fn join(xs: &Vec<&str>, between: &str) -> (r: String)
    ensures
        r@ == joined(xs.deep_view(), between@),
{
    let mut r = String::new();
    let mut k: usize = 0;
    proof {
        assert(xs.deep_view().take(0) =~= Seq::<Seq<char>>::empty());
    }
    while k < xs.len()
        invariant
            0 <= k <= xs.len(),
            r@ == joined(xs.deep_view().take(k as int), between@),
        decreases xs.len() - k,
    {
        proof {
            assert(xs.deep_view().take(k + 1).drop_last() =~= xs.deep_view().take(k as int));
            assert(xs.deep_view().take(k + 1).last() == xs.deep_view()[k as int]);
        }
        if r.unicode_len() != 0 {
            r.append(between);
        }
        r.append(xs[k]);
        k = k + 1;
    }
    proof {
        assert(xs.deep_view().take(xs.len() as int) =~= xs.deep_view());
    }
    r
}

/// Same as `join`, but over owned strings.
pub fn join_strings(xs: &Vec<String>, between: &str) -> (r: String)
    ensures
        r@ == joined(xs.deep_view(), between@),
{
    let mut r = String::new();
    let mut k: usize = 0;
    proof {
        assert(xs.deep_view().take(0) =~= Seq::<Seq<char>>::empty());
    }
    while k < xs.len()
        invariant
            0 <= k <= xs.len(),
            r@ == joined(xs.deep_view().take(k as int), between@),
        decreases xs.len() - k,
    {
        proof {
            assert(xs.deep_view().take(k + 1).drop_last() =~= xs.deep_view().take(k as int));
            assert(xs.deep_view().take(k + 1).last() == xs.deep_view()[k as int]);
        }
        if r.unicode_len() != 0 {
            r.append(between);
        }
        r.append(xs[k].as_str());
        k = k + 1;
    }
    proof {
        assert(xs.deep_view().take(xs.len() as int) =~= xs.deep_view());
    }
    r
}

} // verus!
