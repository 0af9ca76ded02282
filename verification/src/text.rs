//! Character-level building blocks shared by the PHP renderers: whitespace,
//! splitting on a separator, trimming, and line-wise indentation.

use vstd::prelude::*;

verus! {

/// Unicode `White_Space`, the set that `char::is_whitespace` tests.
pub open spec fn is_ws(c: char) -> bool {
    let u = c as u32;
    ||| (0x09 <= u && u <= 0x0d)
    ||| u == 0x20
    ||| u == 0x85
    ||| u == 0xa0
    ||| u == 0x1680
    ||| (0x2000 <= u && u <= 0x200a)
    ||| u == 0x2028
    ||| u == 0x2029
    ||| u == 0x202f
    ||| u == 0x205f
    ||| u == 0x3000
}

/// Whether `c` is a Unicode whitespace character.
pub fn is_whitespace(c: char) -> (b: bool)
    ensures
        b == is_ws(c),
{
    let u = c as u32;
    (0x09 <= u && u <= 0x0d) || u == 0x20 || u == 0x85 || u == 0xa0 || u == 0x1680 || (0x2000
        <= u && u <= 0x200a) || u == 0x2028 || u == 0x2029 || u == 0x202f || u == 0x205f || u
        == 0x3000
}

/// `String::push` from std: appends one character.
#[verifier::external_body]
pub(crate) fn push_char(s: &mut String, c: char)
    ensures
        final(s)@ == old(s)@.push(c),
{
    s.push(c);
}

/// The pieces of `s` between occurrences of `sep`, as `str::split` yields them:
/// always at least one piece, empty pieces kept.
pub open spec fn split_on(s: Seq<char>, sep: char) -> Seq<Seq<char>>
    decreases s.len(),
{
    if s.len() == 0 {
        seq![Seq::<char>::empty()]
    } else {
        let p = split_on(s.drop_last(), sep);
        if s.last() == sep {
            p.push(Seq::<char>::empty())
        } else {
            p.update(p.len() - 1, p.last().push(s.last()))
        }
    }
}

pub proof fn lemma_split_on_nonempty(s: Seq<char>, sep: char)
    ensures
        split_on(s, sep).len() >= 1,
    decreases s.len(),
{
    if s.len() > 0 {
        lemma_split_on_nonempty(s.drop_last(), sep);
    }
}

/// Number of whitespace characters at the start of `s`.
pub open spec fn leading_ws(s: Seq<char>) -> nat
    decreases s.len(),
{
    if s.len() > 0 && is_ws(s[0]) {
        1 + leading_ws(s.drop_first())
    } else {
        0
    }
}

/// Number of whitespace characters at the end of `s`.
pub open spec fn trailing_ws(s: Seq<char>) -> nat
    decreases s.len(),
{
    if s.len() > 0 && is_ws(s.last()) {
        1 + trailing_ws(s.drop_last())
    } else {
        0
    }
}

/// `s` without leading and trailing whitespace, as `str::trim` returns it.
pub open spec fn trim(s: Seq<char>) -> Seq<char> {
    let t = s.skip(leading_ws(s) as int);
    t.take(t.len() - trailing_ws(t))
}

pub proof fn lemma_leading_ws(s: Seq<char>, i: int)
    requires
        0 <= i <= s.len(),
        forall|j: int| 0 <= j < i ==> is_ws(#[trigger] s[j]),
        i == s.len() || !is_ws(s[i]),
    ensures
        leading_ws(s) == i,
    decreases i,
{
    if i > 0 {
        assert forall|j: int| 0 <= j < i - 1 implies is_ws(#[trigger] s.drop_first()[j]) by {
            assert(s.drop_first()[j] == s[j + 1]);
        }
        if i < s.len() {
            assert(s.drop_first()[i - 1] == s[i]);
        }
        lemma_leading_ws(s.drop_first(), i - 1);
    }
}

pub proof fn lemma_trailing_ws(s: Seq<char>, k: int)
    requires
        0 <= k <= s.len(),
        forall|j: int| s.len() - k <= j < s.len() ==> is_ws(#[trigger] s[j]),
        k == s.len() || !is_ws(s[s.len() - k - 1]),
    ensures
        trailing_ws(s) == k,
    decreases k,
{
    if k > 0 {
        let d = s.drop_last();
        assert forall|j: int| d.len() - (k - 1) <= j < d.len() implies is_ws(#[trigger] d[j]) by {
            assert(d[j] == s[j]);
        }
        if k < s.len() {
            assert(d[d.len() - (k - 1) - 1] == s[s.len() - k - 1]);
        }
        lemma_trailing_ws(d, k - 1);
    }
}

/// Bounds of the trimmed part of `s`: `s@.subrange(start, end) == trim(s@)`.
pub fn trim_bounds(s: &str) -> (r: (usize, usize))
    ensures
        r.0 <= r.1 <= s@.len(),
        s@.subrange(r.0 as int, r.1 as int) == trim(s@),
{
    let cs = chars_of(s);
    let len = cs.len();
    let mut i: usize = 0;
    while i < len && is_whitespace(cs[i])
        invariant
            cs@ == s@,
            len == s@.len(),
            i <= len,
            forall|j: int| 0 <= j < i ==> is_ws(#[trigger] s@[j]),
        decreases len - i,
    {
        i = i + 1;
    }
    proof {
        lemma_leading_ws(s@, i as int);
    }
    let ghost t = s@.skip(i as int);
    let mut k: usize = 0;
    while k < len - i && is_whitespace(cs[len - 1 - k])
        invariant
            cs@ == s@,
            len == s@.len(),
            i <= len,
            k <= len - i,
            t == s@.skip(i as int),
            forall|j: int| t.len() - k <= j < t.len() ==> is_ws(#[trigger] t[j]),
        decreases len - i - k,
    {
        assert(t[t.len() - k - 1] == s@[len - 1 - k]);
        k = k + 1;
    }
    proof {
        if k < len - i {
            assert(t[t.len() - k - 1] == s@[len - 1 - k]);
        }
        lemma_trailing_ws(t, k as int);
        assert(s@.subrange(i as int, (len - k) as int) =~= t.take(t.len() - k));
    }
    (i, len - k)
}

/// `s` with one trailing carriage return removed, if it has one.
pub open spec fn strip_cr(s: Seq<char>) -> Seq<char> {
    if s.len() > 0 && s.last() == '\r' {
        s.drop_last()
    } else {
        s
    }
}

/// Each of `lines` framed as `"\t" + line + "\n"`, where a line's `"\r"` before its
/// terminating newline is dropped.
pub open spec fn indent_terminated(lines: Seq<Seq<char>>) -> Seq<char>
    decreases lines.len(),
{
    if lines.len() == 0 {
        Seq::<char>::empty()
    } else {
        indent_terminated(lines.drop_last()) + seq!['\t'] + strip_cr(lines.last()) + seq!['\n']
    }
}

/// The text that writing `"\t{line}\n"` for every item of `str::lines(s)` produces.
/// `str::lines` splits at `"\n"` and `"\r\n"`; a final line without a newline
/// keeps its characters as they are, and an empty final piece is no line.
pub open spec fn indent_lines_spec(s: Seq<char>) -> Seq<char> {
    let p = split_on(s, '\n');
    let last = p.last();
    indent_terminated(p.drop_last()) + if last.len() == 0 {
        Seq::<char>::empty()
    } else {
        seq!['\t'] + last + seq!['\n']
    }
}

/// Writes every line of `s` as `"\t{line}\n"`.
pub fn indent_lines(s: &str) -> (out: String)
    ensures
        out@ == indent_lines_spec(s@),
{
    let cs = chars_of(s);
    let len = cs.len();
    let mut out = String::new();
    let mut cur = String::new();
    let mut i: usize = 0;
    while i < len
        invariant
            cs@ == s@,
            len == s@.len(),
            i <= len,
            split_on(s@.take(i as int), '\n') == split_on(s@.take(i as int), '\n').drop_last().push(
                cur@,
            ),
            out@ == indent_terminated(split_on(s@.take(i as int), '\n').drop_last()),
        decreases len - i,
    {
        let c = cs[i];
        let ghost before = split_on(s@.take(i as int), '\n');
        proof {
            assert(s@.take(i + 1).drop_last() =~= s@.take(i as int));
            assert(s@.take(i + 1).last() == c);
            lemma_split_on_nonempty(s@.take(i as int), '\n');
        }
        if c == '\n' {
            let ghost done = before.drop_last();
            let ghost cur_before = cur@;
            push_char(&mut out, '\t');
            let clen = cur.as_str().unicode_len();
            if clen > 0 && cur.as_str().get_char(clen - 1) == '\r' {
                let body = cur.as_str().substring_char(0, clen - 1);
                out.append(body);
            } else {
                out.append(cur.as_str());
            }
            push_char(&mut out, '\n');
            cur = String::new();
            proof {
                let after = split_on(s@.take(i + 1), '\n');
                assert(after == before.push(Seq::<char>::empty()));
                assert(after.drop_last() =~= done.push(cur_before));
                assert(done.push(cur_before).drop_last() =~= done);
                assert(cur_before.subrange(0, cur_before.len() - 1) =~= cur_before.drop_last());
                assert(after =~= after.drop_last().push(cur@));
            }
        } else {
            let ghost done = before.drop_last();
            push_char(&mut cur, c);
            proof {
                let after = split_on(s@.take(i + 1), '\n');
                assert(after == before.update(before.len() - 1, before.last().push(c)));
                assert(after.drop_last() =~= done);
                assert(after =~= after.drop_last().push(cur@));
            }
        }
        i = i + 1;
    }
    proof {
        assert(s@.take(len as int) =~= s@);
    }
    if cur.as_str().unicode_len() > 0 {
        push_char(&mut out, '\t');
        out.append(cur.as_str());
        push_char(&mut out, '\n');
    } else {
        proof {
            assert(out@ + Seq::<char>::empty() =~= out@);
        }
    }
    proof {
        let p = split_on(s@, '\n');
        assert(p.last() == cur@);
    }
    out
}


/// The decimal digit for `d < 10`.
pub open spec fn digit_char(d: nat) -> char {
    ('0' as u32 + d) as char
}

/// The decimal representation of `n`, without leading zeros (`"0"` for zero).
pub open spec fn decimal_spec(n: nat) -> Seq<char>
    decreases n,
{
    if n < 10 {
        seq![digit_char(n)]
    } else {
        decimal_spec(n / 10).push(digit_char(n % 10))
    }
}

/// `n` written in decimal.
pub fn decimal(n: u32) -> (s: String)
    ensures
        s@ == decimal_spec(n as nat),
    decreases n,
{
    let d = n % 10;
    let c: char = if d == 0 { '0' } else if d == 1 { '1' } else if d == 2 { '2' } else if d == 3 { '3' }
        else if d == 4 { '4' } else if d == 5 { '5' } else if d == 6 { '6' } else if d == 7 { '7' }
        else if d == 8 { '8' } else { '9' };
    assert(c == digit_char(d as nat));
    if n < 10 {
        let mut s = String::new();
        push_char(&mut s, c);
        assert(s@ =~= seq![c]);
        s
    } else {
        let mut s = decimal(n / 10);
        push_char(&mut s, c);
        s
    }
}


/// Whether two strings hold the same characters.
pub fn str_eq(a: &str, b: &str) -> (r: bool)
    ensures
        r == (a@ == b@),
{
    let ca = chars_of(a);
    let alen = ca.len();
    let cb = chars_of(b);
    let blen = cb.len();
    if alen != blen {
        return false;
    }
    let mut i: usize = 0;
    while i < alen
        invariant
            cb@ == b@,
            ca@ == a@,
            alen == a@.len(),
            blen == b@.len(),
            alen == blen,
            i <= alen,
            forall|j: int| 0 <= j < i ==> #[trigger] a@[j] == b@[j],
        decreases alen - i,
    {
        if ca[i] != cb[i] {
            return false;
        }
        i = i + 1;
    }
    assert(a@ =~= b@);
    true
}


/// The characters of `s`, read once from start to end.
pub fn chars_of(s: &str) -> (v: Vec<char>)
    ensures
        v@ == s@,
{
    broadcast use vstd::string::group_string_axioms;
    let mut v: Vec<char> = Vec::new();
    for c in it: s.chars()
        invariant
            v@ == it.seq().take(it.index() as int),
    {
        v.push(c);
    }
    assert(v@ =~= s@);
    v
}

} // verus!
