//! PHP naming and quoting: fully qualified class names, `::class` constants,
//! identifiers for helper stubs, single-quoted literals and nullable types.

use crate::text::{chars_of, lemma_split_on_nonempty, push_char, split_on, trim, trim_bounds};
use vstd::prelude::*;

verus! {

/// Number of backslashes at the start of `s`.
pub open spec fn leading_backslashes(s: Seq<char>) -> nat
    decreases s.len(),
{
    if s.len() > 0 && s[0] == '\\' {
        1 + leading_backslashes(s.drop_first())
    } else {
        0
    }
}

/// `s` without its leading backslashes (`trim_start_matches('\\')`).
pub open spec fn strip_leading_backslashes(s: Seq<char>) -> Seq<char> {
    s.skip(leading_backslashes(s) as int)
}

/// The fully qualified form of a class name: exactly one leading backslash.
pub open spec fn fqcn_spec(class: Seq<char>) -> Seq<char> {
    seq!['\\'] + strip_leading_backslashes(class)
}

/// The `::class` constant of a class name.
pub open spec fn class_const_spec(class: Seq<char>) -> Seq<char> {
    fqcn_spec(class) + "::class"@
}

pub open spec fn is_ascii_alnum(c: char) -> bool {
    ||| ('0' <= c && c <= '9')
    ||| ('A' <= c && c <= 'Z')
    ||| ('a' <= c && c <= 'z')
}

/// A character kept in an identifier, or `_` in its place.
pub open spec fn ident_char(c: char) -> char {
    if is_ascii_alnum(c) || c == '_' {
        c
    } else {
        '_'
    }
}

/// `short` with every character that is not an ASCII letter, digit or `_`
/// replaced by `_`.
pub open spec fn ident_spec(short: Seq<char>) -> Seq<char> {
    Seq::new(short.len(), |i: int| ident_char(short[i]))
}

/// The escape of one character inside a PHP single-quoted literal.
pub open spec fn escape_char(c: char) -> Seq<char> {
    if c == '\\' {
        seq!['\\', '\\']
    } else if c == '\'' {
        seq!['\\', '\'']
    } else {
        seq![c]
    }
}

/// `s` with every backslash doubled and every `'` preceded by a backslash.
pub open spec fn escape_single(s: Seq<char>) -> Seq<char>
    decreases s.len(),
{
    if s.len() == 0 {
        Seq::<char>::empty()
    } else {
        escape_single(s.drop_last()) + escape_char(s.last())
    }
}

pub open spec fn single_quoted_spec(s: Seq<char>) -> Seq<char> {
    seq!['\''] + escape_single(s) + seq!['\'']
}

/// `w` spells `null` in any mix of upper and lower case.
pub open spec fn is_null_word(w: Seq<char>) -> bool {
    &&& w.len() == 4
    &&& (w[0] == 'n' || w[0] == 'N')
    &&& (w[1] == 'u' || w[1] == 'U')
    &&& (w[2] == 'l' || w[2] == 'L')
    &&& (w[3] == 'l' || w[3] == 'L')
}

/// Some `|`-separated member of the type, without surrounding whitespace,
/// is `null` in any letter case.
pub open spec fn type_admits_null_spec(php_type: Seq<char>) -> bool {
    let parts = split_on(php_type, '|');
    exists|i: int| 0 <= i < parts.len() && is_null_word(trim(#[trigger] parts[i]))
}

pub open spec fn with_nullable_spec(php_type: Seq<char>, nullable: bool) -> Seq<char> {
    if nullable && !type_admits_null_spec(php_type) {
        php_type + "|null"@
    } else {
        php_type
    }
}

/// Length of the run of backslashes that starts `s`.
fn count_leading_backslashes(s: &str) -> (n: usize)
    ensures
        n == leading_backslashes(s@),
        n <= s@.len(),
{
    let cs = chars_of(s);
    let len = cs.len();
    let mut i: usize = 0;
    while i < len && cs[i] == '\\'
        invariant
            cs@ == s@,
            len == s@.len(),
            i <= len,
            forall|j: int| 0 <= j < i ==> #[trigger] s@[j] == '\\',
        decreases len - i,
    {
        i = i + 1;
    }
    proof {
        lemma_leading_backslashes(s@, i as int);
    }
    i
}

proof fn lemma_leading_backslashes(s: Seq<char>, i: int)
    requires
        0 <= i <= s.len(),
        forall|j: int| 0 <= j < i ==> #[trigger] s[j] == '\\',
        i == s.len() || s[i] != '\\',
    ensures
        leading_backslashes(s) == i,
    decreases i,
{
    if i > 0 {
        assert forall|j: int| 0 <= j < i - 1 implies #[trigger] s.drop_first()[j] == '\\' by {
            assert(s.drop_first()[j] == s[j + 1]);
        }
        if i < s.len() {
            assert(s.drop_first()[i - 1] == s[i]);
        }
        lemma_leading_backslashes(s.drop_first(), i - 1);
    }
}

/// The fully qualified class name: leading backslashes collapsed to one.
pub fn fqcn(class: &str) -> (out: String)
    ensures
        out@ == fqcn_spec(class@),
{
    let n = count_leading_backslashes(class);
    let len = class.unicode_len();
    let mut out = String::new();
    push_char(&mut out, '\\');
    out.append(class.substring_char(n, len));
    proof {
        assert(class@.subrange(n as int, len as int) =~= class@.skip(n as int));
        assert(Seq::<char>::empty().push('\\') =~= seq!['\\']);
    }
    out
}

/// The `\Fully\Qualified::class` constant for a class name.
pub fn class_const(class: &str) -> (out: String)
    ensures
        out@ == class_const_spec(class@),
{
    let mut out = fqcn(class);
    out.append("::class");
    out
}

/// `short` turned into a PHP identifier fragment.
pub fn ident(short: &str) -> (out: String)
    ensures
        out@ == ident_spec(short@),
{
    let cs = chars_of(short);
    let len = cs.len();
    let mut out = String::new();
    let mut i: usize = 0;
    while i < len
        invariant
            cs@ == short@,
            len == short@.len(),
            i <= len,
            out@ =~= ident_spec(short@.take(i as int)),
        decreases len - i,
    {
        let ch = cs[i];
        let keep = ('0' <= ch && ch <= '9') || ('A' <= ch && ch <= 'Z') || ('a' <= ch && ch <= 'z')
            || ch == '_';
        if keep {
            push_char(&mut out, ch);
        } else {
            push_char(&mut out, '_');
        }
        i = i + 1;
    }
    proof {
        assert(short@.take(len as int) =~= short@);
    }
    out
}

/// Name of the typed finder stub of an entity.
pub fn finder_stub_ident(short: &str) -> (out: String)
    ensures
        out@ == "Finder_"@ + ident_spec(short@),
{
    let mut out = String::from_str("Finder_");
    let id = ident(short);
    out.append(id.as_str());
    out
}

/// Name of the typed collection stub of an entity.
pub fn collection_stub_ident(short: &str) -> (out: String)
    ensures
        out@ == "Collection_"@ + ident_spec(short@),
{
    let mut out = String::from_str("Collection_");
    let id = ident(short);
    out.append(id.as_str());
    out
}

/// Name of the `@mixin` target class of an entity.
pub fn mixin_target_ident(short: &str) -> (out: String)
    ensures
        out@ == "Entity_"@ + ident_spec(short@),
{
    let mut out = String::from_str("Entity_");
    let id = ident(short);
    out.append(id.as_str());
    out
}

/// A PHP single-quoted string literal whose value is `s`.
pub fn single_quoted(s: &str) -> (out: String)
    ensures
        out@ == single_quoted_spec(s@),
{
    let cs = chars_of(s);
    let len = cs.len();
    let mut out = String::new();
    push_char(&mut out, '\'');
    let mut i: usize = 0;
    while i < len
        invariant
            cs@ == s@,
            len == s@.len(),
            i <= len,
            out@ =~= seq!['\''] + escape_single(s@.take(i as int)),
        decreases len - i,
    {
        let ch = cs[i];
        proof {
            assert(s@.take(i + 1).drop_last() =~= s@.take(i as int));
        }
        if ch == '\\' {
            push_char(&mut out, '\\');
            push_char(&mut out, '\\');
        } else if ch == '\'' {
            push_char(&mut out, '\\');
            push_char(&mut out, '\'');
        } else {
            push_char(&mut out, ch);
        }
        i = i + 1;
    }
    push_char(&mut out, '\'');
    proof {
        assert(s@.take(len as int) =~= s@);
    }
    out
}

/// Whether `part`, trimmed, reads `null` in any letter case.
fn part_is_null(part: &str) -> (b: bool)
    ensures
        b == is_null_word(trim(part@)),
{
    let (start, end) = trim_bounds(part);
    if end - start != 4 {
        return false;
    }
    let ghost w = part@.subrange(start as int, end as int);
    let c0 = part.get_char(start);
    let c1 = part.get_char(start + 1);
    let c2 = part.get_char(start + 2);
    let c3 = part.get_char(start + 3);
    assert(w[0] == c0 && w[1] == c1 && w[2] == c2 && w[3] == c3);
    (c0 == 'n' || c0 == 'N') && (c1 == 'u' || c1 == 'U') && (c2 == 'l' || c2 == 'L') && (c3 == 'l'
        || c3 == 'L')
}

/// Whether a PHP union type already contains `null`.
pub fn type_admits_null(php_type: &str) -> (b: bool)
    ensures
        b == type_admits_null_spec(php_type@),
{
    let cs = chars_of(php_type);
    let len = cs.len();
    let mut cur = String::new();
    let mut found = false;
    let mut i: usize = 0;
    while i < len
        invariant
            cs@ == php_type@,
            len == php_type@.len(),
            i <= len,
            split_on(php_type@.take(i as int), '|') == split_on(
                php_type@.take(i as int),
                '|',
            ).drop_last().push(cur@),
            found == exists|j: int|
                0 <= j < split_on(php_type@.take(i as int), '|').len() - 1 && is_null_word(
                    trim(#[trigger] split_on(php_type@.take(i as int), '|')[j]),
                ),
        decreases len - i,
    {
        let c = cs[i];
        let ghost before = split_on(php_type@.take(i as int), '|');
        proof {
            assert(php_type@.take(i + 1).drop_last() =~= php_type@.take(i as int));
            assert(php_type@.take(i + 1).last() == c);
            lemma_split_on_nonempty(php_type@.take(i as int), '|');
        }
        if c == '|' {
            let hit = part_is_null(cur.as_str());
            let ghost cur_before = cur@;
            found = found || hit;
            cur = String::new();
            proof {
                let after = split_on(php_type@.take(i + 1), '|');
                assert(after == before.push(Seq::<char>::empty()));
                assert(after =~= after.drop_last().push(cur@));
                assert(before[before.len() - 1] == cur_before);
                assert forall|j: int| 0 <= j < after.len() - 1 implies after[j] == before[j] by {}
                if found {
                    if hit {
                        assert(is_null_word(trim(after[before.len() - 1])));
                    } else {
                        let j = choose|j: int|
                            0 <= j < before.len() - 1 && is_null_word(trim(#[trigger] before[j]));
                        assert(is_null_word(trim(after[j])));
                    }
                }
            }
        } else {
            push_char(&mut cur, c);
            proof {
                let after = split_on(php_type@.take(i + 1), '|');
                assert(after == before.update(before.len() - 1, before.last().push(c)));
                assert(after =~= after.drop_last().push(cur@));
                assert forall|j: int| 0 <= j < after.len() - 1 implies after[j] == before[j] by {}
            }
        }
        i = i + 1;
    }
    let last_hit = part_is_null(cur.as_str());
    proof {
        assert(php_type@.take(len as int) =~= php_type@);
        let parts = split_on(php_type@, '|');
        lemma_split_on_nonempty(php_type@, '|');
        assert(parts[parts.len() - 1] == cur@);
        if last_hit {
            assert(is_null_word(trim(parts[parts.len() - 1])));
        }
    }
    found || last_hit
}

/// `php_type` made nullable when `nullable` is set and it does not admit `null` yet.
pub fn with_nullable(php_type: &str, nullable: bool) -> (out: String)
    ensures
        out@ == with_nullable_spec(php_type@, nullable),
{
    if nullable && !type_admits_null(php_type) {
        let mut out = String::from_str(php_type);
        out.append("|null");
        out
    } else {
        String::from_str(php_type)
    }
}


/// Position of the last `c` in `s`, if any (`str::rfind`, counted in characters).
pub open spec fn last_index_of(s: Seq<char>, c: char) -> Option<int>
    decreases s.len(),
{
    if s.len() == 0 {
        None
    } else if s.last() == c {
        Some(s.len() - 1)
    } else {
        last_index_of(s.drop_last(), c)
    }
}

/// A class name split into its namespace and its short name: leading
/// backslashes dropped, then cut at the last backslash; no backslash means the
/// global namespace (empty).
pub open spec fn split_class_spec(class: Seq<char>) -> (Seq<char>, Seq<char>) {
    let t = strip_leading_backslashes(class);
    match last_index_of(t, '\\') {
        Some(k) => (t.take(k), t.skip(k + 1)),
        None => (Seq::<char>::empty(), t),
    }
}

proof fn lemma_last_index_of(s: Seq<char>, c: char, j: int)
    requires
        0 <= j <= s.len(),
        forall|m: int| j <= m < s.len() ==> #[trigger] s[m] != c,
        j == 0 || s[j - 1] == c,
    ensures
        last_index_of(s, c) == (if j == 0 {
            None::<int>
        } else {
            Some(j - 1)
        }),
    decreases s.len(),
{
    if s.len() > 0 && j < s.len() {
        let d = s.drop_last();
        assert forall|m: int| j <= m < d.len() implies #[trigger] d[m] != c by {
            assert(d[m] == s[m]);
        }
        if j > 0 {
            assert(d[j - 1] == s[j - 1]);
        }
        lemma_last_index_of(d, c, j);
    }
}

/// Splits a class name into namespace and short name.
pub fn split_class(class: &str) -> (r: (String, String))
    ensures
        (r.0@, r.1@) == split_class_spec(class@),
{
    let n = count_leading_backslashes(class);
    let cs = chars_of(class);
    let len = cs.len();
    let ghost t = class@.skip(n as int);
    let mut j: usize = len;
    while j > n && cs[j - 1] != '\\'
        invariant
            cs@ == class@,
            len == class@.len(),
            n <= j <= len,
            t == class@.skip(n as int),
            forall|m: int| j - n <= m < t.len() ==> #[trigger] t[m] != '\\',
        decreases j,
    {
        assert(t[j - 1 - n] == class@[j - 1]);
        j = j - 1;
    }
    proof {
        if j > n {
            assert(t[j - 1 - n] == class@[j - 1]);
        }
        lemma_last_index_of(t, '\\', j - n);
    }
    if j == n {
        let short = String::from_str(class.substring_char(n, len));
        proof {
            assert(class@.subrange(n as int, len as int) =~= t);
        }
        (String::new(), short)
    } else {
        let ns = String::from_str(class.substring_char(n, j - 1));
        let short = String::from_str(class.substring_char(j, len));
        proof {
            assert(class@.subrange(n as int, j - 1) =~= t.take(j - 1 - n));
            assert(class@.subrange(j as int, len as int) =~= t.skip(j - n));
        }
        (ns, short)
    }
}

} // verus!
