//! The order in which `str` values sort (`Ord for str`: lexicographic by
//! character), extended to tuples of strings, with its laws and a sort.

use vstd::prelude::*;
use crate::text::chars_of;
use vstd::relations::{sorted_by, total_ordering};

verus! {

/// `a <= b` in the lexicographic order of their characters, a proper prefix
/// coming first. This is the order of `str`, since UTF-8 preserves the order
/// of code points.
pub open spec fn seq_leq(a: Seq<char>, b: Seq<char>) -> bool
    decreases a.len(),
{
    if a.len() == 0 {
        true
    } else if b.len() == 0 {
        false
    } else if a[0] != b[0] {
        a[0] < b[0]
    } else {
        seq_leq(a.drop_first(), b.drop_first())
    }
}

pub proof fn lemma_seq_leq_reflexive(a: Seq<char>)
    ensures
        seq_leq(a, a),
    decreases a.len(),
{
    if a.len() > 0 {
        lemma_seq_leq_reflexive(a.drop_first());
    }
}

pub proof fn lemma_seq_leq_antisymmetric(a: Seq<char>, b: Seq<char>)
    requires
        seq_leq(a, b),
        seq_leq(b, a),
    ensures
        a == b,
    decreases a.len(),
{
    if a.len() > 0 {
        lemma_seq_leq_antisymmetric(a.drop_first(), b.drop_first());
        assert(a =~= seq![a[0]] + a.drop_first());
        assert(b =~= seq![b[0]] + b.drop_first());
    } else {
        assert(b.len() == 0);
        assert(a =~= b);
    }
}

pub proof fn lemma_seq_leq_transitive(a: Seq<char>, b: Seq<char>, c: Seq<char>)
    requires
        seq_leq(a, b),
        seq_leq(b, c),
    ensures
        seq_leq(a, c),
    decreases a.len(),
{
    if a.len() > 0 && b.len() > 0 && c.len() > 0 {
        if a[0] == b[0] && b[0] == c[0] {
            lemma_seq_leq_transitive(a.drop_first(), b.drop_first(), c.drop_first());
        }
    }
}

pub proof fn lemma_seq_leq_total(a: Seq<char>, b: Seq<char>)
    ensures
        seq_leq(a, b) || seq_leq(b, a),
    decreases a.len(),
{
    if a.len() > 0 && b.len() > 0 && a[0] == b[0] {
        lemma_seq_leq_total(a.drop_first(), b.drop_first());
    }
}

/// A namespace, a short class name and the class it extends.
pub type Triple = (Seq<char>, Seq<char>, Seq<char>);

/// The order of `(&str, &str, &str)` tuples: by the first component, then the
/// second, then the third.
pub open spec fn triple_leq(x: Triple, y: Triple) -> bool {
    if x.0 != y.0 {
        seq_leq(x.0, y.0)
    } else if x.1 != y.1 {
        seq_leq(x.1, y.1)
    } else {
        seq_leq(x.2, y.2)
    }
}

/// The tuple order is a total order.
pub proof fn lemma_triple_leq_total_ordering()
    ensures
        total_ordering(|x: Triple, y: Triple| triple_leq(x, y)),
{
    let r = |x: Triple, y: Triple| triple_leq(x, y);
    assert forall|x: Triple| #[trigger] r(x, x) by {
        lemma_seq_leq_reflexive(x.2);
    }
    assert forall|x: Triple, y: Triple| #[trigger] r(x, y) && #[trigger] r(y, x) implies x == y by {
        if x.0 != y.0 {
            lemma_seq_leq_antisymmetric(x.0, y.0);
        } else if x.1 != y.1 {
            lemma_seq_leq_antisymmetric(x.1, y.1);
        } else {
            lemma_seq_leq_antisymmetric(x.2, y.2);
        }
    }
    assert forall|x: Triple, y: Triple, z: Triple|
        #[trigger] r(x, y) && #[trigger] r(y, z) implies r(x, z) by {
        lemma_triple_transitive(x, y, z);
    }
    assert forall|x: Triple, y: Triple| #[trigger] r(x, y) || #[trigger] r(y, x) by {
        lemma_seq_leq_total(x.0, y.0);
        lemma_seq_leq_total(x.1, y.1);
        lemma_seq_leq_total(x.2, y.2);
    }
}

proof fn lemma_triple_total(x: Triple, y: Triple)
    ensures
        triple_leq(x, y) || triple_leq(y, x),
{
    lemma_seq_leq_total(x.0, y.0);
    lemma_seq_leq_total(x.1, y.1);
    lemma_seq_leq_total(x.2, y.2);
}

proof fn lemma_triple_transitive(x: Triple, y: Triple, z: Triple)
    requires
        triple_leq(x, y),
        triple_leq(y, z),
    ensures
        triple_leq(x, z),
{
    if x.0 != y.0 && y.0 != z.0 {
        lemma_seq_leq_transitive(x.0, y.0, z.0);
        if x.0 == z.0 {
            lemma_seq_leq_antisymmetric(x.0, y.0);
        }
    } else if x.0 == y.0 && y.0 == z.0 {
        if x.1 != y.1 && y.1 != z.1 {
            lemma_seq_leq_transitive(x.1, y.1, z.1);
            if x.1 == z.1 {
                lemma_seq_leq_antisymmetric(x.1, y.1);
            }
        } else if x.1 == y.1 && y.1 == z.1 {
            lemma_seq_leq_transitive(x.2, y.2, z.2);
        }
    }
}

/// `a <= b` in the order of `str`.
pub fn str_leq(a: &str, b: &str) -> (r: bool)
    ensures
        r == seq_leq(a@, b@),
{
    let ca = chars_of(a);
    let alen = ca.len();
    let cb = chars_of(b);
    let blen = cb.len();
    let mut i: usize = 0;
    proof {
        assert(a@.skip(0) =~= a@);
        assert(b@.skip(0) =~= b@);
    }
    while i < alen && i < blen && ca[i] == cb[i]
        invariant
            cb@ == b@,
            ca@ == a@,
            alen == a@.len(),
            blen == b@.len(),
            i <= alen,
            i <= blen,
            seq_leq(a@, b@) == seq_leq(a@.skip(i as int), b@.skip(i as int)),
        decreases alen - i,
    {
        proof {
            let sa = a@.skip(i as int);
            let sb = b@.skip(i as int);
            assert(sa.drop_first() =~= a@.skip(i + 1));
            assert(sb.drop_first() =~= b@.skip(i + 1));
        }
        i = i + 1;
    }
    if i == alen {
        true
    } else if i == blen {
        false
    } else {
        let ca = ca[i];
        let cb = cb[i];
        proof {
            assert(a@.skip(i as int)[0] == ca);
            assert(b@.skip(i as int)[0] == cb);
        }
        ca < cb
    }
}

/// The view of an owned triple of strings.
pub open spec fn triple_view(t: (String, String, String)) -> Triple {
    (t.0@, t.1@, t.2@)
}

/// `x <= y` in the tuple order.
pub fn triple_le(x: &(String, String, String), y: &(String, String, String)) -> (r: bool)
    ensures
        r == triple_leq(triple_view(*x), triple_view(*y)),
{
    if x.0 != y.0 {
        str_leq(x.0.as_str(), y.0.as_str())
    } else if x.1 != y.1 {
        str_leq(x.1.as_str(), y.1.as_str())
    } else {
        str_leq(x.2.as_str(), y.2.as_str())
    }
}

/// The items of `v` in the tuple order, as `slice::sort` leaves them.
pub fn sort_triples(v: Vec<(String, String, String)>) -> (out: Vec<(String, String, String)>)
    ensures
        out@.map_values(|t: (String, String, String)| triple_view(t)) == v@.map_values(
            |t: (String, String, String)| triple_view(t),
        ).sort_by(|x: Triple, y: Triple| triple_leq(x, y)),
{
    let ghost leq = |x: Triple, y: Triple| triple_leq(x, y);
    let ghost input = v@.map_values(|t: (String, String, String)| triple_view(t));
    proof {
        lemma_triple_leq_total_ordering();
    }
    let mut out: Vec<(String, String, String)> = Vec::new();
    let mut rest = v;
    let n = rest.len();
    let mut k: usize = 0;
    proof {
        broadcast use vstd::seq_lib::group_to_multiset_ensures;
        assert(input.skip(n as int) =~= Seq::<Triple>::empty());
        assert(out@.map_values(|t: (String, String, String)| triple_view(t)) =~= Seq::<Triple>::empty());
        assert(input.take(n as int) =~= input);
    }
    // Move the items out from the back; `rest` keeps the prefix not yet moved.
    while k < n
        invariant
            total_ordering(leq),
            forall|a: Triple, b: Triple| #[trigger] leq(a, b) == triple_leq(a, b),
            n == input.len(),
            k <= n,
            rest@.len() == n - k,
            rest@.map_values(|t: (String, String, String)| triple_view(t)) =~= input.take(
                (n - k) as int,
            ),
            sorted_by(out@.map_values(|t: (String, String, String)| triple_view(t)), leq),
            out@.map_values(|t: (String, String, String)| triple_view(t)).to_multiset()
                =~= input.skip((n - k) as int).to_multiset(),
        decreases n - k,
    {
        let ghost before = out@.map_values(|t: (String, String, String)| triple_view(t));
        let x = rest.pop().unwrap();
        let ghost xv = triple_view(x);
        proof {
            assert(input[(n - k - 1) as int] == xv) by {
                assert(input.take((n - k) as int)[(n - k - 1) as int] == xv);
            }
        }
        // Position: after every item that is <= x (they form a prefix).
        let mut p: usize = 0;
        let len = out.len();
        while p < len && triple_le(&out[p], &x)
            invariant
                len == out@.len(),
                p <= len,
                xv == triple_view(x),
                forall|j: int| 0 <= j < p ==> triple_leq(#[trigger] triple_view(out@[j]), xv),
            decreases len - p,
        {
            p = p + 1;
        }
        out.insert(p, x);
        proof {
            let after = out@.map_values(|t: (String, String, String)| triple_view(t));
            assert(after =~= before.insert(p as int, xv));
            assert forall|i: int, j: int| 0 <= i < j < after.len() implies #[trigger] leq(
                after[i],
                after[j],
            ) by {
                if j < p {
                    assert(leq(before[i], before[j]));
                } else if j == p {
                    assert(triple_leq(before[i], xv));
                } else {
                    if i <= p {
                        // x <= before[p] <= before[j - 1]
                        assert(!triple_leq(before[p as int], xv));
                        lemma_triple_total(before[p as int], xv);
                        if p < j - 1 {
                            assert(leq(before[p as int], before[j - 1]));
                            lemma_triple_transitive(xv, before[p as int], before[j - 1]);
                        }
                        assert(triple_leq(xv, before[j - 1]));
                        if i < p {
                            assert(triple_leq(before[i], xv));
                            lemma_triple_transitive(before[i], xv, before[j - 1]);
                        }
                    } else {
                        assert(leq(before[i - 1], before[j - 1]));
                    }
                }
            }
            assert(before.insert(p as int, xv) =~= before.take(p as int) + seq![xv] + before.skip(
                p as int,
            ));
            assert(before =~= before.take(p as int) + before.skip(p as int));
            vstd::seq_lib::lemma_multiset_commutative(before.take(p as int), seq![xv]);
            vstd::seq_lib::lemma_multiset_commutative(
                before.take(p as int) + seq![xv],
                before.skip(p as int),
            );
            vstd::seq_lib::lemma_multiset_commutative(before.take(p as int), before.skip(p as int));
            let s1 = input.skip((n - k - 1) as int);
            assert(s1 =~= seq![xv] + input.skip((n - k) as int));
            vstd::seq_lib::lemma_multiset_commutative(seq![xv], input.skip((n - k) as int));
            assert(rest@.map_values(|t: (String, String, String)| triple_view(t)) =~= input.take(
                (n - k - 1) as int,
            ));
        }
        k = k + 1;
    }
    proof {
        assert(input.skip(0) =~= input);
        input.lemma_sort_by_ensures(leq);
        vstd::seq_lib::lemma_sorted_unique(
            out@.map_values(|t: (String, String, String)| triple_view(t)),
            input.sort_by(leq),
            leq,
        );
    }
    out
}

} // verus!
