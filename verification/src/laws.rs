//! Properties of the naming helpers and renderers that hold for every input.

use crate::cli::{resolve_names, resolve_targets_spec, target_names};
use crate::contract::{entity_entries, string_entries, Contract, Entity};
use crate::generate::phpstorm_meta::{entity_item, entity_items, finder_stub_const, pair_items, MapKind};
use crate::generate::{banner_head, banner_spec, render_spec, EntityMode, Target};
use crate::generate::xfcp::{
    class_line, extension_triples, groups_body, groups_text, header_extra, namespace_open,
    sorted_triples,
};
use crate::order::{
    lemma_seq_leq_antisymmetric, lemma_seq_leq_transitive, lemma_triple_leq_total_ordering, seq_leq,
    triple_leq, Triple,
};
use crate::php::{
    class_const_spec, escape_char, escape_single, fqcn_spec, ident_spec, is_ascii_alnum, is_null_word, last_index_of,
    leading_backslashes, single_quoted_spec, split_class_spec, strip_leading_backslashes,
    type_admits_null_spec, with_nullable_spec,
};
use crate::text::{is_ws, leading_ws, split_on, trailing_ws, trim};
use vstd::prelude::*;
use vstd::relations::sorted_by;

verus! {

proof fn lemma_leading_backslashes_bound(s: Seq<char>)
    ensures
        leading_backslashes(s) <= s.len(),
    decreases s.len(),
{
    if s.len() > 0 && s[0] == '\\' {
        lemma_leading_backslashes_bound(s.drop_first());
    }
}

proof fn lemma_strip_has_no_leading_backslash(s: Seq<char>)
    ensures
        strip_leading_backslashes(s).len() > 0 ==> strip_leading_backslashes(s)[0] != '\\',
        leading_backslashes(strip_leading_backslashes(s)) == 0,
    decreases s.len(),
{
    lemma_leading_backslashes_bound(s);
    if s.len() > 0 && s[0] == '\\' {
        lemma_strip_has_no_leading_backslash(s.drop_first());
        lemma_leading_backslashes_bound(s.drop_first());
        assert(strip_leading_backslashes(s) =~= strip_leading_backslashes(s.drop_first()));
    }
}

/// `fqcn` gives a name with exactly one leading backslash, and it does not
/// matter how many leading backslashes the input had: qualifying twice is
/// qualifying once, and `\Foo` qualifies like `Foo`.
pub proof fn law_fqcn_canonical(class: Seq<char>)
    ensures
        fqcn_spec(class)[0] == '\\',
        fqcn_spec(class).len() > 1 ==> fqcn_spec(class)[1] != '\\',
        fqcn_spec(fqcn_spec(class)) == fqcn_spec(class),
        fqcn_spec(seq!['\\'] + class) == fqcn_spec(class),
{
    let t = strip_leading_backslashes(class);
    lemma_strip_has_no_leading_backslash(class);
    let b = seq!['\\'] + class;
    assert(b.drop_first() =~= class);
    lemma_leading_backslashes_bound(class);
    assert(leading_backslashes(b) == 1 + leading_backslashes(class));
    assert(strip_leading_backslashes(b) =~= t);
    let f = fqcn_spec(class);
    assert(f.drop_first() =~= t);
    assert(strip_leading_backslashes(f) =~= strip_leading_backslashes(t)) by {
        assert(f[0] == '\\');
    }
    assert(strip_leading_backslashes(t) =~= t);
}

/// An identifier has one character per input character, each an ASCII letter,
/// digit or `_`; characters that already are stay; so `ident` is idempotent.
pub proof fn law_ident_shape(short: Seq<char>)
    ensures
        ident_spec(short).len() == short.len(),
        forall|i: int|
            0 <= i < short.len() ==> is_ascii_alnum(#[trigger] ident_spec(short)[i])
                || ident_spec(short)[i] == '_',
        forall|i: int|
            0 <= i < short.len() && (is_ascii_alnum(short[i]) || short[i] == '_') ==> #[trigger] ident_spec(
                short,
            )[i] == short[i],
        ident_spec(ident_spec(short)) == ident_spec(short),
{
    assert(ident_spec(ident_spec(short)) =~= ident_spec(short));
}

/// The value that PHP reads from the body of a single-quoted literal up to its
/// closing quote: `\\` stands for `\`, `\'` for `'`, every other character for
/// itself. `None` when no closing quote follows; otherwise the value and the
/// number of characters before the closing quote.
pub open spec fn php_single_quoted_read(t: Seq<char>) -> Option<(Seq<char>, int)>
    decreases t.len(),
{
    if t.len() == 0 {
        None
    } else if t[0] == '\'' {
        Some((Seq::empty(), 0))
    } else if t[0] == '\\' && t.len() >= 2 && (t[1] == '\\' || t[1] == '\'') {
        match php_single_quoted_read(t.skip(2)) {
            Some((v, n)) => Some((seq![t[1]] + v, n + 2)),
            None => None,
        }
    } else {
        match php_single_quoted_read(t.drop_first()) {
            Some((v, n)) => Some((seq![t[0]] + v, n + 1)),
            None => None,
        }
    }
}

proof fn lemma_escape_front(s: Seq<char>)
    requires
        s.len() > 0,
    ensures
        escape_single(s) == escape_char(s[0]) + escape_single(s.drop_first()),
    decreases s.len(),
{
    if s.len() == 1 {
        assert(s.drop_last() =~= Seq::<char>::empty());
        assert(s.drop_first() =~= Seq::<char>::empty());
        assert(escape_single(s) =~= escape_char(s[0]));
        assert(escape_char(s[0]) + escape_single(s.drop_first()) =~= escape_char(s[0]));
    } else {
        lemma_escape_front(s.drop_last());
        assert(s.drop_last().drop_first() =~= s.drop_first().drop_last());
        assert(s.drop_first().last() == s.last());
        assert(escape_single(s) =~= escape_char(s[0]) + escape_single(s.drop_first()));
    }
}

proof fn lemma_read_escaped(s: Seq<char>)
    ensures
        php_single_quoted_read(escape_single(s) + seq!['\'']) == Some(
            (s, escape_single(s).len() as int),
        ),
    decreases s.len(),
{
    if s.len() == 0 {
        assert(escape_single(s) + seq!['\''] =~= seq!['\'']);
        assert(s =~= Seq::<char>::empty());
    } else {
        lemma_escape_front(s);
        let rest = s.drop_first();
        lemma_read_escaped(rest);
        let t = escape_single(s) + seq!['\''];
        let tail = escape_single(rest) + seq!['\''];
        let c = s[0];
        assert(s =~= seq![c] + rest);
        if c == '\\' || c == '\'' {
            assert(t =~= seq!['\\', c] + tail);
            assert(t.skip(2) =~= tail);
        } else {
            assert(t =~= seq![c] + tail);
            assert(t.drop_first() =~= tail);
        }
    }
}

/// `single_quoted(s)` is a PHP single-quoted literal whose value is `s`: it
/// opens with a quote, and PHP reads exactly `s` up to the final quote.
pub proof fn law_single_quoted_reads_back(s: Seq<char>)
    ensures
        single_quoted_spec(s)[0] == '\'',
        php_single_quoted_read(single_quoted_spec(s).drop_first()) == Some(
            (s, single_quoted_spec(s).len() - 2),
        ),
{
    lemma_read_escaped(s);
    assert(single_quoted_spec(s).drop_first() =~= escape_single(s) + seq!['\'']);
}

proof fn lemma_split_on_append(a: Seq<char>, sep: char, b: Seq<char>)
    requires
        forall|i: int| 0 <= i < b.len() ==> b[i] != sep,
    ensures
        split_on(a + seq![sep] + b, sep) == split_on(a, sep).push(b),
    decreases b.len(),
{
    if b.len() == 0 {
        let s = a + seq![sep] + b;
        assert(s =~= a.push(sep));
        assert(s.drop_last() =~= a);
        assert(s.last() == sep);
        assert(split_on(s, sep) == split_on(a, sep).push(Seq::<char>::empty()));
        assert(b =~= Seq::<char>::empty());
    } else {
        let d = b.drop_last();
        lemma_split_on_append(a, sep, d);
        let s = a + seq![sep] + b;
        assert(s.drop_last() =~= a + seq![sep] + d);
        assert(s.last() == b.last());
        assert(b.last() != sep);
        assert(b =~= d.push(b.last()));
        assert(split_on(s, sep) == split_on(a, sep).push(d).update(
            split_on(a, sep).len() as int,
            d.push(b.last()),
        ));
        assert(split_on(a, sep).push(d).update(split_on(a, sep).len() as int, d.push(b.last()))
            =~= split_on(a, sep).push(b));
    }
}

proof fn lemma_trim_null()
    ensures
        trim("null"@) == "null"@,
        is_null_word("null"@),
{
    reveal_strlit("null");
    let w = "null"@;
    assert(!is_ws(w[0]));
    assert(leading_ws(w) == 0);
    assert(w.skip(0) =~= w);
    assert(!is_ws(w.last()));
    assert(trailing_ws(w) == 0);
    assert(w.take(w.len() as int) =~= w);
}

/// A nullable property type always admits `null`, and making a type nullable
/// twice is making it nullable once; a non-nullable type is left as it is.
pub proof fn law_with_nullable(php_type: Seq<char>, nullable: bool)
    ensures
        nullable ==> type_admits_null_spec(with_nullable_spec(php_type, nullable)),
        !nullable ==> with_nullable_spec(php_type, nullable) == php_type,
        with_nullable_spec(with_nullable_spec(php_type, nullable), nullable) == with_nullable_spec(
            php_type,
            nullable,
        ),
{
    if nullable && !type_admits_null_spec(php_type) {
        reveal_strlit("|null");
        reveal_strlit("null");
        let n = "null"@;
        assert("|null"@ =~= seq!['|'] + n);
        assert(php_type + "|null"@ =~= php_type + seq!['|'] + n);
        lemma_split_on_append(php_type, '|', n);
        lemma_trim_null();
        let parts = split_on(php_type + "|null"@, '|');
        assert(parts[parts.len() - 1] == n);
        assert(is_null_word(trim(parts[parts.len() - 1])));
    }
}

/// Splitting a class name loses nothing: the namespace, a backslash and the
/// short name spell the name without its leading backslashes, and the short
/// name holds no backslash.
pub proof fn law_split_class_lossless(class: Seq<char>)
    ensures
        ({
            let (ns, short) = split_class_spec(class);
            &&& ns.len() > 0 ==> ns + seq!['\\'] + short == strip_leading_backslashes(class)
            &&& ns.len() == 0 ==> short == strip_leading_backslashes(class)
            &&& forall|i: int| 0 <= i < short.len() ==> short[i] != '\\'
        }),
{
    let t = strip_leading_backslashes(class);
    lemma_last_index_facts(t, '\\');
    lemma_strip_has_no_leading_backslash(class);
    match last_index_of(t, '\\') {
        Some(k) => {
            assert(t =~= t.take(k) + seq!['\\'] + t.skip(k + 1));
            assert forall|i: int| 0 <= i < t.skip(k + 1).len() implies #[trigger] t.skip(k + 1)[i] != '\\' by {
                assert(t.skip(k + 1)[i] == t[k + 1 + i]);
            }
        },
        None => {},
    }
}

proof fn lemma_last_index_facts(s: Seq<char>, c: char)
    ensures
        last_index_of(s, c) matches Some(k) ==> {
            &&& 0 <= k < s.len()
            &&& s[k] == c
            &&& forall|m: int| k < m < s.len() ==> s[m] != c
        },
        last_index_of(s, c) is None ==> forall|m: int| 0 <= m < s.len() ==> s[m] != c,
    decreases s.len(),
{
    if s.len() > 0 && s.last() != c {
        lemma_last_index_facts(s.drop_last(), c);
        assert forall|m: int| 0 <= m < s.len() - 1 implies s[m] == s.drop_last()[m] by {}
    }
}

/// The XFCP stubs do not depend on the order of the class extensions in the
/// contract: two contracts whose proxies are the same, counted with
/// multiplicity, give the same file, and the stubs come sorted by namespace,
/// short name and parent.
pub proof fn law_xfcp_order_independent(c1: Contract, c2: Contract)
    requires
        extension_triples(c1).to_multiset() == extension_triples(c2).to_multiset(),
    ensures
        sorted_by(sorted_triples(c1), |x: Triple, y: Triple| triple_leq(x, y)),
        sorted_triples(c1).to_multiset() == extension_triples(c1).to_multiset(),
        render_spec(c1, Target::Xfcp, EntityMode::Redeclare) == render_spec(
            c2,
            Target::Xfcp,
            EntityMode::Redeclare,
        ),
{
    let leq = |x: Triple, y: Triple| triple_leq(x, y);
    lemma_triple_leq_total_ordering();
    extension_triples(c1).lemma_sort_by_ensures(leq);
    extension_triples(c2).lemma_sort_by_ensures(leq);
    vstd::seq_lib::lemma_sorted_unique(sorted_triples(c1), sorted_triples(c2), leq);
}

/// Every generated file starts with the PHP open tag.
pub proof fn law_files_open_with_php_tag(contract: Contract, target: Target, mode: EntityMode)
    ensures
        render_spec(contract, target, mode).len() >= 5,
        render_spec(contract, target, mode).take(5) == "<?php"@,
{
    reveal_strlit("<?php");
    reveal_strlit(
        "<?php\n\n/**\n * Generated by xf-typegen. Do not edit; run `xf-typegen generate` again instead.\n",
    );
    let r = render_spec(contract, target, mode);
    let h = banner_head();
    assert(h.len() > 5);
    assert forall|i: int| 0 <= i < 5 implies r[i] == h[i] by {}
    assert(r.take(5) =~= "<?php"@);
}

proof fn lemma_resolve_names_shape(names: Seq<Seq<char>>)
    ensures
        resolve_names(names) matches Ok(ts) ==> {
            &&& ts.no_duplicates()
            &&& forall|i: int|
                0 <= i < ts.len() ==> exists|j: int|
                    0 <= j < names.len() && crate::generate::parse_target_spec(#[trigger] names[j])
                        == Some(#[trigger] ts[i])
        },
    decreases names.len(),
{
    if names.len() > 0 {
        let p = names.drop_last();
        lemma_resolve_names_shape(p);
        if let Ok(ts) = resolve_names(names) {
            let prev = resolve_names(p)->Ok_0;
            assert forall|i: int| 0 <= i < prev.len() implies exists|j: int|
                0 <= j < names.len() && crate::generate::parse_target_spec(#[trigger] names[j])
                    == Some(#[trigger] prev[i]) by {
                let j = choose|j: int|
                    0 <= j < p.len() && crate::generate::parse_target_spec(#[trigger] p[j]) == Some(
                        prev[i],
                    );
                assert(names[j] == p[j]);
            }
            if ts != prev {
                let last = names.last();
                assert(ts == prev.push(crate::generate::parse_target_spec(last)->Some_0));
                assert(names[names.len() - 1] == last);
                assert forall|i: int| 0 <= i < ts.len() implies exists|j: int|
                    0 <= j < names.len() && crate::generate::parse_target_spec(#[trigger] names[j])
                        == Some(#[trigger] ts[i]) by {
                    if i < prev.len() {
                        assert(ts[i] == prev[i]);
                    }
                }
            }
        }
    }
}

/// A `--targets` list that is accepted selects at least one target, none twice,
/// each of them named in the list.
pub proof fn law_resolved_targets(list: Seq<char>)
    ensures
        resolve_targets_spec(Some(list)) matches Ok(ts) ==> {
            &&& ts.len() >= 1
            &&& ts.no_duplicates()
            &&& forall|i: int|
                0 <= i < ts.len() ==> exists|j: int|
                    0 <= j < target_names(list).len() && crate::generate::parse_target_spec(
                        #[trigger] target_names(list)[j],
                    ) == Some(#[trigger] ts[i])
        },
{
    lemma_resolve_names_shape(target_names(list));
}


proof fn lemma_entity_items_cover(kind: MapKind, es: Seq<(Seq<char>, Entity)>, i: int, j: int)
    requires
        0 <= i < es.len(),
        0 <= j < entity_item(kind, es[i].0, es[i].1).len(),
    ensures
        entity_items(kind, es).contains(entity_item(kind, es[i].0, es[i].1)[j]),
    decreases es.len(),
{
    let prev = entity_items(kind, es.drop_last());
    let item = entity_item(kind, es.last().0, es.last().1);
    if i == es.len() - 1 {
        assert(entity_items(kind, es)[prev.len() + j] == item[j]);
    } else {
        assert(es.drop_last()[i] == es[i]);
        lemma_entity_items_cover(kind, es.drop_last(), i, j);
        let k = choose|k: int| 0 <= k < prev.len() && prev[k] == entity_item(kind, es[i].0, es[i].1)[j];
        assert(entity_items(kind, es)[k] == prev[k]);
    }
}

/// Every entity resolves in both call styles: in the finder map its quoted
/// short name, and the `::class` constant of its own finder if it has one, map
/// to its typed finder stub; in the entity map its quoted short name maps to its
/// class; in the repository map, when it has a repository, both its quoted short
/// name and the repository's `::class` constant map to the repository.
pub proof fn law_every_entity_resolves(contract: Contract, i: int)
    requires
        0 <= i < entity_entries(contract.entities).len(),
    ensures
        ({
            let es = entity_entries(contract.entities);
            let short = es[i].0;
            let e = es[i].1;
            &&& entity_items(MapKind::Finder, es).contains(
                (single_quoted_spec(short), finder_stub_const(short)),
            )
            &&& (e.finder matches Some(f) ==> entity_items(MapKind::Finder, es).contains(
                (class_const_spec(f@), finder_stub_const(short)),
            ))
            &&& entity_items(MapKind::Entity, es).contains(
                (single_quoted_spec(short), class_const_spec(e.class@)),
            )
            &&& (e.repository matches Some(r) ==> {
                &&& entity_items(MapKind::Repository, es).contains(
                    (single_quoted_spec(short), class_const_spec(r@)),
                )
                &&& entity_items(MapKind::Repository, es).contains(
                    (class_const_spec(r@), class_const_spec(r@)),
                )
            })
        }),
{
    let es = entity_entries(contract.entities);
    lemma_entity_items_cover(MapKind::Finder, es, i, 0);
    if es[i].1.finder is Some {
        lemma_entity_items_cover(MapKind::Finder, es, i, 1);
    }
    lemma_entity_items_cover(MapKind::Entity, es, i, 0);
    if es[i].1.repository is Some {
        lemma_entity_items_cover(MapKind::Repository, es, i, 0);
        lemma_entity_items_cover(MapKind::Repository, es, i, 1);
    }
}

proof fn lemma_pair_items_cover(m: Seq<(Seq<char>, Seq<char>)>, i: int)
    requires
        0 <= i < m.len(),
    ensures
        pair_items(m).contains((single_quoted_spec(m[i].0), class_const_spec(m[i].1))),
        pair_items(m).contains((class_const_spec(m[i].1), class_const_spec(m[i].1))),
    decreases m.len(),
{
    let prev = pair_items(m.drop_last());
    if i == m.len() - 1 {
        assert(pair_items(m)[prev.len() as int] == (single_quoted_spec(m[i].0), class_const_spec(m[i].1)));
        assert(pair_items(m)[prev.len() as int + 1] == (class_const_spec(m[i].1), class_const_spec(m[i].1)));
    } else {
        assert(m.drop_last()[i] == m[i]);
        lemma_pair_items_cover(m.drop_last(), i);
        let k1 = choose|k: int| 0 <= k < prev.len() && prev[k] == (single_quoted_spec(m[i].0), class_const_spec(m[i].1));
        let k2 = choose|k: int| 0 <= k < prev.len() && prev[k] == (class_const_spec(m[i].1), class_const_spec(m[i].1));
        assert(pair_items(m)[k1] == prev[k1]);
        assert(pair_items(m)[k2] == prev[k2]);
    }
}

/// Every service and every captcha resolves in both call styles: its quoted
/// short name and its `::class` constant map to its class.
pub proof fn law_every_service_resolves(contract: Contract, i: int, j: int)
    ensures
        ({
            let s = string_entries(contract.services);
            0 <= i < s.len() ==> {
                &&& pair_items(s).contains((single_quoted_spec(s[i].0), class_const_spec(s[i].1)))
                &&& pair_items(s).contains((class_const_spec(s[i].1), class_const_spec(s[i].1)))
            }
        }),
        ({
            let c = string_entries(contract.captchas);
            0 <= j < c.len() ==> {
                &&& pair_items(c).contains((single_quoted_spec(c[j].0), class_const_spec(c[j].1)))
                &&& pair_items(c).contains((class_const_spec(c[j].1), class_const_spec(c[j].1)))
            }
        }),
{
    let s = string_entries(contract.services);
    let c = string_entries(contract.captchas);
    if 0 <= i < s.len() {
        lemma_pair_items_cover(s, i);
    }
    if 0 <= j < c.len() {
        lemma_pair_items_cover(c, j);
    }
}


/// A short class name and the class it extends.
pub type ClassPair = (Seq<char>, Seq<char>);

/// The order of `(&str, &str)` pairs: by the first component, then the second.
pub open spec fn pair_leq(p: ClassPair, q: ClassPair) -> bool {
    if p.0 != q.0 {
        seq_leq(p.0, q.0)
    } else {
        seq_leq(p.1, q.1)
    }
}

/// Consecutive triples with the same namespace, gathered into one group of
/// (short name, parent) pairs per namespace.
pub open spec fn group_by_namespace(s: Seq<Triple>) -> Seq<(Seq<char>, Seq<ClassPair>)>
    decreases s.len(),
{
    if s.len() == 0 {
        Seq::empty()
    } else {
        let g = group_by_namespace(s.drop_last());
        let t = s.last();
        if g.len() > 0 && g.last().0 == t.0 {
            g.update(g.len() - 1, (t.0, g.last().1.push((t.1, t.2))))
        } else {
            g.push((t.0, seq![(t.1, t.2)]))
        }
    }
}

/// The stub line of one proxy of a namespace.
pub open spec fn pair_line(p: ClassPair) -> Seq<char> {
    "\tclass "@ + p.0 + " extends "@ + fqcn_spec(p.1) + " {}\n"@
}

/// The stub lines of a namespace's proxies, in order.
pub open spec fn pair_lines(ps: Seq<ClassPair>) -> Seq<char>
    decreases ps.len(),
{
    if ps.len() == 0 {
        Seq::empty()
    } else {
        pair_lines(ps.drop_last()) + pair_line(ps.last())
    }
}

/// One namespace block: its opening line, its stub lines, and the closing brace.
pub open spec fn namespace_block(ns: Seq<char>, ps: Seq<ClassPair>) -> Seq<char> {
    namespace_open(ns) + pair_lines(ps) + "}\n\n"@
}

/// The namespace blocks, in order.
pub open spec fn blocks_text(g: Seq<(Seq<char>, Seq<ClassPair>)>) -> Seq<char>
    decreases g.len(),
{
    if g.len() == 0 {
        Seq::empty()
    } else {
        blocks_text(g.drop_last()) + namespace_block(g.last().0, g.last().1)
    }
}

/// The triples that the groups stand for, in order.
pub open spec fn flatten_groups(g: Seq<(Seq<char>, Seq<ClassPair>)>) -> Seq<Triple>
    decreases g.len(),
{
    if g.len() == 0 {
        Seq::empty()
    } else {
        flatten_groups(g.drop_last()) + g.last().1.map_values(
            |p: ClassPair| (g.last().0, p.0, p.1),
        )
    }
}

/// The text of the blocks with the last one left open.
pub open spec fn open_text(g: Seq<(Seq<char>, Seq<ClassPair>)>) -> Seq<char> {
    blocks_text(g.drop_last()) + namespace_open(g.last().0) + pair_lines(g.last().1)
}

proof fn lemma_group_basic(s: Seq<Triple>)
    ensures
        (group_by_namespace(s).len() == 0) == (s.len() == 0),
        s.len() > 0 ==> {
            let g = group_by_namespace(s);
            &&& g.last().0 == s.last().0
            &&& g.last().1.len() > 0
            &&& g.last().1.last() == (s.last().1, s.last().2)
        },
        flatten_groups(group_by_namespace(s)) == s,
        s.len() > 0 ==> groups_body(s) == open_text(group_by_namespace(s)),
    decreases s.len(),
{
    if s.len() > 0 {
        let d = s.drop_last();
        lemma_group_basic(d);
        let g = group_by_namespace(d);
        let t = s.last();
        let p = (t.1, t.2);
        let f = |q: ClassPair| (t.0, q.0, q.1);
        if g.len() > 0 && g.last().0 == t.0 {
            let ng = group_by_namespace(s);
            let ps = g.last().1;
            assert(ng.drop_last() =~= g.drop_last());
            assert(ng.last().1 == ps.push(p));
            assert(ps.push(p).drop_last() =~= ps);
            assert(ps.push(p).map_values(f) =~= ps.map_values(f).push((t.0, t.1, t.2)));
            assert(flatten_groups(g) == flatten_groups(g.drop_last()) + ps.map_values(f));
            assert(flatten_groups(ng) =~= flatten_groups(g).push(t));
            assert(s =~= d.push(t));
            assert(d[d.len() - 1] == d.last());
            assert(s[s.len() - 2] == d.last());
            assert(pair_line(p) == class_line(t));
            assert(groups_body(s) =~= open_text(ng));
        } else {
            let ng = group_by_namespace(s);
            assert(ng.drop_last() =~= g);
            assert(seq![p].map_values(f) =~= seq![t]);
            assert(flatten_groups(ng) =~= flatten_groups(g).push(t));
            assert(s =~= d.push(t));
            assert(seq![p].drop_last() =~= Seq::<ClassPair>::empty());
            assert(pair_lines(Seq::<ClassPair>::empty()) =~= Seq::<char>::empty());
            assert(pair_lines(seq![p]) == pair_lines(seq![p].drop_last()) + pair_line(p));
            assert(pair_lines(seq![p]) =~= pair_line(p));
            assert(pair_line(p) == class_line(t));
            if d.len() > 0 {
                assert(s[s.len() - 2] == d.last());
                assert(blocks_text(g) == blocks_text(g.drop_last()) + namespace_block(
                    g.last().0,
                    g.last().1,
                ));
                assert(groups_body(s) =~= open_text(ng));
            } else {
                assert(g.len() == 0);
                assert(d =~= Seq::<Triple>::empty());
                assert(groups_body(d) =~= Seq::<char>::empty());
                assert(blocks_text(ng.drop_last()) =~= Seq::<char>::empty());
                assert(groups_body(s) == groups_body(d) + namespace_open(t.0) + class_line(t));
                assert(groups_body(s) =~= open_text(ng));
            }
        }
    }
}

/// `triple_leq` holds between every two triples of `s`, in order.
pub open spec fn triples_sorted(s: Seq<Triple>) -> bool {
    forall|i: int, j: int| 0 <= i < j < s.len() ==> triple_leq(#[trigger] s[i], #[trigger] s[j])
}

/// `pair_leq` holds between every two pairs of `ps`, in order.
pub open spec fn pairs_sorted(ps: Seq<ClassPair>) -> bool {
    forall|i: int, j: int| 0 <= i < j < ps.len() ==> pair_leq(#[trigger] ps[i], #[trigger] ps[j])
}

proof fn lemma_pair_transitive(x: ClassPair, y: ClassPair, z: ClassPair)
    requires
        pair_leq(x, y),
        pair_leq(y, z),
    ensures
        pair_leq(x, z),
{
    if x.0 != y.0 && y.0 != z.0 {
        lemma_seq_leq_transitive(x.0, y.0, z.0);
        if x.0 == z.0 {
            lemma_seq_leq_antisymmetric(x.0, y.0);
        }
    } else if x.0 == y.0 && y.0 == z.0 {
        lemma_seq_leq_transitive(x.1, y.1, z.1);
    }
}

proof fn lemma_group_shape(s: Seq<Triple>)
    requires
        triples_sorted(s),
    ensures
        ({
            let g = group_by_namespace(s);
            &&& forall|i: int, j: int|
                0 <= i < j < g.len() ==> (#[trigger] g[i]).0 != (#[trigger] g[j]).0 && seq_leq(
                    g[i].0,
                    g[j].0,
                )
            &&& forall|i: int|
                0 <= i < g.len() ==> (#[trigger] g[i]).1.len() > 0 && pairs_sorted(g[i].1)
        }),
    decreases s.len(),
{
    if s.len() > 0 {
        let d = s.drop_last();
        assert forall|i: int, j: int| 0 <= i < j < d.len() implies triple_leq(
            #[trigger] d[i],
            #[trigger] d[j],
        ) by {
            assert(d[i] == s[i] && d[j] == s[j]);
        }
        lemma_group_shape(d);
        lemma_group_basic(d);
        let g = group_by_namespace(d);
        let ng = group_by_namespace(s);
        let t = s.last();
        let p = (t.1, t.2);
        if d.len() > 0 {
            assert(triple_leq(s[s.len() - 2], s[s.len() - 1]));
            assert(s[s.len() - 2] == d.last());
        }
        if g.len() > 0 && g.last().0 == t.0 {
            let ps = g.last().1;
            let lastp = ps.last();
            assert(lastp == (d.last().1, d.last().2));
            assert(pair_leq(lastp, p));
            assert(pairs_sorted(ps)) by {
                assert(g[g.len() - 1] == g.last());
            }
            assert forall|i: int, j: int| 0 <= i < j < ps.push(p).len() implies pair_leq(
                #[trigger] ps.push(p)[i],
                #[trigger] ps.push(p)[j],
            ) by {
                if j == ps.len() {
                    if i < ps.len() - 1 {
                        assert(pair_leq(ps[i], ps[ps.len() - 1]));
                        lemma_pair_transitive(ps[i], lastp, p);
                    }
                } else {
                    assert(pair_leq(ps[i], ps[j]));
                }
            }
            assert forall|i: int| 0 <= i < ng.len() implies (#[trigger] ng[i]).1.len() > 0
                && pairs_sorted(ng[i].1) by {
                if i < g.len() - 1 {
                    assert(ng[i] == g[i]);
                }
            }
            assert forall|i: int, j: int| 0 <= i < j < ng.len() implies (#[trigger] ng[i]).0 != (
            #[trigger] ng[j]).0 && seq_leq(ng[i].0, ng[j].0) by {
                assert(ng[i].0 == g[i].0 && ng[j].0 == g[j].0);
            }
        } else {
            assert forall|i: int| 0 <= i < ng.len() implies (#[trigger] ng[i]).1.len() > 0
                && pairs_sorted(ng[i].1) by {
                if i < g.len() {
                    assert(ng[i] == g[i]);
                }
            }
            assert forall|i: int, j: int| 0 <= i < j < ng.len() implies (#[trigger] ng[i]).0 != (
            #[trigger] ng[j]).0 && seq_leq(ng[i].0, ng[j].0) by {
                assert(ng[i] == g[i]);
                if j < g.len() {
                    assert(ng[j] == g[j]);
                } else {
                    // The new group: its namespace comes after that of the last group.
                    let last = g.last().0;
                    assert(last == d.last().0);
                    assert(last != t.0);
                    assert(seq_leq(last, t.0));
                    if i < g.len() - 1 {
                        assert(g[g.len() - 1] == g.last());
                        assert(seq_leq(g[i].0, last));
                        lemma_seq_leq_transitive(g[i].0, last, t.0);
                        if g[i].0 == t.0 {
                            lemma_seq_leq_antisymmetric(last, t.0);
                        }
                    } else {
                        assert(g[i] == g.last());
                    }
                }
            }
        }
    }
}

/// The shape of the XFCP file: after the header it holds one block per
/// namespace of the proxies, namespaces in ascending order and each once; a
/// block is the namespace's opening line (`namespace {` for the global one),
/// the stub lines of its proxies in ascending (short name, parent) order, and a
/// closing `}` with an empty line; the blocks hold exactly the contract's
/// proxies. So the file does not depend on the order of the class extensions.
pub proof fn law_xfcp_grouping(c: Contract)
    ensures
        ({
            let g = group_by_namespace(sorted_triples(c));
            &&& render_spec(c, Target::Xfcp, EntityMode::Redeclare) == banner_spec(header_extra())
                + blocks_text(g)
            &&& forall|i: int, j: int|
                0 <= i < j < g.len() ==> (#[trigger] g[i]).0 != (#[trigger] g[j]).0 && seq_leq(
                    g[i].0,
                    g[j].0,
                )
            &&& forall|i: int|
                0 <= i < g.len() ==> (#[trigger] g[i]).1.len() > 0 && pairs_sorted(g[i].1)
            &&& flatten_groups(g).to_multiset() == extension_triples(c).to_multiset()
        }),
{
    let s = sorted_triples(c);
    let leq = |x: Triple, y: Triple| triple_leq(x, y);
    lemma_triple_leq_total_ordering();
    extension_triples(c).lemma_sort_by_ensures(leq);
    assert forall|i: int, j: int| 0 <= i < j < s.len() implies triple_leq(
        #[trigger] s[i],
        #[trigger] s[j],
    ) by {
        assert(leq(s[i], s[j]));
    }
    lemma_group_basic(s);
    lemma_group_shape(s);
    let g = group_by_namespace(s);
    if s.len() > 0 {
        assert(blocks_text(g) == blocks_text(g.drop_last()) + namespace_block(
            g.last().0,
            g.last().1,
        ));
        assert(groups_text(s) =~= blocks_text(g));
    } else {
        assert(groups_text(s) =~= blocks_text(g));
    }
}

} // verus!
