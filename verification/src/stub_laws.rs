//! What the generated files and the command line promise to their users,
//! stated over the text they hold and the values they select.

use crate::cli::{resolve_entity_mode_spec, resolve_names, resolve_targets_spec, target_names};
use crate::contract::{entity_entries, Contract, Entity};
use crate::extract::{command_args_spec, words, ExtractOptions};
use crate::generate::ide_helper::{
    collection_stub_spec, concat_lines, finder_methods, finder_stub_spec, helper_stubs_spec,
    method_line, stubs_body,
};
use crate::generate::phpstorm_meta::{
    emit_spec, entity_items, map_text, overrides_text, repository_targets_spec, MapKind,
};
use crate::generate::{parse_entity_mode_spec, parse_target_spec, render_spec, EntityMode, Target};
use crate::laws::law_every_entity_resolves;
use crate::php::{class_const_spec, fqcn_spec, ident_spec, single_quoted_spec};
use crate::text::{is_ws, leading_ws, split_on, trailing_ws, trim};
use vstd::prelude::*;

verus! {

/// `needle` occurs in `hay` as a contiguous piece.
pub open spec fn contains_text(hay: Seq<char>, needle: Seq<char>) -> bool {
    exists|k: int|
        0 <= k && k + needle.len() <= hay.len() && #[trigger] hay.subrange(k, k + needle.len())
            == needle
}

pub proof fn lemma_contains_self(n: Seq<char>)
    ensures
        contains_text(n, n),
{
    assert(n.subrange(0int, 0int + n.len()) =~= n);
}

pub proof fn lemma_contains_left(a: Seq<char>, b: Seq<char>, n: Seq<char>)
    requires
        contains_text(a, n),
    ensures
        contains_text(a + b, n),
{
    let k = choose|k: int|
        0 <= k && k + n.len() <= a.len() && #[trigger] a.subrange(k, k + n.len()) == n;
    assert((a + b).subrange(k, k + n.len()) =~= a.subrange(k, k + n.len()));
}

pub proof fn lemma_contains_right(a: Seq<char>, b: Seq<char>, n: Seq<char>)
    requires
        contains_text(b, n),
    ensures
        contains_text(a + b, n),
{
    let k = choose|k: int|
        0 <= k && k + n.len() <= b.len() && #[trigger] b.subrange(k, k + n.len()) == n;
    let k2 = k + a.len();
    assert((a + b).subrange(k2, k2 + n.len()) =~= b.subrange(k, k + n.len()));
}

pub proof fn lemma_contains_trans(a: Seq<char>, b: Seq<char>, n: Seq<char>)
    requires
        contains_text(a, b),
        contains_text(b, n),
    ensures
        contains_text(a, n),
{
    let k = choose|k: int|
        0 <= k && k + b.len() <= a.len() && #[trigger] a.subrange(k, k + b.len()) == b;
    let j = choose|j: int|
        0 <= j && j + n.len() <= b.len() && #[trigger] b.subrange(j, j + n.len()) == n;
    assert(a.subrange(k + j, k + j + n.len()) =~= b.subrange(j, j + n.len()));
}

proof fn lemma_concat_lines_contains(ls: Seq<Seq<char>>, i: int)
    requires
        0 <= i < ls.len(),
    ensures
        contains_text(concat_lines(ls), ls[i]),
    decreases ls.len(),
{
    if i == ls.len() - 1 {
        lemma_contains_self(ls[i]);
        lemma_contains_right(concat_lines(ls.drop_last()), ls.last(), ls[i]);
    } else {
        assert(ls.drop_last()[i] == ls[i]);
        lemma_concat_lines_contains(ls.drop_last(), i);
        lemma_contains_left(concat_lines(ls.drop_last()), ls.last(), ls[i]);
    }
}

proof fn lemma_line_in_finder_stub(e: Entity, k: int)
    requires
        0 <= k < finder_methods(e).len(),
    ensures
        contains_text(finder_stub_spec(e), finder_methods(e)[k]),
{
    let ls = finder_methods(e);
    lemma_concat_lines_contains(ls, k);
    let head = "\t/**\n"@;
    let rest = "\t */\n\tclass "@ + ("Finder_"@ + ident_spec(e.short_name@)) + " extends "@
        + crate::generate::ide_helper::finder_parent(e) + " {}\n\n"@;
    lemma_contains_right(head, concat_lines(ls), ls[k]);
    lemma_contains_left(head + concat_lines(ls), rest, ls[k]);
    assert(finder_stub_spec(e) =~= head + concat_lines(ls) + rest);
}

proof fn lemma_stubs_in_body(es: Seq<(Seq<char>, Entity)>, i: int)
    requires
        0 <= i < es.len(),
    ensures
        contains_text(stubs_body(es), finder_stub_spec(es[i].1)),
        contains_text(stubs_body(es), collection_stub_spec(es[i].1)),
    decreases es.len(),
{
    let prev = stubs_body(es.drop_last());
    let c = collection_stub_spec(es.last().1);
    let f = finder_stub_spec(es.last().1);
    if i == es.len() - 1 {
        lemma_contains_self(f);
        lemma_contains_right(prev + c, f, f);
        lemma_contains_self(c);
        lemma_contains_right(prev, c, c);
        lemma_contains_left(prev + c, f, c);
    } else {
        assert(es.drop_last()[i] == es[i]);
        lemma_stubs_in_body(es.drop_last(), i);
        lemma_contains_left(prev, c, finder_stub_spec(es[i].1));
        lemma_contains_left(prev + c, f, finder_stub_spec(es[i].1));
        lemma_contains_left(prev, c, collection_stub_spec(es[i].1));
        lemma_contains_left(prev + c, f, collection_stub_spec(es[i].1));
    }
}

/// Every entity of the contract has its typed finder and collection stubs in
/// `_ide_helper.php`, in either entity mode.
pub proof fn law_every_entity_has_stubs(c: Contract, i: int, mode: EntityMode)
    requires
        0 <= i < entity_entries(c.entities).len(),
    ensures
        contains_text(
            render_spec(c, Target::IdeHelper, mode),
            finder_stub_spec(entity_entries(c.entities)[i].1),
        ),
        contains_text(
            render_spec(c, Target::IdeHelper, mode),
            collection_stub_spec(entity_entries(c.entities)[i].1),
        ),
{
    let es = entity_entries(c.entities);
    let e = es[i].1;
    lemma_stubs_in_body(es, i);
    let head = "namespace XFIDEHelper {\n"@;
    let tail = "}\n"@;
    let b = stubs_body(es);
    assert(helper_stubs_spec(es) == head + b + tail);
    lemma_contains_right(head, b, finder_stub_spec(e));
    lemma_contains_left(head + b, tail, finder_stub_spec(e));
    lemma_contains_right(head, b, collection_stub_spec(e));
    lemma_contains_left(head + b, tail, collection_stub_spec(e));
    let pre = crate::generate::banner_spec(crate::generate::ide_helper::header_extra());
    let h = helper_stubs_spec(es);
    let post = match mode {
        EntityMode::Redeclare => crate::generate::ide_helper::redeclare_body(es),
        EntityMode::Mixin => crate::generate::ide_helper::mixin_targets_spec(es),
    };
    assert(render_spec(c, Target::IdeHelper, mode) == pre + h + "\n"@ + post);
    lemma_contains_right(pre, h, finder_stub_spec(e));
    lemma_contains_left(pre + h, "\n"@, finder_stub_spec(e));
    lemma_contains_left(pre + h + "\n"@, post, finder_stub_spec(e));
    lemma_contains_right(pre, h, collection_stub_spec(e));
    lemma_contains_left(pre + h, "\n"@, collection_stub_spec(e));
    lemma_contains_left(pre + h + "\n"@, post, collection_stub_spec(e));
}

/// The doc line that types `method` (its whole signature) on the finder stub of
/// the entity with short name `short` as returning that same finder stub.
pub open spec fn finder_returning_line(short: Seq<char>, sig: Seq<char>) -> Seq<char> {
    "\t * @method \\XFIDEHelper\\Finder_"@ + ident_spec(short) + " "@ + sig + "\n"@
}

/// The doc line that types `method` on the finder stub as returning the
/// entity's collection stub.
pub open spec fn collection_returning_line(short: Seq<char>, sig: Seq<char>) -> Seq<char> {
    "\t * @method \\XFIDEHelper\\Collection_"@ + ident_spec(short) + " "@ + sig + "\n"@
}

/// The query-builder methods of XF's finder, with their signatures.
pub open spec fn query_builder_signatures() -> Seq<Seq<char>> {
    seq![
        "where($condition, $operator = null, $value = null)"@,
        "whereOr(array $conditionA, array $conditionB = null)"@,
        "whereId($id)"@,
        "whereSql($sql)"@,
        "with($name, $mustExist = false)"@,
        "order($field, $direction = 'ASC')"@,
        "setDefaultOrder($field, $direction = 'ASC')"@,
        "limit($limit, $offset = null)"@,
        "limitByPage($page, $perPage, $thisPageExtra = 0)"@,
        "keyedBy($keyedBy)"@,
    ]
}

proof fn lemma_finder_prefix(short: Seq<char>, sig: Seq<char>)
    ensures
        method_line("\\XFIDEHelper\\"@ + ("Finder_"@ + ident_spec(short)), sig)
            == finder_returning_line(short, sig),
        method_line("\\XFIDEHelper\\"@ + ("Collection_"@ + ident_spec(short)), sig)
            == collection_returning_line(short, sig),
{
    reveal_strlit("\t * @method ");
    reveal_strlit("\\XFIDEHelper\\");
    reveal_strlit("Finder_");
    reveal_strlit("Collection_");
    reveal_strlit("\t * @method \\XFIDEHelper\\Finder_");
    reveal_strlit("\t * @method \\XFIDEHelper\\Collection_");
    let id = ident_spec(short);
    assert("\t * @method "@ + ("\\XFIDEHelper\\"@ + ("Finder_"@ + id)) =~= "\t * @method \\XFIDEHelper\\Finder_"@
        + id);
    assert("\t * @method "@ + ("\\XFIDEHelper\\"@ + ("Collection_"@ + id))
        =~= "\t * @method \\XFIDEHelper\\Collection_"@ + id);
    assert(method_line("\\XFIDEHelper\\"@ + ("Finder_"@ + id), sig) =~= finder_returning_line(
        short,
        sig,
    ));
    assert(method_line("\\XFIDEHelper\\"@ + ("Collection_"@ + id), sig)
        =~= collection_returning_line(short, sig));
}

/// In every entity's finder stub, a fluent chain keeps its type: every
/// query-builder method returns the finder stub itself, `fetch` and
/// `fetchByIds` return the entity's typed collection, and `fetchOne` returns
/// the entity class or null; and the stub declares the class `Finder_<ident>`.
pub proof fn law_finder_stub_keeps_type(e: Entity)
    ensures
        forall|k: int|
            0 <= k < query_builder_signatures().len() ==> contains_text(
                finder_stub_spec(e),
                #[trigger] finder_returning_line(e.short_name@, query_builder_signatures()[k]),
            ),
        contains_text(
            finder_stub_spec(e),
            collection_returning_line(
                e.short_name@,
                "fetch(?int $limit = null, ?int $offset = null)"@,
            ),
        ),
        contains_text(
            finder_stub_spec(e),
            collection_returning_line(e.short_name@, "fetchByIds(array $ids)"@),
        ),
        contains_text(
            finder_stub_spec(e),
            "\t * @method "@ + fqcn_spec(e.class@) + "|null fetchOne(?int $offset = null)\n"@,
        ),
        contains_text(finder_stub_spec(e), "\tclass Finder_"@ + ident_spec(e.short_name@) + " extends "@),
{
    let ls = finder_methods(e);
    let short = e.short_name@;
    let id = ident_spec(short);
    let q = query_builder_signatures();
    assert forall|k: int| 0 <= k < q.len() implies contains_text(
        finder_stub_spec(e),
        #[trigger] finder_returning_line(short, q[k]),
    ) by {
        lemma_finder_prefix(short, q[k]);
        assert(ls[k + 3] == finder_returning_line(short, q[k]));
        lemma_line_in_finder_stub(e, k + 3);
    }
    lemma_finder_prefix(short, "fetch(?int $limit = null, ?int $offset = null)"@);
    lemma_line_in_finder_stub(e, 1);
    lemma_finder_prefix(short, "fetchByIds(array $ids)"@);
    lemma_line_in_finder_stub(e, 2);
    lemma_line_in_finder_stub(e, 0);
    reveal_strlit("|null");
    reveal_strlit(" ");
    reveal_strlit("fetchOne(?int $offset = null)");
    reveal_strlit("\n");
    reveal_strlit("|null fetchOne(?int $offset = null)\n");
    reveal_strlit("\t * @method ");
    let ec = fqcn_spec(e.class@);
    assert(ls[0] =~= "\t * @method "@ + ec + "|null fetchOne(?int $offset = null)\n"@);
    // The class line.
    reveal_strlit("\t */\n\tclass ");
    reveal_strlit("Finder_");
    reveal_strlit(" extends ");
    reveal_strlit("\tclass Finder_");
    let cls = "\t */\n\tclass "@ + ("Finder_"@ + id) + " extends "@;
    let needle = "\tclass Finder_"@ + id + " extends "@;
    assert(cls.subrange(5, cls.len() as int) =~= needle);
    assert(contains_text(cls, needle)) by {
        assert(cls.subrange(5, 5 + needle.len() as int) =~= needle);
    }
    let head = "\t/**\n"@ + concat_lines(ls);
    let rest = crate::generate::ide_helper::finder_parent(e) + " {}\n\n"@;
    lemma_contains_right(head, cls, needle);
    lemma_contains_left(head + cls, crate::generate::ide_helper::finder_parent(e), needle);
    lemma_contains_left(head + cls + crate::generate::ide_helper::finder_parent(e), " {}\n\n"@, needle);
    assert(finder_stub_spec(e) =~= head + cls + crate::generate::ide_helper::finder_parent(e)
        + " {}\n\n"@);
}

/// In `_ide_helper.php`, for every entity of the contract and in either entity
/// mode, each query-builder method of the entity's finder stub is typed as
/// returning that finder stub, so `\XF::finder('XF:User')->with(..)->where(..)`
/// keeps its type down to `fetchOne()`, which gives the entity class.
pub proof fn law_ide_helper_fluent_chain(c: Contract, i: int, mode: EntityMode, k: int)
    requires
        0 <= i < entity_entries(c.entities).len(),
        0 <= k < query_builder_signatures().len(),
    ensures
        ({
            let e = entity_entries(c.entities)[i].1;
            let text = render_spec(c, Target::IdeHelper, mode);
            &&& contains_text(
                text,
                finder_returning_line(e.short_name@, query_builder_signatures()[k]),
            )
            &&& contains_text(
                text,
                "\t * @method "@ + fqcn_spec(e.class@) + "|null fetchOne(?int $offset = null)\n"@,
            )
        }),
{
    let e = entity_entries(c.entities)[i].1;
    let text = render_spec(c, Target::IdeHelper, mode);
    law_every_entity_has_stubs(c, i, mode);
    law_finder_stub_keeps_type(e);
    lemma_contains_trans(
        text,
        finder_stub_spec(e),
        finder_returning_line(e.short_name@, query_builder_signatures()[k]),
    );
    lemma_contains_trans(
        text,
        finder_stub_spec(e),
        "\t * @method "@ + fqcn_spec(e.class@) + "|null fetchOne(?int $offset = null)\n"@,
    );
}

/// The call sites whose first argument names a repository.
pub open spec fn repository_call_sites() -> Seq<Seq<char>> {
    seq![
        "\\XF::repository(0)"@,
        "\\XF\\App::repository(0)"@,
        "\\XF\\Mvc\\Entity\\Manager::getRepository(0)"@,
        "\\XF\\Mvc\\Controller::repository(0)"@,
        "\\XF\\Mvc\\Entity\\Repository::repository(0)"@,
        "\\XF\\Mvc\\Entity\\Entity::repository(0)"@,
        "\\XF\\Service\\AbstractService::repository(0)"@,
        "\\XF\\Widget\\AbstractWidget::repository(0)"@,
        "\\XF\\ActivitySummary\\AbstractSection::repository(0)"@,
    ]
}

/// The `override(...)` line that resolves `site` through the map with body `map`.
pub open spec fn override_line(site: Seq<char>, map: Seq<char>) -> Seq<char> {
    "\toverride("@ + site + ", map([\n"@ + map + "\t]));\n"@
}

/// The line of a `map([...])` body that maps `key` to `value`.
pub open spec fn map_entry_line(key: Seq<char>, value: Seq<char>) -> Seq<char> {
    "\t\t\t"@ + key + " => "@ + value + ",\n"@
}

proof fn lemma_overrides_contain(targets: Seq<Seq<char>>, map: Seq<char>, k: int)
    requires
        0 <= k < targets.len(),
    ensures
        contains_text(overrides_text(targets, map), override_line(targets[k], map)),
    decreases targets.len(),
{
    let prev = overrides_text(targets.drop_last(), map);
    let last = override_line(targets.last(), map);
    assert(overrides_text(targets, map) =~= prev + last);
    if k == targets.len() - 1 {
        lemma_contains_self(last);
        lemma_contains_right(prev, last, last);
    } else {
        assert(targets.drop_last()[k] == targets[k]);
        lemma_overrides_contain(targets.drop_last(), map, k);
        lemma_contains_left(prev, last, override_line(targets[k], map));
    }
}

proof fn lemma_map_text_contains(entries: Seq<(Seq<char>, Seq<char>)>, j: int)
    requires
        0 <= j < entries.len(),
    ensures
        contains_text(map_text(entries), map_entry_line(entries[j].0, entries[j].1)),
    decreases entries.len(),
{
    let prev = map_text(entries.drop_last());
    let last = map_entry_line(entries.last().0, entries.last().1);
    assert(map_text(entries) =~= prev + last);
    if j == entries.len() - 1 {
        lemma_contains_self(last);
        lemma_contains_right(prev, last, last);
    } else {
        assert(entries.drop_last()[j] == entries[j]);
        lemma_map_text_contains(entries.drop_last(), j);
        lemma_contains_left(prev, last, map_entry_line(entries[j].0, entries[j].1));
    }
}

proof fn lemma_map_text_has(entries: Seq<(Seq<char>, Seq<char>)>, p: (Seq<char>, Seq<char>))
    requires
        entries.contains(p),
    ensures
        contains_text(map_text(entries), map_entry_line(p.0, p.1)),
{
    let j = choose|j: int| 0 <= j < entries.len() && entries[j] == p;
    lemma_map_text_contains(entries, j);
}

/// Whenever an entity of the contract has a repository, `.phpstorm.meta.php`
/// resolves every repository call site (`\XF::repository()`, the controller's
/// `$this->repository()`, and the others) through one map, and that map takes
/// both the entity's short name and the repository's `::class` to the
/// repository class.
pub proof fn law_repository_sites_resolve(c: Contract, i: int, mode: EntityMode, k: int)
    requires
        0 <= i < entity_entries(c.entities).len(),
        entity_entries(c.entities)[i].1.repository is Some,
        0 <= k < repository_call_sites().len(),
    ensures
        ({
            let es = entity_entries(c.entities);
            let map = map_text(entity_items(MapKind::Repository, es));
            let r = es[i].1.repository->0@;
            &&& contains_text(
                render_spec(c, Target::PhpstormMeta, mode),
                override_line(repository_call_sites()[k], map),
            )
            &&& contains_text(
                map,
                map_entry_line(single_quoted_spec(es[i].0), class_const_spec(r)),
            )
            &&& contains_text(map, map_entry_line(class_const_spec(r), class_const_spec(r)))
        }),
{
    let es = entity_entries(c.entities);
    let items = entity_items(MapKind::Repository, es);
    let map = map_text(items);
    let r = es[i].1.repository->0@;
    law_every_entity_resolves(c, i);
    lemma_map_text_has(items, (single_quoted_spec(es[i].0), class_const_spec(r)));
    lemma_map_text_has(items, (class_const_spec(r), class_const_spec(r)));
    assert(items.len() > 0) by {
        let j = choose|j: int|
            0 <= j < items.len() && items[j] == (single_quoted_spec(es[i].0), class_const_spec(r));
    }
    assert(repository_call_sites() =~= repository_targets_spec());
    let line = override_line(repository_call_sites()[k], map);
    lemma_overrides_contain(repository_targets_spec(), map, k);
    let ov = overrides_text(repository_targets_spec(), map);
    let label = "\t// "@ + "Repository resolution"@ + "\n"@;
    let block = emit_spec("Repository resolution"@, repository_targets_spec(), items);
    assert(block == label + ov + "\n"@);
    lemma_contains_right(label, ov, line);
    lemma_contains_left(label + ov, "\n"@, line);
    let pm = crate::generate::phpstorm_meta::render_spec(c);
    let ee = entity_entries(c.entities);
    let pre = crate::generate::banner_spec(""@) + "namespace PHPSTORM_META {\n\n"@ + emit_spec(
        "Entity resolution"@,
        crate::generate::phpstorm_meta::entity_targets_spec(),
        entity_items(MapKind::Entity, ee),
    ) + emit_spec(
        "Finder resolution"@,
        crate::generate::phpstorm_meta::finder_targets_spec(),
        entity_items(MapKind::Finder, ee),
    );
    let s1 = emit_spec(
        "Service resolution"@,
        crate::generate::phpstorm_meta::service_targets_spec(),
        crate::generate::phpstorm_meta::pair_items(crate::contract::string_entries(c.services)),
    );
    let s2 = emit_spec(
        "Captcha resolution"@,
        crate::generate::phpstorm_meta::captcha_targets_spec(),
        crate::generate::phpstorm_meta::pair_items(crate::contract::string_entries(c.captchas)),
    );
    assert(pm == pre + block + s1 + s2 + "}\n"@);
    lemma_contains_right(pre, block, line);
    lemma_contains_left(pre + block, s1, line);
    lemma_contains_left(pre + block + s1, s2, line);
    lemma_contains_left(pre + block + s1 + s2, "}\n"@, line);
}

/// The name by which a target is selected on the command line.
pub open spec fn target_name(t: Target) -> Seq<char> {
    match t {
        Target::IdeHelper => "ide-helper"@,
        Target::PhpstormMeta => "phpstorm-meta"@,
        Target::Xfcp => "xfcp"@,
        Target::Options => "options"@,
    }
}

proof fn lemma_split_without_sep(s: Seq<char>, sep: char)
    requires
        !s.contains(sep),
    ensures
        split_on(s, sep) == seq![s],
    decreases s.len(),
{
    if s.len() > 0 {
        assert(!s.drop_last().contains(sep)) by {
            if s.drop_last().contains(sep) {
                let j = choose|j: int| 0 <= j < s.drop_last().len() && s.drop_last()[j] == sep;
                assert(s[j] == sep);
            }
        }
        lemma_split_without_sep(s.drop_last(), sep);
        assert(s.last() != sep) by {
            assert(s[s.len() - 1] == s.last());
        }
        assert(s.drop_last().push(s.last()) =~= s);
        assert(seq![s.drop_last()].update(0, s.drop_last().push(s.last())) =~= seq![s]);
    } else {
        assert(s =~= Seq::<char>::empty());
    }
}

proof fn lemma_trim_unchanged(s: Seq<char>)
    requires
        s.len() > 0,
        !is_ws(s[0]),
        !is_ws(s.last()),
    ensures
        trim(s) == s,
{
    assert(leading_ws(s) == 0);
    assert(s.skip(0) =~= s);
    assert(trailing_ws(s) == 0);
    assert(s.take(s.len() as int) =~= s);
}

proof fn lemma_single_name(n: Seq<char>)
    requires
        n.len() > 0,
        !n.contains(','),
        !is_ws(n[0]),
        !is_ws(n.last()),
    ensures
        target_names(n) == seq![n],
{
    lemma_split_without_sep(n, ',');
    lemma_trim_unchanged(n);
    assert(target_names(n) =~= seq![n]);
}

proof fn lemma_target_names_distinct()
    ensures
        forall|t: Target, u: Target| #[trigger] target_name(t) == #[trigger] target_name(u) ==> t == u,
        forall|t: Target| (#[trigger] target_name(t)).len() > 0,
        forall|t: Target| !(#[trigger] target_name(t)).contains(','),
        forall|t: Target| !is_ws((#[trigger] target_name(t))[0]),
        forall|t: Target| !is_ws((#[trigger] target_name(t)).last()),
{
    reveal_strlit("ide-helper");
    reveal_strlit("phpstorm-meta");
    reveal_strlit("xfcp");
    reveal_strlit("options");
    assert forall|t: Target, u: Target| #[trigger] target_name(t) == #[trigger] target_name(u) implies t
        == u by {
        assert(target_name(t).len() == target_name(u).len());
    }
    assert forall|t: Target| !(#[trigger] target_name(t)).contains(',') by {
        let n = target_name(t);
        if n.contains(',') {
            let j = choose|j: int| 0 <= j < n.len() && n[j] == ',';
            assert(n[j] != ',');
        }
    }
}

/// Each target is selected by its own name, and by no other: parsing a name
/// gives target `t` exactly when the name is `t`'s, and `--targets` with that
/// one name selects `t` alone.
pub proof fn law_target_selected_by_name(t: Target, n: Seq<char>)
    ensures
        parse_target_spec(n) == Some(t) <==> n == target_name(t),
        resolve_targets_spec(Some(target_name(t))) == Ok::<Seq<Target>, Option<Seq<char>>>(seq![t]),
{
    lemma_target_names_distinct();
    assert(target_name(Target::IdeHelper) == "ide-helper"@);
    assert(target_name(Target::PhpstormMeta) == "phpstorm-meta"@);
    assert(target_name(Target::Xfcp) == "xfcp"@);
    assert(target_name(Target::Options) == "options"@);
    let name = target_name(t);
    lemma_single_name(name);
    assert(parse_target_spec(name) == Some(t));
    let names = seq![name];
    assert(names.drop_last() =~= Seq::<Seq<char>>::empty());
    assert(resolve_names(names.drop_last()) == Ok::<Seq<Target>, Seq<char>>(Seq::empty()));
    assert(Seq::<Target>::empty().push(t) =~= seq![t]);
    assert(resolve_names(names) == Ok::<Seq<Target>, Seq<char>>(seq![t]));
}

/// The name by which an entity mode is selected on the command line.
pub open spec fn entity_mode_name(m: EntityMode) -> Seq<char> {
    match m {
        EntityMode::Redeclare => "redeclare"@,
        EntityMode::Mixin => "mixin"@,
    }
}

/// Each entity mode is selected by its own name, and by no other; naming
/// `redeclare` selects what omitting `--entity-mode` selects.
pub proof fn law_entity_mode_selected_by_name(m: EntityMode, n: Seq<char>)
    ensures
        resolve_entity_mode_spec(Some(n)) == Some(m) <==> n == entity_mode_name(m),
        parse_entity_mode_spec(n) == Some(m) <==> n == entity_mode_name(m),
        resolve_entity_mode_spec(Some(entity_mode_name(EntityMode::Redeclare)))
            == resolve_entity_mode_spec(None),
{
    reveal_strlit("redeclare");
    reveal_strlit("mixin");
    assert("redeclare"@ != "mixin"@) by {
        assert("redeclare"@.len() != "mixin"@.len());
    }
}

/// Whether `o` is given, as a count.
pub open spec fn given<T>(o: Option<T>) -> int {
    if o is Some {
        1
    } else {
        0
    }
}

/// The arguments of the extractor command: the words of `--php-cmd` after the
/// program, then `--`; right after it the XenForo root whenever one is given,
/// whatever else is asked for; then `--addon=`, `--minify` and `--mixin=`, each
/// present exactly when it is asked for.
pub proof fn law_command_args_layout(opts: ExtractOptions)
    requires
        words(opts.php_cmd@).len() >= 1,
    ensures
        ({
            let a = command_args_spec(opts);
            let w = words(opts.php_cmd@).len() - 1;
            let after_root = w + 1 + given(opts.root);
            let after_addon = after_root + given(opts.addon);
            let after_minify = after_addon + (if opts.minify { 1int } else { 0 });
            &&& a.len() == after_minify + given(opts.mixin)
            &&& a.take(w) == words(opts.php_cmd@).drop_first()
            &&& a[w] == "--"@
            &&& (opts.root matches Some(r) ==> a[w + 1] == r@)
            &&& (opts.addon matches Some(x) ==> a[after_root] == "--addon="@ + x@)
            &&& (opts.minify ==> a[after_addon] == "--minify"@)
            &&& (opts.mixin matches Some(y) ==> a[after_minify] == "--mixin="@ + y@)
        }),
{
    let a = command_args_spec(opts);
    let w = words(opts.php_cmd@).len() - 1;
    assert(a.take(w) =~= words(opts.php_cmd@).drop_first());
}

} // verus!
