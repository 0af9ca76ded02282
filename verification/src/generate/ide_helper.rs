//! `_ide_helper.php`: typed finder and collection stubs for every entity, and
//! the entities' `@property` lines, either as redeclared entity classes or as
//! `@mixin` target classes.

use super::xfcp::namespace_open;
use super::{banner, banner_spec, EntityMode};
use crate::contract::{
    column_at, column_count, column_entries, entity_at, entity_count, entity_entries, getter_at,
    getter_count, getter_entries, relation_at, relation_count, relation_entries, Cardinality,
    Column, Contract, Entity, Getter, Relation,
};
use crate::php::{
    collection_stub_ident, finder_stub_ident, fqcn, fqcn_spec, ident_spec, mixin_target_ident,
    split_class, split_class_spec, with_nullable, with_nullable_spec,
};
use crate::text::{indent_lines, indent_lines_spec, str_eq};
use indexmap::IndexMap;
use vstd::prelude::*;

verus! {

/// The comment lines of the file header.
pub open spec fn header_extra() -> Seq<char> {
    " *\n * Exclude it from your project's PHP autoload so it is never included at\n * runtime (it re-declares real classes for completion only).\n"@
}

pub open spec fn base_entity() -> Seq<char> {
    "\\XF\\Mvc\\Entity\\Entity"@
}

pub open spec fn base_collection() -> Seq<char> {
    "\\XF\\Mvc\\Entity\\AbstractCollection"@
}

/// The typed collection stub of an entity.
pub open spec fn collection_stub_spec(e: Entity) -> Seq<char> {
    let ec = fqcn_spec(e.class@);
    let c = "Collection_"@ + ident_spec(e.short_name@);
    "\t/**\n\t * @method "@ + ec + "|null first()\n\t * @method "@ + ec
        + "|null last()\n\t * @method "@ + ec + "[] toArray()\n\t * @method \\ArrayIterator<int, "@
        + ec + "> getIterator()\n\t * @method \\XFIDEHelper\\"@ + c
        + " filter(\\Closure $callback)\n\t * @method \\XFIDEHelper\\"@ + c
        + " slice($offset, $length = null, $preserveKeys = true)\n\t * @method \\XFIDEHelper\\"@ + c
        + " reverse($preserveKeys = true)\n\t */\n\tclass "@ + c
        + " extends \\XF\\Mvc\\Entity\\ArrayCollection {}\n\n"@
}

/// The parent of an entity's finder stub: its own finder, or XF's base finder.
pub open spec fn finder_parent(e: Entity) -> Seq<char> {
    match e.finder {
        Some(f) => fqcn_spec(f@),
        None => "\\XF\\Mvc\\Entity\\Finder"@,
    }
}

/// A `@method` line of a stub's doc comment.
pub open spec fn method_line(ret: Seq<char>, sig: Seq<char>) -> Seq<char> {
    "\t * @method "@ + ret + " "@ + sig + "\n"@
}

/// Lines written one after the other.
pub open spec fn concat_lines(ls: Seq<Seq<char>>) -> Seq<char>
    decreases ls.len(),
{
    if ls.len() == 0 {
        Seq::empty()
    } else {
        concat_lines(ls.drop_last()) + ls.last()
    }
}

/// The `@method` lines of an entity's finder stub: `fetchOne` gives the entity,
/// `fetch` and `fetchByIds` its typed collection, and the query builders the
/// finder stub itself.
pub open spec fn finder_methods(e: Entity) -> Seq<Seq<char>> {
    let ec = fqcn_spec(e.class@);
    let c = "\\XFIDEHelper\\"@ + ("Collection_"@ + ident_spec(e.short_name@));
    let s = "\\XFIDEHelper\\"@ + ("Finder_"@ + ident_spec(e.short_name@));
    seq![
        method_line(ec + "|null"@, "fetchOne(?int $offset = null)"@),
        method_line(c, "fetch(?int $limit = null, ?int $offset = null)"@),
        method_line(c, "fetchByIds(array $ids)"@),
        method_line(s, "where($condition, $operator = null, $value = null)"@),
        method_line(s, "whereOr(array $conditionA, array $conditionB = null)"@),
        method_line(s, "whereId($id)"@),
        method_line(s, "whereSql($sql)"@),
        method_line(s, "with($name, $mustExist = false)"@),
        method_line(s, "order($field, $direction = 'ASC')"@),
        method_line(s, "setDefaultOrder($field, $direction = 'ASC')"@),
        method_line(s, "limit($limit, $offset = null)"@),
        method_line(s, "limitByPage($page, $perPage, $thisPageExtra = 0)"@),
        method_line(s, "keyedBy($keyedBy)"@),
    ]
}

/// The typed finder stub of an entity.
pub open spec fn finder_stub_spec(e: Entity) -> Seq<char> {
    "\t/**\n"@ + concat_lines(finder_methods(e)) + "\t */\n\tclass "@ + ("Finder_"@ + ident_spec(
        e.short_name@,
    )) + " extends "@ + finder_parent(e) + " {}\n\n"@
}

/// The collection and finder stubs of entities, in contract order.
pub open spec fn stubs_body(es: Seq<(Seq<char>, Entity)>) -> Seq<char>
    decreases es.len(),
{
    if es.len() == 0 {
        Seq::empty()
    } else {
        stubs_body(es.drop_last()) + collection_stub_spec(es.last().1) + finder_stub_spec(
            es.last().1,
        )
    }
}

pub open spec fn helper_stubs_spec(es: Seq<(Seq<char>, Entity)>) -> Seq<char> {
    "namespace XFIDEHelper {\n"@ + stubs_body(es) + "}\n"@
}

/// A `@property` line.
pub open spec fn property_spec(ty: Seq<char>, name: Seq<char>) -> Seq<char> {
    "@property "@ + ty + " $"@ + name
}

/// The PHP type of a relation property.
pub open spec fn relation_type_spec(rel: Relation) -> Seq<char> {
    match rel.to {
        Cardinality::One => match rel.class {
            Some(c) => fqcn_spec(c@) + "|null"@,
            None => base_entity() + "|null"@,
        },
        Cardinality::Many => match rel.class {
            Some(c) => base_collection() + "|"@ + fqcn_spec(c@) + "[]"@,
            None => base_collection(),
        },
    }
}

/// Whether the entity has a getter called `name`.
pub open spec fn has_getter(gs: Seq<(Seq<char>, Getter)>, name: Seq<char>) -> bool {
    exists|j: int| 0 <= j < gs.len() && (#[trigger] gs[j]).0 == name
}

/// The property name of a column or relation: a getter of the same name
/// shadows it, so it is reached through `name_` instead.
pub open spec fn bypass_spec(name: Seq<char>, gs: Seq<(Seq<char>, Getter)>) -> Seq<char> {
    if has_getter(gs, name) {
        name + "_"@
    } else {
        name
    }
}

pub open spec fn column_lines(cols: Seq<(Seq<char>, Column)>, gs: Seq<(Seq<char>, Getter)>) -> Seq<
    Seq<char>,
> {
    Seq::new(
        cols.len(),
        |i: int|
            property_spec(
                with_nullable_spec(cols[i].1.php_type@, cols[i].1.nullable),
                bypass_spec(cols[i].0, gs),
            ),
    )
}

pub open spec fn getter_lines(gs: Seq<(Seq<char>, Getter)>) -> Seq<Seq<char>> {
    Seq::new(gs.len(), |i: int| property_spec(gs[i].1.php_type@, gs[i].0))
}

pub open spec fn relation_lines(rels: Seq<(Seq<char>, Relation)>, gs: Seq<(Seq<char>, Getter)>) -> Seq<
    Seq<char>,
> {
    Seq::new(
        rels.len(),
        |i: int| property_spec(relation_type_spec(rels[i].1), bypass_spec(rels[i].0, gs)),
    )
}

/// A labelled section when it has lines, nothing otherwise.
pub open spec fn section_if(label: Seq<char>, lines: Seq<Seq<char>>) -> Seq<(Seq<char>, Seq<Seq<char>>)> {
    if lines.len() > 0 {
        seq![(label, lines)]
    } else {
        Seq::empty()
    }
}

/// The property sections of an entity: columns, getters, relations, each only
/// when the entity has some.
pub open spec fn sections_spec(e: Entity) -> Seq<(Seq<char>, Seq<Seq<char>>)> {
    let gs = getter_entries(e.getters);
    section_if("COLUMNS"@, column_lines(column_entries(e.columns), gs)) + section_if(
        "GETTERS"@,
        getter_lines(gs),
    ) + section_if("RELATIONS"@, relation_lines(relation_entries(e.relations), gs))
}

/// The doc-comment lines of a section's properties.
pub open spec fn doc_lines(lines: Seq<Seq<char>>) -> Seq<char>
    decreases lines.len(),
{
    if lines.len() == 0 {
        Seq::empty()
    } else {
        doc_lines(lines.drop_last()) + " * "@ + lines.last() + "\n"@
    }
}

/// The doc-comment body for sections, with an empty ` *` line between sections.
pub open spec fn property_doc_spec(sections: Seq<(Seq<char>, Seq<Seq<char>>)>) -> Seq<char>
    decreases sections.len(),
{
    if sections.len() == 0 {
        Seq::empty()
    } else {
        property_doc_spec(sections.drop_last()) + (if sections.len() > 1 {
            " *\n"@
        } else {
            Seq::empty()
        }) + " * "@ + sections.last().0 + "\n"@ + doc_lines(sections.last().1)
    }
}

/// The doc comment of an entity's properties, indented by one tab.
pub open spec fn entity_doc(e: Entity) -> Seq<char> {
    "\t/**\n"@ + indent_lines_spec(property_doc_spec(sections_spec(e))) + "\t */\n"@
}

/// The redeclaration of an entity class with its properties.
pub open spec fn entity_stub_spec(e: Entity) -> Seq<char> {
    let (ns, short_class) = split_class_spec(e.class@);
    namespace_open(ns) + entity_doc(e) + "\tclass "@ + short_class
        + " extends \\XF\\Mvc\\Entity\\Entity {}\n}\n"@
}

/// The redeclared entities, in contract order.
pub open spec fn redeclare_body(es: Seq<(Seq<char>, Entity)>) -> Seq<char>
    decreases es.len(),
{
    if es.len() == 0 {
        Seq::empty()
    } else {
        redeclare_body(es.drop_last()) + entity_stub_spec(es.last().1) + "\n"@
    }
}

/// The `@mixin` targets of entities, in contract order.
pub open spec fn mixin_body(es: Seq<(Seq<char>, Entity)>) -> Seq<char>
    decreases es.len(),
{
    if es.len() == 0 {
        Seq::empty()
    } else {
        mixin_body(es.drop_last()) + entity_doc(es.last().1) + "\tclass "@ + ("Entity_"@
            + ident_spec(es.last().1.short_name@)) + " {}\n\n"@
    }
}

pub open spec fn mixin_targets_spec(es: Seq<(Seq<char>, Entity)>) -> Seq<char> {
    "namespace XFIDEHelper {\n"@ + mixin_body(es) + "}\n"@
}

pub open spec fn render_spec(c: Contract, mode: EntityMode) -> Seq<char> {
    let es = entity_entries(c.entities);
    banner_spec(header_extra()) + helper_stubs_spec(es) + "\n"@ + match mode {
        EntityMode::Redeclare => redeclare_body(es),
        EntityMode::Mixin => mixin_targets_spec(es),
    }
}

/// Renders `_ide_helper.php`.
pub fn render(contract: &Contract, mode: EntityMode) -> (out: String)
    ensures
        out@ == render_spec(*contract, mode),
{
    let mut out = banner(
        " *\n * Exclude it from your project's PHP autoload so it is never included at\n * runtime (it re-declares real classes for completion only).\n",
    );
    let stubs = helper_stubs(contract);
    out.append(stubs.as_str());
    out.append("\n");
    let ghost es = entity_entries(contract.entities);
    match mode {
        EntityMode::Redeclare => {
            let ghost head = out@;
            let n = entity_count(&contract.entities);
            let mut i: usize = 0;
            while i < n
                invariant
                    n == es.len(),
                    es == entity_entries(contract.entities),
                    i <= n,
                    out@ =~= head + redeclare_body(es.take(i as int)),
                decreases n - i,
            {
                let (_short, entity) = entity_at(&contract.entities, i);
                let block = entity_stub(entity);
                out.append(block.as_str());
                out.append("\n");
                proof {
                    assert(es.take(i + 1).drop_last() =~= es.take(i as int));
                }
                i = i + 1;
            }
            proof {
                assert(es.take(n as int) =~= es);
            }
        },
        EntityMode::Mixin => {
            let targets = mixin_targets(contract);
            out.append(targets.as_str());
        },
    }
    out
}

/// The doc comment of an entity's properties, indented by one tab.
fn entity_doc_block(entity: &Entity) -> (out: String)
    ensures
        out@ == entity_doc(*entity),
{
    let sections = property_sections(entity);
    let doc = property_doc(&sections);
    let mut out = String::from_str("\t/**\n");
    let lines = indent_lines(doc.as_str());
    out.append(lines.as_str());
    out.append("\t */\n");
    out
}

/// The `@mixin` target classes of all entities.
pub fn mixin_targets(contract: &Contract) -> (body: String)
    ensures
        body@ == mixin_targets_spec(entity_entries(contract.entities)),
{
    let ghost es = entity_entries(contract.entities);
    let mut body = String::from_str("namespace XFIDEHelper {\n");
    let ghost head = body@;
    let n = entity_count(&contract.entities);
    let mut i: usize = 0;
    while i < n
        invariant
            n == es.len(),
            es == entity_entries(contract.entities),
            i <= n,
            body@ =~= head + mixin_body(es.take(i as int)),
        decreases n - i,
    {
        let (_short, entity) = entity_at(&contract.entities, i);
        let doc = entity_doc_block(entity);
        body.append(doc.as_str());
        body.append("\tclass ");
        let id = mixin_target_ident(entity.short_name.as_str());
        body.append(id.as_str());
        body.append(" {}\n\n");
        proof {
            assert(es.take(i + 1).drop_last() =~= es.take(i as int));
        }
        i = i + 1;
    }
    proof {
        assert(es.take(n as int) =~= es);
    }
    body.append("}\n");
    body
}

/// The collection and finder stubs of all entities.
pub fn helper_stubs(contract: &Contract) -> (body: String)
    ensures
        body@ == helper_stubs_spec(entity_entries(contract.entities)),
{
    let ghost es = entity_entries(contract.entities);
    let mut body = String::from_str("namespace XFIDEHelper {\n");
    let ghost head = body@;
    let n = entity_count(&contract.entities);
    let mut i: usize = 0;
    while i < n
        invariant
            n == es.len(),
            es == entity_entries(contract.entities),
            i <= n,
            body@ =~= head + stubs_body(es.take(i as int)),
        decreases n - i,
    {
        let (_short, entity) = entity_at(&contract.entities, i);
        let c = collection_stub(entity);
        body.append(c.as_str());
        let f = finder_stub(entity);
        body.append(f.as_str());
        proof {
            assert(es.take(i + 1).drop_last() =~= es.take(i as int));
        }
        i = i + 1;
    }
    proof {
        assert(es.take(n as int) =~= es);
    }
    body.append("}\n");
    body
}

/// The typed collection stub of an entity.
pub fn collection_stub(entity: &Entity) -> (out: String)
    ensures
        out@ == collection_stub_spec(*entity),
{
    let e = fqcn(entity.class.as_str());
    let c = collection_stub_ident(entity.short_name.as_str());
    let mut out = String::from_str("\t/**\n\t * @method ");
    out.append(e.as_str());
    out.append("|null first()\n\t * @method ");
    out.append(e.as_str());
    out.append("|null last()\n\t * @method ");
    out.append(e.as_str());
    out.append("[] toArray()\n\t * @method \\ArrayIterator<int, ");
    out.append(e.as_str());
    out.append("> getIterator()\n\t * @method \\XFIDEHelper\\");
    out.append(c.as_str());
    out.append(" filter(\\Closure $callback)\n\t * @method \\XFIDEHelper\\");
    out.append(c.as_str());
    out.append(" slice($offset, $length = null, $preserveKeys = true)\n\t * @method \\XFIDEHelper\\");
    out.append(c.as_str());
    out.append(" reverse($preserveKeys = true)\n\t */\n\tclass ");
    out.append(c.as_str());
    out.append(" extends \\XF\\Mvc\\Entity\\ArrayCollection {}\n\n");
    out
}

/// A `@method` line of a stub's doc comment.
pub fn method_line_text(ret: &str, sig: &str) -> (out: String)
    ensures
        out@ == method_line(ret@, sig@),
{
    let mut out = String::from_str("\t * @method ");
    out.append(ret);
    out.append(" ");
    out.append(sig);
    out.append("\n");
    out
}

/// The typed finder stub of an entity.
pub fn finder_stub(entity: &Entity) -> (out: String)
    ensures
        out@ == finder_stub_spec(*entity),
{
    let parent = match &entity.finder {
        Some(f) => fqcn(f.as_str()),
        None => String::from_str("\\XF\\Mvc\\Entity\\Finder"),
    };
    let mut e = fqcn(entity.class.as_str());
    e.append("|null");
    let mut c = String::from_str("\\XFIDEHelper\\");
    let cid = collection_stub_ident(entity.short_name.as_str());
    c.append(cid.as_str());
    let mut s = String::from_str("\\XFIDEHelper\\");
    let sid = finder_stub_ident(entity.short_name.as_str());
    s.append(sid.as_str());
    let lines: Vec<String> = vec![
        method_line_text(e.as_str(), "fetchOne(?int $offset = null)"),
        method_line_text(c.as_str(), "fetch(?int $limit = null, ?int $offset = null)"),
        method_line_text(c.as_str(), "fetchByIds(array $ids)"),
        method_line_text(s.as_str(), "where($condition, $operator = null, $value = null)"),
        method_line_text(s.as_str(), "whereOr(array $conditionA, array $conditionB = null)"),
        method_line_text(s.as_str(), "whereId($id)"),
        method_line_text(s.as_str(), "whereSql($sql)"),
        method_line_text(s.as_str(), "with($name, $mustExist = false)"),
        method_line_text(s.as_str(), "order($field, $direction = 'ASC')"),
        method_line_text(s.as_str(), "setDefaultOrder($field, $direction = 'ASC')"),
        method_line_text(s.as_str(), "limit($limit, $offset = null)"),
        method_line_text(s.as_str(), "limitByPage($page, $perPage, $thisPageExtra = 0)"),
        method_line_text(s.as_str(), "keyedBy($keyedBy)"),
    ];
    let ghost ls = finder_methods(*entity);
    assert(lines@.map_values(|l: String| l@) =~= ls);
    let mut out = String::from_str("\t/**\n");
    let ghost head = out@;
    let n = lines.len();
    let mut i: usize = 0;
    while i < n
        invariant
            n == lines@.len(),
            lines@.map_values(|l: String| l@) == ls,
            i <= n,
            out@ =~= head + concat_lines(ls.take(i as int)),
        decreases n - i,
    {
        out.append(lines[i].as_str());
        proof {
            assert(ls.take(i + 1).drop_last() =~= ls.take(i as int));
            assert(ls[i as int] == lines@[i as int]@);
        }
        i = i + 1;
    }
    proof {
        assert(ls.take(n as int) =~= ls);
    }
    out.append("\t */\n\tclass ");
    out.append(sid.as_str());
    out.append(" extends ");
    out.append(parent.as_str());
    out.append(" {}\n\n");
    out
}

/// The redeclaration of an entity's class, with its properties.
pub fn entity_stub(entity: &Entity) -> (block: String)
    ensures
        block@ == entity_stub_spec(*entity),
{
    let (namespace, short_class) = split_class(entity.class.as_str());
    let mut block = String::new();
    if namespace.as_str().unicode_len() == 0 {
        block.append("namespace {\n");
    } else {
        block.append("namespace ");
        block.append(namespace.as_str());
        block.append(" {\n");
    }
    let doc = entity_doc_block(entity);
    block.append(doc.as_str());
    block.append("\tclass ");
    block.append(short_class.as_str());
    block.append(" extends \\XF\\Mvc\\Entity\\Entity {}\n}\n");
    proof {
        assert(block@ =~= entity_stub_spec(*entity));
    }
    block
}

pub open spec fn sections_view(v: Seq<(&'static str, Vec<String>)>) -> Seq<(Seq<char>, Seq<Seq<char>>)> {
    v.map_values(|p: (&'static str, Vec<String>)| (p.0@, p.1@.map_values(|s: String| s@)))
}

pub open spec fn strings_view(v: Seq<String>) -> Seq<Seq<char>> {
    v.map_values(|s: String| s@)
}

/// The property sections of an entity.
pub fn property_sections(entity: &Entity) -> (sections: Vec<(&'static str, Vec<String>)>)
    ensures
        sections_view(sections@) == sections_spec(*entity),
{
    let ghost gs = getter_entries(entity.getters);
    let ghost cols = column_entries(entity.columns);
    let ghost rels = relation_entries(entity.relations);
    let mut sections: Vec<(&'static str, Vec<String>)> = Vec::new();

    let nc = column_count(&entity.columns);
    if nc > 0 {
        let mut lines: Vec<String> = Vec::new();
        let mut i: usize = 0;
        while i < nc
            invariant
                nc == cols.len(),
                cols == column_entries(entity.columns),
                gs == getter_entries(entity.getters),
                i <= nc,
                strings_view(lines@) =~= column_lines(cols, gs).take(i as int),
            decreases nc - i,
        {
            let (name, col) = column_at(&entity.columns, i);
            let ty = with_nullable(col.php_type.as_str(), col.nullable);
            let n = bypass_name(name.as_str(), &entity.getters);
            let ghost before = lines@;
            let line = property(ty.as_str(), n.as_str());
            proof {
                assert(line@ == column_lines(cols, gs)[i as int]);
            }
            lines.push(line);
            proof {
                assert(lines@ =~= before.push(line));
                assert(column_lines(cols, gs).take(i + 1) =~= column_lines(cols, gs).take(
                    i as int,
                ).push(line@));
            }
            i = i + 1;
        }
        proof {
            assert(column_lines(cols, gs).take(nc as int) =~= column_lines(cols, gs));
        }
        sections.push(("COLUMNS", lines));
    }
    let ghost s0 = sections_view(sections@);
    assert(s0 =~= section_if("COLUMNS"@, column_lines(cols, gs)));

    let ng = getter_count(&entity.getters);
    if ng > 0 {
        let mut lines: Vec<String> = Vec::new();
        let mut i: usize = 0;
        while i < ng
            invariant
                ng == gs.len(),
                gs == getter_entries(entity.getters),
                i <= ng,
                strings_view(lines@) =~= getter_lines(gs).take(i as int),
            decreases ng - i,
        {
            let (name, getter) = getter_at(&entity.getters, i);
            let ghost before = lines@;
            let line = property(getter.php_type.as_str(), name.as_str());
            proof {
                assert(line@ == getter_lines(gs)[i as int]);
            }
            lines.push(line);
            proof {
                assert(lines@ =~= before.push(line));
                assert(getter_lines(gs).take(i + 1) =~= getter_lines(gs).take(i as int).push(
                    line@,
                ));
            }
            i = i + 1;
        }
        proof {
            assert(getter_lines(gs).take(ng as int) =~= getter_lines(gs));
        }
        sections.push(("GETTERS", lines));
    }
    let ghost s1 = sections_view(sections@);
    assert(s1 =~= s0 + section_if("GETTERS"@, getter_lines(gs)));

    let nr = relation_count(&entity.relations);
    if nr > 0 {
        let mut lines: Vec<String> = Vec::new();
        let mut i: usize = 0;
        while i < nr
            invariant
                nr == rels.len(),
                rels == relation_entries(entity.relations),
                gs == getter_entries(entity.getters),
                i <= nr,
                strings_view(lines@) =~= relation_lines(rels, gs).take(i as int),
            decreases nr - i,
        {
            let (name, rel) = relation_at(&entity.relations, i);
            let ty = relation_type(rel);
            let n = bypass_name(name.as_str(), &entity.getters);
            let ghost before = lines@;
            let line = property(ty.as_str(), n.as_str());
            proof {
                assert(line@ == relation_lines(rels, gs)[i as int]);
            }
            lines.push(line);
            proof {
                assert(lines@ =~= before.push(line));
                assert(relation_lines(rels, gs).take(i + 1) =~= relation_lines(rels, gs).take(
                    i as int,
                ).push(line@));
            }
            i = i + 1;
        }
        proof {
            assert(relation_lines(rels, gs).take(nr as int) =~= relation_lines(rels, gs));
        }
        sections.push(("RELATIONS", lines));
    }
    assert(sections_view(sections@) =~= s1 + section_if(
        "RELATIONS"@,
        relation_lines(rels, gs),
    ));
    sections
}

/// A `@property` line.
pub fn property(ty: &str, name: &str) -> (out: String)
    ensures
        out@ == property_spec(ty@, name@),
{
    let mut out = String::from_str("@property ");
    out.append(ty);
    out.append(" $");
    out.append(name);
    out
}

/// The PHP type of a relation property.
pub fn relation_type(rel: &Relation) -> (out: String)
    ensures
        out@ == relation_type_spec(*rel),
{
    match rel.to {
        Cardinality::One => match &rel.class {
            Some(class) => {
                let mut out = fqcn(class.as_str());
                out.append("|null");
                out
            },
            None => {
                let mut out = String::from_str("\\XF\\Mvc\\Entity\\Entity");
                out.append("|null");
                out
            },
        },
        Cardinality::Many => match &rel.class {
            Some(class) => {
                let mut out = String::from_str("\\XF\\Mvc\\Entity\\AbstractCollection");
                out.append("|");
                let f = fqcn(class.as_str());
                out.append(f.as_str());
                out.append("[]");
                out
            },
            None => String::from_str("\\XF\\Mvc\\Entity\\AbstractCollection"),
        },
    }
}

/// The doc-comment body for property sections.
pub fn property_doc(sections: &Vec<(&'static str, Vec<String>)>) -> (doc: String)
    ensures
        doc@ == property_doc_spec(sections_view(sections@)),
{
    let ghost ss = sections_view(sections@);
    let mut doc = String::new();
    let n = sections.len();
    let mut i: usize = 0;
    while i < n
        invariant
            n == sections@.len(),
            ss == sections_view(sections@),
            i <= n,
            doc@ =~= property_doc_spec(ss.take(i as int)),
        decreases n - i,
    {
        let (label, lines) = &sections[i];
        if i > 0 {
            doc.append(" *\n");
        }
        doc.append(" * ");
        doc.append(label);
        doc.append("\n");
        let ghost ls = strings_view(lines@);
        let ghost mid = doc@;
        let m = lines.len();
        let mut j: usize = 0;
        while j < m
            invariant
                m == lines@.len(),
                ls == strings_view(lines@),
                j <= m,
                doc@ =~= mid + doc_lines(ls.take(j as int)),
            decreases m - j,
        {
            doc.append(" * ");
            doc.append(lines[j].as_str());
            doc.append("\n");
            proof {
                assert(ls.take(j + 1).drop_last() =~= ls.take(j as int));
            }
            j = j + 1;
        }
        proof {
            assert(ls.take(m as int) =~= ls);
            assert(ss.take(i + 1).drop_last() =~= ss.take(i as int));
            assert(ss[i as int].1 == ls);
        }
        i = i + 1;
    }
    proof {
        assert(ss.take(n as int) =~= ss);
    }
    doc
}

/// `name`, or `name_` when a getter of that name shadows it.
pub fn bypass_name(name: &str, getters: &IndexMap<String, Getter>) -> (out: String)
    ensures
        out@ == bypass_spec(name@, getter_entries(*getters)),
{
    let ghost gs = getter_entries(*getters);
    let n = getter_count(getters);
    let mut i: usize = 0;
    while i < n
        invariant
            n == gs.len(),
            gs == getter_entries(*getters),
            i <= n,
            forall|j: int| 0 <= j < i ==> (#[trigger] gs[j]).0 != name@,
        decreases n - i,
    {
        let (key, _getter) = getter_at(getters, i);
        if str_eq(key.as_str(), name) {
            assert(gs[i as int].0 == name@);
            let mut out = String::from_str(name);
            out.append("_");
            return out;
        }
        i = i + 1;
    }
    String::from_str(name)
}

} // verus!
