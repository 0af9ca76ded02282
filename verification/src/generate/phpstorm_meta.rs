//! `.phpstorm.meta.php`: `override(...)` maps that resolve the string and
//! `::class` arguments of XenForo's factory calls to concrete classes.

use super::{banner, banner_spec};
use crate::contract::{
    entity_at, entity_count, entity_entries as contract_entities, string_at, string_count,
    string_entries, Contract, Entity,
};
use crate::php::{class_const, class_const_spec, finder_stub_ident, ident_spec, single_quoted, single_quoted_spec};
use vstd::prelude::*;

verus! {

/// Call sites that return an entity.
pub open spec fn entity_targets_spec() -> Seq<Seq<char>> {
    seq![
        "\\XF\\Mvc\\Entity\\Manager::find(0)"@,
        "\\XF\\Mvc\\Entity\\Manager::create(0)"@,
        "\\XF\\Mvc\\Controller::assertRecordExists(0)"@,
        "\\XF\\Mvc\\Controller::assertViewableRecord(0)"@,
    ]
}

/// Call sites that return a finder.
pub open spec fn finder_targets_spec() -> Seq<Seq<char>> {
    seq![
        "\\XF::finder(0)"@,
        "\\XF\\App::finder(0)"@,
        "\\XF\\Mvc\\Entity\\Manager::getFinder(0)"@,
        "\\XF\\Mvc\\Controller::finder(0)"@,
        "\\XF\\Mvc\\Entity\\Repository::finder(0)"@,
        "\\XF\\Mvc\\Entity\\Entity::finder(0)"@,
        "\\XF\\Service\\AbstractService::finder(0)"@,
        "\\XF\\Widget\\AbstractWidget::finder(0)"@,
        "\\XF\\ActivitySummary\\AbstractSection::finder(0)"@,
        "\\XF\\AddOn\\DataType\\AbstractDataType::finder(0)"@,
    ]
}

/// Call sites that return a repository.
pub open spec fn repository_targets_spec() -> Seq<Seq<char>> {
    seq![
        "\\XF::repository(0)"@,
        "\\XF\\App::repository(0)"@,
        "\\XF\\Mvc\\Entity\\Manager::getRepository(0)"@,
        "\\XF\\Mvc\\Controller::repository(0)"@,
        "\\XF\\Mvc\\Entity\\Repository::repository(0)"@,
        "\\XF\\Mvc\\Entity\\Entity::repository(0)"@,
        "\\XF\\Service\\AbstractService::repository(0)"@,
        "\\XF\\Widget\\AbstractWidget::repository(0)"@,
        "\\XF\\ActivitySummary\\AbstractSection::repository(0)"@,
    ]
}

/// Call sites that return a service.
pub open spec fn service_targets_spec() -> Seq<Seq<char>> {
    seq![
        "\\XF::service(0)"@,
        "\\XF\\App::service(0)"@,
        "\\XF\\Mvc\\Controller::service(0)"@,
        "\\XF\\Service\\AbstractService::service(0)"@,
        "\\XF\\Widget\\AbstractWidget::service(0)"@,
        "\\XF\\ActivitySummary\\AbstractSection::service(0)"@,
    ]
}

/// Call sites that return a captcha.
pub open spec fn captcha_targets_spec() -> Seq<Seq<char>> {
    seq!["\\XF\\App::captcha(0)"@]
}

pub open spec fn views(v: Seq<&str>) -> Seq<Seq<char>> {
    v.map_values(|s: &str| s@)
}

fn entity_targets() -> (v: Vec<&'static str>)
    ensures
        views(v@) == entity_targets_spec(),
{
    let v = vec![
        "\\XF\\Mvc\\Entity\\Manager::find(0)",
        "\\XF\\Mvc\\Entity\\Manager::create(0)",
        "\\XF\\Mvc\\Controller::assertRecordExists(0)",
        "\\XF\\Mvc\\Controller::assertViewableRecord(0)",
    ];
    assert(views(v@) =~= entity_targets_spec());
    v
}

fn finder_targets() -> (v: Vec<&'static str>)
    ensures
        views(v@) == finder_targets_spec(),
{
    let v = vec![
        "\\XF::finder(0)",
        "\\XF\\App::finder(0)",
        "\\XF\\Mvc\\Entity\\Manager::getFinder(0)",
        "\\XF\\Mvc\\Controller::finder(0)",
        "\\XF\\Mvc\\Entity\\Repository::finder(0)",
        "\\XF\\Mvc\\Entity\\Entity::finder(0)",
        "\\XF\\Service\\AbstractService::finder(0)",
        "\\XF\\Widget\\AbstractWidget::finder(0)",
        "\\XF\\ActivitySummary\\AbstractSection::finder(0)",
        "\\XF\\AddOn\\DataType\\AbstractDataType::finder(0)",
    ];
    assert(views(v@) =~= finder_targets_spec());
    v
}

fn repository_targets() -> (v: Vec<&'static str>)
    ensures
        views(v@) == repository_targets_spec(),
{
    let v = vec![
        "\\XF::repository(0)",
        "\\XF\\App::repository(0)",
        "\\XF\\Mvc\\Entity\\Manager::getRepository(0)",
        "\\XF\\Mvc\\Controller::repository(0)",
        "\\XF\\Mvc\\Entity\\Repository::repository(0)",
        "\\XF\\Mvc\\Entity\\Entity::repository(0)",
        "\\XF\\Service\\AbstractService::repository(0)",
        "\\XF\\Widget\\AbstractWidget::repository(0)",
        "\\XF\\ActivitySummary\\AbstractSection::repository(0)",
    ];
    assert(views(v@) =~= repository_targets_spec());
    v
}

fn service_targets() -> (v: Vec<&'static str>)
    ensures
        views(v@) == service_targets_spec(),
{
    let v = vec![
        "\\XF::service(0)",
        "\\XF\\App::service(0)",
        "\\XF\\Mvc\\Controller::service(0)",
        "\\XF\\Service\\AbstractService::service(0)",
        "\\XF\\Widget\\AbstractWidget::service(0)",
        "\\XF\\ActivitySummary\\AbstractSection::service(0)",
    ];
    assert(views(v@) =~= service_targets_spec());
    v
}

fn captcha_targets() -> (v: Vec<&'static str>)
    ensures
        views(v@) == captcha_targets_spec(),
{
    let v = vec!["\\XF\\App::captcha(0)"];
    assert(views(v@) =~= captcha_targets_spec());
    v
}

/// Which class a short entity name resolves to.
#[derive(Clone, Copy, PartialEq, Eq, Structural)]
pub enum MapKind {
    Entity,
    Finder,
    Repository,
}

/// The class constant of the typed finder stub of an entity.
pub open spec fn finder_stub_const(short: Seq<char>) -> Seq<char> {
    "\\XFIDEHelper\\"@ + ("Finder_"@ + ident_spec(short)) + "::class"@
}

/// The map entries contributed by one entity.
pub open spec fn entity_item(kind: MapKind, short: Seq<char>, e: Entity) -> Seq<(Seq<char>, Seq<char>)> {
    match kind {
        MapKind::Entity => seq![(single_quoted_spec(short), class_const_spec(e.class@))],
        MapKind::Finder => {
            let stub = finder_stub_const(short);
            seq![(single_quoted_spec(short), stub)] + match e.finder {
                Some(f) => seq![(class_const_spec(f@), stub)],
                None => Seq::<(Seq<char>, Seq<char>)>::empty(),
            }
        },
        MapKind::Repository => match e.repository {
            Some(r) => seq![
                (single_quoted_spec(short), class_const_spec(r@)),
                (class_const_spec(r@), class_const_spec(r@)),
            ],
            None => Seq::<(Seq<char>, Seq<char>)>::empty(),
        },
    }
}

/// The map entries for entities, in contract order.
pub open spec fn entity_items(kind: MapKind, es: Seq<(Seq<char>, Entity)>) -> Seq<
    (Seq<char>, Seq<char>),
>
    decreases es.len(),
{
    if es.len() == 0 {
        Seq::empty()
    } else {
        entity_items(kind, es.drop_last()) + entity_item(kind, es.last().0, es.last().1)
    }
}

/// The map entries for a name-to-class map: the quoted name and the class
/// constant itself, each mapped to the class constant.
pub open spec fn pair_items(m: Seq<(Seq<char>, Seq<char>)>) -> Seq<(Seq<char>, Seq<char>)>
    decreases m.len(),
{
    if m.len() == 0 {
        Seq::empty()
    } else {
        let cc = class_const_spec(m.last().1);
        pair_items(m.drop_last()) + seq![(single_quoted_spec(m.last().0), cc), (cc, cc)]
    }
}

/// The body of a `map([...])`.
pub open spec fn map_text(entries: Seq<(Seq<char>, Seq<char>)>) -> Seq<char>
    decreases entries.len(),
{
    if entries.len() == 0 {
        Seq::empty()
    } else {
        map_text(entries.drop_last()) + "\t\t\t"@ + entries.last().0 + " => "@ + entries.last().1
            + ",\n"@
    }
}

/// One `override(...)` line per call site, all with the same map.
pub open spec fn overrides_text(targets: Seq<Seq<char>>, map: Seq<char>) -> Seq<char>
    decreases targets.len(),
{
    if targets.len() == 0 {
        Seq::empty()
    } else {
        overrides_text(targets.drop_last(), map) + "\toverride("@ + targets.last() + ", map([\n"@
            + map + "\t]));\n"@
    }
}

/// A labelled block of overrides; nothing when there are no entries.
pub open spec fn emit_spec(label: Seq<char>, targets: Seq<Seq<char>>, entries: Seq<(Seq<char>, Seq<char>)>) -> Seq<char> {
    if entries.len() == 0 {
        Seq::empty()
    } else {
        "\t// "@ + label + "\n"@ + overrides_text(targets, map_text(entries)) + "\n"@
    }
}

pub open spec fn render_spec(c: Contract) -> Seq<char> {
    let es = contract_entities(c.entities);
    banner_spec(""@) + "namespace PHPSTORM_META {\n\n"@ + emit_spec(
        "Entity resolution"@,
        entity_targets_spec(),
        entity_items(MapKind::Entity, es),
    ) + emit_spec("Finder resolution"@, finder_targets_spec(), entity_items(MapKind::Finder, es))
        + emit_spec(
        "Repository resolution"@,
        repository_targets_spec(),
        entity_items(MapKind::Repository, es),
    ) + emit_spec(
        "Service resolution"@,
        service_targets_spec(),
        pair_items(string_entries(c.services)),
    ) + emit_spec(
        "Captcha resolution"@,
        captcha_targets_spec(),
        pair_items(string_entries(c.captchas)),
    ) + "}\n"@
}

pub open spec fn pair_views(v: Seq<(String, String)>) -> Seq<(Seq<char>, Seq<char>)> {
    v.map_values(|p: (String, String)| (p.0@, p.1@))
}

/// Renders `.phpstorm.meta.php`.
pub fn render(contract: &Contract) -> (out: String)
    ensures
        out@ == render_spec(*contract),
{
    let mut out = banner("");
    out.append("namespace PHPSTORM_META {\n\n");
    let entities = entity_entries(contract, MapKind::Entity);
    emit_overrides(&mut out, "Entity resolution", &entity_targets(), &entities);
    let finders = entity_entries(contract, MapKind::Finder);
    emit_overrides(&mut out, "Finder resolution", &finder_targets(), &finders);
    let repositories = entity_entries(contract, MapKind::Repository);
    emit_overrides(&mut out, "Repository resolution", &repository_targets(), &repositories);
    let services = pair_entries(&contract.services);
    emit_overrides(&mut out, "Service resolution", &service_targets(), &services);
    let captchas = pair_entries(&contract.captchas);
    emit_overrides(&mut out, "Captcha resolution", &captcha_targets(), &captchas);
    out.append("}\n");
    out
}

/// The map entries for every entity of the contract.
pub fn entity_entries(contract: &Contract, kind: MapKind) -> (entries: Vec<(String, String)>)
    ensures
        pair_views(entries@) == entity_items(kind, contract_entities(contract.entities)),
{
    let ghost es = contract_entities(contract.entities);
    let mut entries: Vec<(String, String)> = Vec::new();
    let n = entity_count(&contract.entities);
    let mut i: usize = 0;
    while i < n
        invariant
            n == es.len(),
            es == contract_entities(contract.entities),
            i <= n,
            pair_views(entries@) =~= entity_items(kind, es.take(i as int)),
        decreases n - i,
    {
        let (short, entity) = entity_at(&contract.entities, i);
        let ghost before = pair_views(entries@);
        match kind {
            MapKind::Entity => {
                entries.push((single_quoted(short.as_str()), class_const(entity.class.as_str())));
            },
            MapKind::Finder => {
                let mut stub = String::from_str("\\XFIDEHelper\\");
                let id = finder_stub_ident(short.as_str());
                stub.append(id.as_str());
                stub.append("::class");
                entries.push((single_quoted(short.as_str()), stub.clone()));
                match &entity.finder {
                    Some(finder) => {
                        entries.push((class_const(finder.as_str()), stub));
                    },
                    None => {},
                }
            },
            MapKind::Repository => {
                match &entity.repository {
                    Some(repo) => {
                        let repo_class = class_const(repo.as_str());
                        entries.push((single_quoted(short.as_str()), repo_class.clone()));
                        entries.push((repo_class.clone(), repo_class));
                    },
                    None => {},
                }
            },
        }
        proof {
            assert(es.take(i + 1).drop_last() =~= es.take(i as int));
            assert(pair_views(entries@) =~= before + entity_item(kind, short@, *entity));
        }
        i = i + 1;
    }
    proof {
        assert(es.take(n as int) =~= es);
    }
    entries
}

/// The map entries for a name-to-class map.
pub fn pair_entries(map: &indexmap::IndexMap<String, String>) -> (entries: Vec<(String, String)>)
    ensures
        pair_views(entries@) == pair_items(string_entries(*map)),
{
    let ghost m = string_entries(*map);
    let mut entries: Vec<(String, String)> = Vec::new();
    let n = string_count(map);
    let mut i: usize = 0;
    while i < n
        invariant
            n == m.len(),
            m == string_entries(*map),
            i <= n,
            pair_views(entries@) =~= pair_items(m.take(i as int)),
        decreases n - i,
    {
        let (short, class) = string_at(map, i);
        let ghost before = pair_views(entries@);
        let cc = class_const(class.as_str());
        entries.push((single_quoted(short.as_str()), cc.clone()));
        entries.push((cc.clone(), cc));
        proof {
            assert(m.take(i + 1).drop_last() =~= m.take(i as int));
            assert(pair_views(entries@) =~= before + seq![
                (single_quoted_spec(short@), class_const_spec(class@)),
                (class_const_spec(class@), class_const_spec(class@)),
            ]);
        }
        i = i + 1;
    }
    proof {
        assert(m.take(n as int) =~= m);
    }
    entries
}

/// Appends a labelled block with one `override(...)` per call site in
/// `targets`, each mapping `entries`; appends nothing when `entries` is empty.
pub fn emit_overrides(
    out: &mut String,
    label: &str,
    targets: &Vec<&'static str>,
    entries: &Vec<(String, String)>,
)
    ensures
        final(out)@ == old(out)@ + emit_spec(label@, views(targets@), pair_views(entries@)),
{
    let ghost es = pair_views(entries@);
    if entries.len() == 0 {
        proof {
            assert(out@ =~= out@ + Seq::<char>::empty());
        }
        return;
    }
    let mut map = String::new();
    let n = entries.len();
    let mut i: usize = 0;
    while i < n
        invariant
            n == entries@.len(),
            es == pair_views(entries@),
            i <= n,
            map@ =~= map_text(es.take(i as int)),
        decreases n - i,
    {
        let (key, value) = &entries[i];
        map.append("\t\t\t");
        map.append(key.as_str());
        map.append(" => ");
        map.append(value.as_str());
        map.append(",\n");
        proof {
            assert(es.take(i + 1).drop_last() =~= es.take(i as int));
        }
        i = i + 1;
    }
    proof {
        assert(es.take(n as int) =~= es);
    }
    let ghost start = old(out)@;
    out.append("\t// ");
    out.append(label);
    out.append("\n");
    let ghost ts = views(targets@);
    let ghost mid = out@;
    let m = targets.len();
    let mut j: usize = 0;
    while j < m
        invariant
            m == targets@.len(),
            ts == views(targets@),
            j <= m,
            out@ =~= mid + overrides_text(ts.take(j as int), map@),
        decreases m - j,
    {
        out.append("\toverride(");
        out.append(targets[j]);
        out.append(", map([\n");
        out.append(map.as_str());
        out.append("\t]));\n");
        proof {
            assert(ts.take(j + 1).drop_last() =~= ts.take(j as int));
        }
        j = j + 1;
    }
    proof {
        assert(ts.take(m as int) =~= ts);
    }
    out.append("\n");
}

} // verus!
