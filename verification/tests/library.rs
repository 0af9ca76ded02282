use indexmap::IndexMap;
use xf_typegen::cli::{
    file_status, is_relevant, resolve_entity_mode, resolve_targets, FileStatus, TargetListError,
    UnknownEntityMode,
};
use xf_typegen::contract::{
    Cardinality, ClassExtension, Column, Contract, ContractError, Entity, Getter, Relation, XfInfo,
};
use xf_typegen::extract::{command_line, split_words, ExtractError, ExtractOptions};
use xf_typegen::generate::ide_helper::{
    bypass_name, property, property_doc, property_sections, relation_type,
};
use xf_typegen::generate::phpstorm_meta::emit_overrides;
use xf_typegen::generate::{banner, render, render_all, EntityMode, Target};
use xf_typegen::order::{sort_triples, str_leq};
use xf_typegen::php::{
    collection_stub_ident, mixin_target_ident, single_quoted, split_class, type_admits_null,
    with_nullable,
};
use xf_typegen::text::{decimal, indent_lines, str_eq};

fn empty_contract() -> Contract {
    Contract {
        version: 1,
        generator: None,
        generated_at: None,
        xf: XfInfo {
            version_id: 2020000,
            version: None,
            branch: None,
        },
        active_add_ons: Vec::new(),
        class_extensions: Vec::new(),
        services: IndexMap::new(),
        captchas: IndexMap::new(),
        options: IndexMap::new(),
        entities: IndexMap::new(),
    }
}

fn ext(proxy: &str, extends: &str) -> ClassExtension {
    ClassExtension {
        proxy: proxy.to_string(),
        extends: extends.to_string(),
    }
}

fn small_entity() -> Entity {
    let mut columns = IndexMap::new();
    columns.insert(
        "id".to_string(),
        Column {
            php_type: "int".to_string(),
            nullable: false,
            xf_type: "uint".to_string(),
            primary: true,
        },
    );
    columns.insert(
        "title".to_string(),
        Column {
            php_type: "string".to_string(),
            nullable: true,
            xf_type: "str".to_string(),
            primary: false,
        },
    );
    let mut getters = IndexMap::new();
    getters.insert(
        "title".to_string(),
        Getter {
            php_type: "string".to_string(),
            nullable: false,
            source: "getTitle".to_string(),
        },
    );
    let mut relations = IndexMap::new();
    relations.insert(
        "Owner".to_string(),
        Relation {
            to: Cardinality::One,
            entity: "XF:User".to_string(),
            class: None,
        },
    );
    Entity {
        short_name: "Acme:Widget".to_string(),
        class: "\\Acme\\Entity\\Widget".to_string(),
        table: None,
        content_type: None,
        primary_key: vec!["id".to_string()],
        finder: None,
        repository: None,
        columns,
        relations,
        getters,
    }
}

const HEAD: &str =
    "<?php\n\n/**\n * Generated by xf-typegen. Do not edit; run `xf-typegen generate` again instead.\n";

#[test]
fn null_detection_ignores_case_and_spaces() {
    assert!(type_admits_null("int| NULL "));
    assert!(type_admits_null("Null"));
    assert!(!type_admits_null("nullable"));
    assert!(!type_admits_null("int|nul"));
    assert!(!type_admits_null(""));
    assert_eq!(with_nullable("int | null", true), "int | null");
    assert_eq!(with_nullable("", true), "|null");
}

#[test]
fn nullable_twice_is_nullable_once() {
    let once = with_nullable("string", true);
    assert_eq!(with_nullable(&once, true), once);
    assert!(type_admits_null(&once));
}

#[test]
fn quoting_escapes_quotes_and_backslashes() {
    assert_eq!(single_quoted("it's"), "'it\\'s'");
    assert_eq!(single_quoted("a\\'b"), "'a\\\\\\'b'");
    assert_eq!(single_quoted(""), "''");
}

#[test]
fn identifiers_replace_non_ascii() {
    assert_eq!(collection_stub_ident("Caf\u{e9}:X"), "Collection_Caf__X");
    assert_eq!(mixin_target_ident("a-b c"), "Entity_a_b_c");
}

#[test]
fn class_names_split_at_last_backslash() {
    assert_eq!(split_class("\\\\XF\\Entity\\User"), ("XF\\Entity".to_string(), "User".to_string()));
    assert_eq!(split_class("Global"), (String::new(), "Global".to_string()));
    assert_eq!(split_class("\\Global"), (String::new(), "Global".to_string()));
    assert_eq!(split_class("A\\"), ("A".to_string(), String::new()));
}

#[test]
fn lines_are_indented_like_str_lines() {
    assert_eq!(indent_lines("a\nb\r\nc"), "\ta\n\tb\n\tc\n");
    assert_eq!(indent_lines("a\n\n"), "\ta\n\t\n");
    assert_eq!(indent_lines(""), "");
    assert_eq!(indent_lines("x\r"), "\tx\r\n");
}

#[test]
fn strings_compare_like_str() {
    assert!(str_leq("", "a"));
    assert!(str_leq("ab", "b"));
    assert!(!str_leq("b", "ab"));
    assert!(str_leq("a", "a"));
    assert!(str_eq("abc", "abc"));
    assert!(!str_eq("abc", "abd"));
}

#[test]
fn sort_orders_triples() {
    let t = |a: &str, b: &str, c: &str| (a.to_string(), b.to_string(), c.to_string());
    let sorted = sort_triples(vec![t("B", "x", "1"), t("A", "z", "2"), t("A", "y", "3"), t("", "q", "4")]);
    assert_eq!(sorted, vec![t("", "q", "4"), t("A", "y", "3"), t("A", "z", "2"), t("B", "x", "1")]);
}

#[test]
fn xfcp_exact_output_groups_and_sorts() {
    let mut c = empty_contract();
    c.class_extensions = vec![
        ext("Vendor\\B\\XFCP_Two", "XF\\Two"),
        ext("XFCP_Global", "\\XF\\Global"),
        ext("Vendor\\A\\XFCP_One", "XF\\One"),
        ext("Vendor\\B\\XFCP_One", "XF\\One"),
    ];
    let php = render(&c, Target::Xfcp, EntityMode::Redeclare).contents;
    let expected = format!(
        "{}{}{}",
        HEAD,
        " *\n * Stubs for XenForo's runtime-generated XFCP class proxies, so the IDE can\n * resolve `class Foo extends XFCP_Foo`. Keep it out of your PHP autoload.\n */\n\n",
        "namespace {\n\tclass XFCP_Global extends \\XF\\Global {}\n}\n\nnamespace Vendor\\A {\n\tclass XFCP_One extends \\XF\\One {}\n}\n\nnamespace Vendor\\B {\n\tclass XFCP_One extends \\XF\\One {}\n\tclass XFCP_Two extends \\XF\\Two {}\n}\n\n"
    );
    assert_eq!(php, expected);
}

#[test]
fn xfcp_output_ignores_extension_order() {
    let mut c1 = empty_contract();
    c1.class_extensions = vec![ext("N\\XFCP_A", "A"), ext("M\\XFCP_B", "B"), ext("N\\XFCP_C", "C")];
    let mut c2 = empty_contract();
    c2.class_extensions = vec![ext("N\\XFCP_C", "C"), ext("N\\XFCP_A", "A"), ext("M\\XFCP_B", "B")];
    assert_eq!(
        render(&c1, Target::Xfcp, EntityMode::Redeclare).contents,
        render(&c2, Target::Xfcp, EntityMode::Redeclare).contents
    );
}

#[test]
fn options_exact_output() {
    let mut c = empty_contract();
    c.options.insert("boardTitle".to_string(), "string".to_string());
    let php = render(&c, Target::Options, EntityMode::Redeclare).contents;
    let expected = format!(
        "{}{}{}",
        HEAD,
        " *\n * @property stubs for board options, plus a re-typing of XF::options() /\n * App::options() so \\XF::options()->name resolves with no edits to XF core.\n * If this ever hides \\XF:: members, delete this single file.\n */\n\n",
        "namespace XFIDEHelper {\n\t/**\n\t * @property string $boardTitle\n\t */\n\tclass Options extends \\ArrayObject {}\n}\n\nnamespace {\n\t/**\n\t * @method static \\XFIDEHelper\\Options options()\n\t */\n\tclass XF {}\n}\n\nnamespace XF {\n\t/**\n\t * @method \\XFIDEHelper\\Options options()\n\t */\n\tclass App {}\n}\n"
    );
    assert_eq!(php, expected);
}

#[test]
fn phpstorm_meta_of_empty_contract_has_no_blocks() {
    let php = render(&empty_contract(), Target::PhpstormMeta, EntityMode::Redeclare).contents;
    assert_eq!(php, format!("{} */\n\nnamespace PHPSTORM_META {{\n\n}}\n", HEAD));
}

#[test]
fn phpstorm_meta_service_block_exact() {
    let mut c = empty_contract();
    c.captchas.insert("XF:Turnstile".to_string(), "XF\\Captcha\\Turnstile".to_string());
    let php = render(&c, Target::PhpstormMeta, EntityMode::Redeclare).contents;
    let expected = format!(
        "{} */\n\nnamespace PHPSTORM_META {{\n\n\t// Captcha resolution\n\toverride(\\XF\\App::captcha(0), map([\n\t\t\t'XF:Turnstile' => \\XF\\Captcha\\Turnstile::class,\n\t\t\t\\XF\\Captcha\\Turnstile::class => \\XF\\Captcha\\Turnstile::class,\n\t]));\n\n}}\n",
        HEAD
    );
    assert_eq!(php, expected);
}

#[test]
fn emit_overrides_skips_empty_maps() {
    let mut out = String::from("x");
    emit_overrides(&mut out, "Label", &vec!["\\A::f(0)"], &Vec::new());
    assert_eq!(out, "x");
    emit_overrides(
        &mut out,
        "Label",
        &vec!["\\A::f(0)", "\\B::g(0)"],
        &vec![("'k'".to_string(), "\\V::class".to_string())],
    );
    assert_eq!(
        out,
        "x\t// Label\n\toverride(\\A::f(0), map([\n\t\t\t'k' => \\V::class,\n\t]));\n\toverride(\\B::g(0), map([\n\t\t\t'k' => \\V::class,\n\t]));\n\n"
    );
}

#[test]
fn entity_stub_exact_output() {
    let mut c = empty_contract();
    c.entities.insert("Acme:Widget".to_string(), small_entity());
    let php = render(&c, Target::IdeHelper, EntityMode::Redeclare).contents;
    let tail = "namespace Acme\\Entity {\n\t/**\n\t * COLUMNS\n\t * @property int $id\n\t * @property string|null $title_\n\t *\n\t * GETTERS\n\t * @property string $title\n\t *\n\t * RELATIONS\n\t * @property \\XF\\Mvc\\Entity\\Entity|null $Owner\n\t */\n\tclass Widget extends \\XF\\Mvc\\Entity\\Entity {}\n}\n\n";
    assert!(php.ends_with(tail));
    assert!(php.contains("\tclass Finder_Acme_Widget extends \\XF\\Mvc\\Entity\\Finder {}\n\n"));
    assert!(php.contains("@method \\Acme\\Entity\\Widget|null first()"));
}

#[test]
fn mixin_target_exact_output() {
    let mut c = empty_contract();
    c.entities.insert("Acme:Widget".to_string(), small_entity());
    let php = render(&c, Target::IdeHelper, EntityMode::Mixin).contents;
    let tail = "namespace XFIDEHelper {\n\t/**\n\t * COLUMNS\n\t * @property int $id\n\t * @property string|null $title_\n\t *\n\t * GETTERS\n\t * @property string $title\n\t *\n\t * RELATIONS\n\t * @property \\XF\\Mvc\\Entity\\Entity|null $Owner\n\t */\n\tclass Entity_Acme_Widget {}\n\n}\n";
    assert!(php.ends_with(tail));
    assert!(!php.contains("class Widget extends"));
}

#[test]
fn property_helpers() {
    let e = small_entity();
    assert_eq!(property("int", "id"), "@property int $id");
    assert_eq!(bypass_name("title", &e.getters), "title_");
    assert_eq!(bypass_name("id", &e.getters), "id");
    let sections = property_sections(&e);
    assert_eq!(sections.len(), 3);
    assert_eq!(sections[0].0, "COLUMNS");
    assert_eq!(property_doc(&Vec::new()), "");
    assert_eq!(
        property_doc(&vec![("A", vec!["x".to_string()]), ("B", vec![])]),
        " * A\n * x\n *\n * B\n"
    );
    let many = Relation {
        to: Cardinality::Many,
        entity: "X".to_string(),
        class: None,
    };
    assert_eq!(relation_type(&many), "\\XF\\Mvc\\Entity\\AbstractCollection");
    let one = Relation {
        to: Cardinality::One,
        entity: "X".to_string(),
        class: Some("X\\Y".to_string()),
    };
    assert_eq!(relation_type(&one), "\\X\\Y|null");
}

#[test]
fn every_file_opens_with_php_tag() {
    let c = empty_contract();
    let files = render_all(&c, &Target::all(), EntityMode::Redeclare);
    assert_eq!(files.len(), 4);
    let names: Vec<&str> = files.iter().map(|f| f.filename).collect();
    assert_eq!(
        names,
        vec!["_ide_helper.php", ".phpstorm.meta.php", "_ide_helper_xfcp.php", "_ide_helper_options.php"]
    );
    for f in &files {
        assert!(f.contents.starts_with("<?php\n"));
    }
    assert_eq!(banner(" * x\n"), format!("{} * x\n */\n\n", HEAD));
}

#[test]
fn target_lists_resolve() {
    assert_eq!(resolve_targets(None).unwrap(), Target::all());
    assert_eq!(
        resolve_targets(Some(" xfcp, options,,xfcp ")).unwrap(),
        vec![Target::Xfcp, Target::Options]
    );
    assert_eq!(resolve_targets(Some(" , ")), Err(TargetListError::Empty));
    let err = resolve_targets(Some("xfcp, bogus ,nope")).unwrap_err();
    assert_eq!(err, TargetListError::Unknown("bogus".to_string()));
    assert_eq!(err.message(), "unknown target 'bogus' (expected ide-helper, phpstorm-meta)");
    assert_eq!(TargetListError::Empty.message(), "no valid targets specified");
    assert_eq!(Target::parse("phpstorm-meta"), Some(Target::PhpstormMeta));
    assert_eq!(Target::parse("Xfcp"), None);
}

#[test]
fn entity_modes_resolve() {
    assert_eq!(resolve_entity_mode(None), Ok(EntityMode::Redeclare));
    assert_eq!(resolve_entity_mode(Some("mixin")), Ok(EntityMode::Mixin));
    let err = resolve_entity_mode(Some("both")).unwrap_err();
    assert_eq!(err, UnknownEntityMode("both".to_string()));
    assert_eq!(err.message(), "unknown entity mode 'both' (expected redeclare, mixin)");
}

#[test]
fn file_statuses() {
    assert_eq!(file_status(None, "x"), FileStatus::Created);
    assert_eq!(file_status(Some("x"), "x"), FileStatus::Unchanged);
    assert_eq!(file_status(Some("y"), "x"), FileStatus::Updated);
    assert!(!FileStatus::Unchanged.changed());
    assert!(FileStatus::Created.changed());
    assert_eq!(FileStatus::Updated.label(), "updated");
}

#[test]
fn watch_events_match_by_file_name() {
    let target = Some(b"xf-typegen.json".to_vec());
    assert!(is_relevant(&vec![None, Some(b"xf-typegen.json".to_vec())], &target));
    assert!(!is_relevant(&vec![Some(b"other.json".to_vec())], &target));
    assert!(!is_relevant(&Vec::new(), &target));
    assert!(is_relevant(&vec![None], &None));
}

#[test]
fn php_command_line() {
    let opts = ExtractOptions {
        root: Some("/srv/xf"),
        addon: Some("Vendor/AddOn"),
        minify: true,
        mixin: Some("apply"),
        php_cmd: "  php8.1 -d memory_limit=-1 ",
    };
    let cmd = command_line(&opts).unwrap();
    assert_eq!(cmd.program, "php8.1");
    assert_eq!(
        cmd.args,
        vec!["-d", "memory_limit=-1", "--", "/srv/xf", "--addon=Vendor/AddOn", "--minify", "--mixin=apply"]
    );
    let bare = ExtractOptions {
        root: None,
        addon: None,
        minify: false,
        mixin: None,
        php_cmd: "php",
    };
    let cmd = command_line(&bare).unwrap();
    assert_eq!(cmd.program, "php");
    assert_eq!(cmd.args, vec!["--"]);
    let empty = ExtractOptions {
        php_cmd: " \t ",
        ..bare
    };
    let err = command_line(&empty).unwrap_err();
    assert_eq!(err, ExtractError::EmptyPhpCmd);
    assert_eq!(err.message(), "--php-cmd is empty; expected something like 'php'");
    assert_eq!(split_words("a  b\tc\u{3000}d"), vec!["a", "b", "c", "d"]);
}

#[test]
fn contract_versions() {
    let c = empty_contract();
    assert!(c.validated().is_ok());
    let mut c = empty_contract();
    c.version = 2;
    let err = c.validated().unwrap_err();
    assert_eq!(err, ContractError::UnsupportedVersion(2));
    assert_eq!(err.message(), "unsupported contract version 2 (this build understands version 1)");
    assert_eq!(decimal(0), "0");
    assert_eq!(decimal(4294967295), "4294967295");
}
