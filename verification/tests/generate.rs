use indexmap::IndexMap;
use xf_typegen::contract::{
    Cardinality, ClassExtension, Column, Contract, Entity, Getter, Relation, XfInfo,
};
use xf_typegen::generate::{render, EntityMode, Target};

fn column(php_type: &str, nullable: bool) -> Column {
    Column {
        php_type: php_type.to_string(),
        nullable,
        xf_type: "str".to_string(),
        primary: false,
    }
}

fn user_entity() -> Entity {
    let mut columns = IndexMap::new();
    columns.insert("user_id".to_string(), column("int", false));
    columns.insert("username".to_string(), column("string", false));
    columns.insert("last_activity".to_string(), column("int", false));
    let mut getters = IndexMap::new();
    getters.insert(
        "last_activity".to_string(),
        Getter {
            php_type: "int".to_string(),
            nullable: false,
            source: "getLastActivity".to_string(),
        },
    );
    let mut relations = IndexMap::new();
    relations.insert(
        "ConnectedAccounts".to_string(),
        Relation {
            to: Cardinality::Many,
            entity: "XF:UserConnectedAccount".to_string(),
            class: Some("XF\\Entity\\UserConnectedAccount".to_string()),
        },
    );
    Entity {
        short_name: "XF:User".to_string(),
        class: "XF\\Entity\\User".to_string(),
        table: Some("xf_user".to_string()),
        content_type: Some("user".to_string()),
        primary_key: vec!["user_id".to_string()],
        finder: Some("XF\\Finder\\User".to_string()),
        repository: Some("XF\\Repository\\User".to_string()),
        columns,
        relations,
        getters,
    }
}

fn plain_entity(i: usize) -> Entity {
    let mut columns = IndexMap::new();
    columns.insert("id".to_string(), column("int", false));
    Entity {
        short_name: format!("Vendor:Thing{}", i),
        class: format!("Vendor\\Entity\\Thing{}", i),
        table: None,
        content_type: None,
        primary_key: vec!["id".to_string()],
        finder: None,
        repository: None,
        columns,
        relations: IndexMap::new(),
        getters: IndexMap::new(),
    }
}

fn sample() -> Contract {
    let mut entities = IndexMap::new();
    entities.insert("XF:User".to_string(), user_entity());
    for i in 0..120 {
        entities.insert(format!("Vendor:Thing{}", i), plain_entity(i));
    }
    let mut services = IndexMap::new();
    services.insert(
        "XF:User\\Registration".to_string(),
        "XF\\Service\\User\\Registration".to_string(),
    );
    let mut captchas = IndexMap::new();
    captchas.insert("XF:Turnstile".to_string(), "XF\\Captcha\\Turnstile".to_string());
    let mut options = IndexMap::new();
    options.insert("boardTitle".to_string(), "string".to_string());
    options.insert("maxAttachmentSize".to_string(), "int".to_string());
    Contract {
        version: 1,
        generator: Some("extract.php".to_string()),
        generated_at: None,
        xf: XfInfo {
            version_id: 2030070,
            version: Some("2.3.0".to_string()),
            branch: None,
        },
        active_add_ons: vec!["XF".to_string()],
        class_extensions: vec![ClassExtension {
            proxy: "Vendor\\AddOn\\XF\\Repository\\XFCP_User".to_string(),
            extends: "XF\\Repository\\User".to_string(),
        }],
        services,
        captchas,
        options,
        entities,
    }
}

#[test]
fn ide_helper_types_user() {
    let php = render(&sample(), Target::IdeHelper, EntityMode::Redeclare).contents;
    assert!(php.contains("class Finder_XF_User extends \\XF\\Finder\\User"));
    assert!(php.contains("@method \\XF\\Entity\\User|null fetchOne(?int $offset = null)"));
    assert!(php.contains("@method \\XFIDEHelper\\Collection_XF_User fetch("));
    assert!(php.contains("@method \\XFIDEHelper\\Finder_XF_User where($condition"));
    assert!(php.contains("@method \\XFIDEHelper\\Finder_XF_User order($field"));
    assert!(php.contains("@method \\XFIDEHelper\\Finder_XF_User keyedBy($keyedBy)"));
    assert!(php.contains("@method \\XFIDEHelper\\Collection_XF_User filter(\\Closure $callback)"));
    assert!(php.contains("class Collection_XF_User extends \\XF\\Mvc\\Entity\\ArrayCollection"));
    assert!(php.contains("@method \\ArrayIterator<int, \\XF\\Entity\\User> getIterator()"));
    assert!(php.contains("namespace XF\\Entity {"));
    assert!(php.contains("class User extends \\XF\\Mvc\\Entity\\Entity"));
    assert!(php.contains("@property string $username"));
    assert!(php.contains(
        "@property \\XF\\Mvc\\Entity\\AbstractCollection|\\XF\\Entity\\UserConnectedAccount[] $ConnectedAccounts"
    ));
}

#[test]
fn mixin_mode_emits_targets_not_redeclarations() {
    let php = render(&sample(), Target::IdeHelper, EntityMode::Mixin).contents;
    assert!(php.contains("class Entity_XF_User {}"));
    assert!(php.contains("@property string $username"));
    assert!(!php.contains("class User extends \\XF\\Mvc\\Entity\\Entity"));
    assert!(!php.contains("namespace XF\\Entity {"));
    assert!(php.contains("class Finder_XF_User extends \\XF\\Finder\\User"));
}

#[test]
fn phpstorm_meta_maps_entry_points() {
    let php = render(&sample(), Target::PhpstormMeta, EntityMode::Redeclare).contents;
    assert!(php.contains("namespace PHPSTORM_META"));
    assert!(php.contains("override(\\XF::finder(0), map(["));
    assert!(php.contains("'XF:User' => \\XFIDEHelper\\Finder_XF_User::class,"));
    assert!(php.contains("\\XF\\Finder\\User::class => \\XFIDEHelper\\Finder_XF_User::class,"));
    assert!(php.contains("override(\\XF\\Mvc\\Entity\\Manager::find(0), map(["));
    assert!(php.contains("'XF:User' => \\XF\\Entity\\User::class,"));
    assert!(php.contains("override(\\XF::repository(0), map(["));
    assert!(php.contains("\\XF\\Repository\\User::class => \\XF\\Repository\\User::class,"));
    assert!(php.contains("override(\\XF::service(0), map(["));
    assert!(php.contains("'XF:User\\\\Registration' => \\XF\\Service\\User\\Registration::class,"));
    assert!(php.contains("override(\\XF\\Mvc\\Controller::finder(0), map(["));
    assert!(php.contains("override(\\XF\\Service\\AbstractService::repository(0), map(["));
    assert!(php.contains("override(\\XF\\Mvc\\Entity\\Repository::finder(0), map(["));
    assert!(php.contains("override(\\XF\\Mvc\\Controller::assertRecordExists(0), map(["));
    assert!(php.contains("override(\\XF\\App::captcha(0), map(["));
    assert!(php.contains("'XF:Turnstile' => \\XF\\Captcha\\Turnstile::class,"));
}

#[test]
fn xfcp_emits_proxy_stubs() {
    let php = render(&sample(), Target::Xfcp, EntityMode::Redeclare).contents;
    assert!(php.contains("namespace Vendor\\AddOn\\XF\\Repository {"));
    assert!(php.contains("class XFCP_User extends \\XF\\Repository\\User {}"));
}

#[test]
fn options_emit_property_stub() {
    let php = render(&sample(), Target::Options, EntityMode::Redeclare).contents;
    assert!(php.contains("class Options extends \\ArrayObject {}"));
    assert!(php.contains("@property string $boardTitle"));
    assert!(php.contains("@property int $maxAttachmentSize"));
    assert!(php.contains("@method static \\XFIDEHelper\\Options options()"));
    assert!(php.contains("@method \\XFIDEHelper\\Options options()"));
}

#[test]
fn getter_shadowed_column_uses_bypass_suffix() {
    let php = render(&sample(), Target::IdeHelper, EntityMode::Redeclare).contents;
    assert!(php.contains("$last_activity_"));
}
