use trackway::apps::{AppName, AppsCache, RegistryEntry};
use trackway::config::Config;
use trackway::filter::{run_filters, FilterParams};
use trackway::ast::{Module, ModuleItem, TypeAliasDecl, TypeExpr};

fn entry(name: &str, source: &str, version: &str) -> RegistryEntry {
    RegistryEntry {
        name: AppName(name.to_string()),
        source: source.to_string(),
        version: version.to_string(),
    }
}

#[test]
fn cache_paths_sit_under_home() {
    let cache = AppsCache::new("/home/agent/.trackway".to_string(), Vec::new());
    assert_eq!(cache.home(), "/home/agent/.trackway");
    assert_eq!(
        cache.make_path("apps.toml"),
        "/home/agent/.trackway/apps.toml"
    );
    assert_eq!(
        cache.local_cache_path(&AppName("mailer".to_string())),
        "/home/agent/.trackway/cache/mailer/mod.ts"
    );
}

#[test]
fn registry_insert_lookup_remove() {
    let mut cache = AppsCache::new("/tmp/home".to_string(), Vec::new());
    assert!(cache.get_entry(&AppName("mailer".to_string())).is_none());

    assert!(cache.insert(entry("mailer", "https://example.test/mailer", "1.0")).is_none());
    let got = cache.get_entry(&AppName("mailer".to_string())).unwrap();
    assert_eq!(got.version, "1.0");

    // installing the same name replaces the entry and hands the old one back
    let displaced = cache.insert(entry("mailer", "https://example.test/mailer", "2.0")).unwrap();
    assert_eq!(displaced.version, "1.0");
    let got = cache.get_entry(&AppName("mailer".to_string())).unwrap();
    assert_eq!(got.version, "2.0");

    // unknown names are not removed
    assert!(cache.remove(&AppName("nothere".to_string())).is_none());
    let removed = cache.remove(&AppName("mailer".to_string())).unwrap();
    assert_eq!(removed.version, "2.0");
    assert!(cache.get_entry(&AppName("mailer".to_string())).is_none());
}

#[test]
fn config_starts_without_a_token() {
    let mut cfg = Config::default();
    assert!(cfg.token.is_none());
    cfg.set_token("token-1234".to_string());
    assert_eq!(cfg.token.as_deref(), Some("token-1234"));
}

#[test]
fn filters_can_be_disabled() {
    let module = Module {
        items: vec![ModuleItem::TypeAliasItem(TypeAliasDecl {
            id: "A".to_string(),
            rhs: TypeExpr::Keyword("number".to_string()),
            text: "type A = number;".to_string(),
        })],
    };
    let params = FilterParams {
        enable_type_alias_decls: false,
        enable_class_decls: true,
        enable_fn_decls: true,
    };
    let fm = run_filters(params, module);
    assert!(fm.type_alias_decls.is_empty());
    assert!(fm.class_decls.is_empty());
    assert!(fm.fn_decls.is_empty());
}

#[test]
fn filters_collect_aliases_last_wins() {
    let module = Module {
        items: vec![
            ModuleItem::TypeAliasItem(TypeAliasDecl {
                id: "A".to_string(),
                rhs: TypeExpr::Keyword("number".to_string()),
                text: "type A = number;".to_string(),
            }),
            ModuleItem::TypeAliasItem(TypeAliasDecl {
                id: "A".to_string(),
                rhs: TypeExpr::Keyword("string".to_string()),
                text: "type A = string;".to_string(),
            }),
        ],
    };
    let fm = run_filters(FilterParams::default(), module);
    assert_eq!(fm.type_alias_decls.len(), 1);
    assert_eq!(fm.type_alias_decls[0].text, "type A = string;");
}
