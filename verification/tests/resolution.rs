//! Resolution against an operator table: kind tags, the happy path (with several names in one
//! session), unknown names, tenant scoping and the statement-timeout ceiling.

use fabric_backends::resources::{DbConfig, MailConfig};
use fabric_backends::{
    resolve, NameMap, ResolveError, ResolvedResources, ResourceBinding, ResourceTable,
    TenantResourceBinding, WireInit,
};
use serde_json::Value;

/// Builds an operator table from its JSON text: `tenant` and `kind` are read off each entry, the
/// rest is the driver's config.
fn table_from(json: &str) -> ResourceTable {
    let entries: Value = serde_json::from_str(json).expect("valid JSON");
    let mut table = ResourceTable::new();
    for (name, entry) in entries.as_object().expect("a table") {
        let kind = entry["kind"].as_str().expect("a kind tag");
        let timeout = entry["statement_timeout_ms"].as_u64().unwrap_or(0);
        let binding = ResourceBinding::from_tag(kind, timeout, entry.to_string())
            .expect("a known kind");
        let tenant = entry["tenant"].as_str().map(str::to_owned);
        table.insert(name.clone(), TenantResourceBinding { tenant, binding });
    }
    table
}

/// One global `db` (`orders-db`) and one global `redis` (`cache`) binding.
fn table() -> ResourceTable {
    table_from(
        r#"{
            "orders-db": {"kind":"db","host":"h","user":"u","password":"p","database":"d"},
            "cache": {"kind":"redis","url":"redis://h:6379"}
        }"#,
    )
}

/// A tenant-scoped table: `a-db` bound for tenant `ws_a`, `b-db` bound for tenant `ws_b`.
fn tenant_table() -> ResourceTable {
    table_from(
        r#"{
            "a-db": {"tenant":"ws_a","kind":"db","host":"ha","user":"u","password":"p","database":"d"},
            "b-db": {"tenant":"ws_b","kind":"db","host":"hb","user":"u","password":"p","database":"d"}
        }"#,
    )
}

/// A handshake that lists names, for the given session tenant.
fn init_names(names: &[&str], tenant: Option<&str>) -> WireInit {
    WireInit {
        resources: names.iter().map(|name| (*name).to_owned()).collect(),
        tenant: tenant.map(str::to_owned),
        ..WireInit::default()
    }
}

/// A handshake that lists one name, with no session tenant.
fn init_db(name: &str) -> WireInit {
    init_names(&[name], None)
}

/// A `db` binding with a statement timeout.
fn db(statement_timeout_ms: u64) -> ResourceBinding {
    ResourceBinding::Db(Box::new(DbConfig { statement_timeout_ms, settings: "{}".to_owned() }))
}

/// The statement timeout of a resolved `db` binding.
fn timeout_of(resolved: &ResolvedResources, name: &str) -> u64 {
    match resolved.by_name.get(name) {
        Some(ResourceBinding::Db(db)) => db.statement_timeout_ms,
        _ => panic!("not a db binding"),
    }
}

/// The `kind` tag selects the variant (beside the tenant).
#[test]
fn binding_kind_tag_selects_variant() {
    let table = table();
    assert!(matches!(
        table.get("orders-db").map(|entry| &entry.binding),
        Some(ResourceBinding::Db(_))
    ));
    assert!(matches!(
        table.get("cache").map(|entry| &entry.binding),
        Some(ResourceBinding::Redis(_))
    ));
    assert!(
        table
            .get("orders-db")
            .and_then(|entry| entry.tenant.as_deref())
            .is_none(),
        "no tenant tag → global binding"
    );
}

/// A named global resource resolves for a no-tenant session; unlisted names stay absent.
#[test]
fn resolves_named_db() {
    let resolved = resolve(&table(), &init_db("orders-db"))
        .unwrap_or_else(|_err| unreachable!("orders-db resolves"));
    assert!(
        matches!(resolved.by_name.get("orders-db"), Some(ResourceBinding::Db(_))),
        "db resolved by name"
    );
    assert!(!resolved.by_name.contains_key("cache"), "unlisted names absent");
}

/// Two names of different kinds in one session both resolve into the map.
#[test]
fn resolves_multiple_names() {
    let resolved = resolve(&table(), &init_names(&["orders-db", "cache"], None))
        .unwrap_or_else(|_err| unreachable!("both names resolve"));
    assert!(matches!(resolved.by_name.get("orders-db"), Some(ResourceBinding::Db(_))));
    assert!(matches!(resolved.by_name.get("cache"), Some(ResourceBinding::Redis(_))));
}

/// An unknown name is `RESOURCE_NOT_FOUND`.
#[test]
fn unknown_name_is_not_found() {
    let err = resolve(&table(), &init_db("nope")).unwrap_err();
    assert_eq!(err.code(), "RESOURCE_NOT_FOUND");
    assert!(matches!(err, ResolveError::NotFound(_)));
}

/// A name within the session tenant's bindings resolves.
#[test]
fn in_tenant_name_resolves() {
    let resolved = resolve(&tenant_table(), &init_names(&["a-db"], Some("ws_a")))
        .unwrap_or_else(|_err| unreachable!("ws_a resolves its own binding"));
    assert!(resolved.by_name.contains_key("a-db"), "in-tenant db resolved");
}

/// A name bound only for another tenant is refused (as `NotFound`, so existence never leaks).
#[test]
fn cross_tenant_name_is_refused() {
    let err = resolve(&tenant_table(), &init_names(&["b-db"], Some("ws_a"))).unwrap_err();
    assert_eq!(err.code(), "RESOURCE_NOT_FOUND", "cross-tenant looks absent");
    assert!(matches!(err, ResolveError::NotFound(_)));
}

/// A tenant-scoped binding does not resolve for a session with no tenant, and vice versa.
#[test]
fn tenant_and_global_do_not_cross() {
    assert!(
        resolve(&tenant_table(), &init_db("a-db")).is_err(),
        "no-tenant session cannot reach a tenant-scoped binding"
    );
    assert!(
        resolve(&table(), &init_names(&["orders-db"], Some("ws_a"))).is_err(),
        "tenant session cannot reach a global binding"
    );
}

/// A foreign name and an absent one are answered alike, message included.
#[test]
fn foreign_and_absent_names_are_answered_alike() {
    let init = init_names(&["b-db"], Some("ws_a"));
    let foreign = resolve(&tenant_table(), &init).unwrap_err();
    let absent = resolve(&ResourceTable::new(), &init).unwrap_err();
    assert_eq!(foreign.code(), absent.code());
    assert_eq!(foreign.message(), absent.message());
    assert_eq!(foreign.message(), "no operator resource named `b-db`");
}

/// The first name that does not resolve is the one reported.
#[test]
fn first_refused_name_is_reported() {
    let err = resolve(&table(), &init_names(&["cache", "y", "x"], None)).unwrap_err();
    assert_eq!(err.message(), "no operator resource named `y`");
}

/// A session that lists no names resolves to nothing.
#[test]
fn empty_session_resolves() {
    let resolved = resolve(&table(), &init_names(&[], Some("ws_a"))).unwrap();
    assert_eq!(resolved.by_name.len(), 0);
}

/// Repetition and order of the listed names make no difference.
#[test]
fn listing_order_and_repetition_do_not_matter() {
    let once = resolve(&table(), &init_names(&["cache", "orders-db"], None)).unwrap();
    let twice = resolve(
        &table(),
        &init_names(&["orders-db", "cache", "orders-db"], None),
    )
    .unwrap();
    assert_eq!(once.by_name.len(), 2);
    assert_eq!(twice.by_name.len(), 2);
    assert_eq!(once.by_name.name_at(0), twice.by_name.name_at(0));
    assert_eq!(once.by_name.name_at(1), twice.by_name.name_at(1));
}

/// A copy of a table entry declares the same.
#[test]
fn entries_are_copied_whole() {
    let table = tenant_table();
    let copy = table.get("a-db").expect("declared").clone();
    assert_eq!(copy.tenant.as_deref(), Some("ws_a"));
    assert!(matches!(copy.binding, ResourceBinding::Db(_)));
}

/// Each driver has its tag, and no other tag is one.
#[test]
fn each_kind_has_its_tag() {
    let tagged = |kind: &str| ResourceBinding::from_tag(kind, 5, "{}".to_owned());
    assert!(matches!(tagged("db"), Some(ResourceBinding::Db(_))));
    assert!(matches!(tagged("mail"), Some(ResourceBinding::Mail(_))));
    assert!(matches!(tagged("redis"), Some(ResourceBinding::Redis(_))));
    assert!(matches!(tagged("amq"), Some(ResourceBinding::Amq(_))));
    assert!(matches!(tagged("auth"), Some(ResourceBinding::Auth(_))));
    assert!(tagged("mongo").is_none());
    assert!(tagged("Db").is_none());
    assert!(tagged("").is_none());
}

/// A kind mismatch has its own code and message.
#[test]
fn kind_mismatch_is_described() {
    let err = ResolveError::KindMismatch { name: "cache".to_owned(), kind: "db".to_owned() };
    assert_eq!(err.code(), "RESOURCE_KIND_MISMATCH");
    assert_eq!(err.message(), "resource `cache` is not a db resource");
    assert_eq!(err.clone().message(), err.message());
}

/// No limit and a huge limit are brought to the ceiling, a lower one stays.
#[test]
fn ceiling_limits_db_statements() {
    let mut resolved = ResolvedResources::default();
    resolved.by_name.insert("unlimited".to_owned(), db(0));
    resolved.by_name.insert("huge".to_owned(), db(60_000));
    resolved.by_name.insert("low".to_owned(), db(250));
    resolved.by_name.insert("exact".to_owned(), db(1_000));
    let mail = MailConfig { settings: "{\"host\":\"m\"}".to_owned() };
    resolved.by_name.insert("mail".to_owned(), ResourceBinding::Mail(Box::new(mail)));
    resolved.clamp_db_statement_timeout(1_000);
    assert_eq!(timeout_of(&resolved, "unlimited"), 1_000);
    assert_eq!(timeout_of(&resolved, "huge"), 1_000);
    assert_eq!(timeout_of(&resolved, "low"), 250);
    assert_eq!(timeout_of(&resolved, "exact"), 1_000);
    match resolved.by_name.get("mail") {
        Some(ResourceBinding::Mail(mail)) => assert_eq!(mail.settings, "{\"host\":\"m\"}"),
        _ => panic!("the mail binding is kept"),
    }
}

/// A ceiling of zero is none.
#[test]
fn zero_ceiling_changes_nothing() {
    let mut resolved = ResolvedResources::default();
    resolved.by_name.insert("unlimited".to_owned(), db(0));
    resolved.by_name.insert("huge".to_owned(), db(u64::MAX));
    resolved.clamp_db_statement_timeout(0);
    assert_eq!(timeout_of(&resolved, "unlimited"), 0);
    assert_eq!(timeout_of(&resolved, "huge"), u64::MAX);
}

/// The lower of two ceilings wins, in either order.
#[test]
fn lower_ceiling_wins() {
    let mut resolved = ResolvedResources::default();
    resolved.by_name.insert("x".to_owned(), db(0));
    let mut other = resolved.clone();
    resolved.clamp_db_statement_timeout(300);
    resolved.clamp_db_statement_timeout(100);
    other.clamp_db_statement_timeout(100);
    other.clamp_db_statement_timeout(300);
    assert_eq!(timeout_of(&resolved, "x"), 100);
    assert_eq!(timeout_of(&other, "x"), 100);
}

/// Names are kept in the order of their text, as `str` orders it, each once.
#[test]
fn names_are_kept_in_order() {
    let texts = ["b", "a", "", "ab", "é", "z", "\u{1F600}", "\u{FFFD}", "a", "B"];
    let mut map: NameMap<usize> = NameMap::new();
    for (i, text) in texts.iter().enumerate() {
        map.insert((*text).to_owned(), i);
    }
    let mut expected: Vec<String> = texts.iter().map(|t| (*t).to_owned()).collect();
    expected.sort();
    expected.dedup();
    let held: Vec<String> = (0..map.len()).map(|i| map.name_at(i).clone()).collect();
    assert_eq!(held, expected);
    assert_eq!(map.get("a"), Some(&8), "the later value stands");
    assert_eq!(map.remove("ab"), Some(3));
    assert_eq!(map.remove("ab"), None);
    assert_eq!(map.get("ab"), None);
    assert_eq!(map.len(), expected.len() - 1);
    if let Some(value) = map.get_mut("z") {
        *value = 77;
    }
    assert_eq!(map.get("z"), Some(&77));
    assert_eq!(map.insert("z".to_owned(), 1), Some(77));
}
