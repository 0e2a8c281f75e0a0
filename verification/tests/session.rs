//! Calls of a session that need no live backend: payload unpacking, routing by name, connecting
//! once, and gathering of metrics.

use fabric_backends::backendset::{auth_decoded, db_decoded, unknown_egress};
use fabric_backends::payload::{
    params_or_empty, parse_auth_token, parse_db_payload, AuthPayload, DbPayload,
};
use fabric_backends::slots::BackendSlot;
use fabric_backends::wire::{AmqMetric, DbMetric, RedisMetric};
use fabric_backends::{
    AsyncDeps, BackendSet, CallStep, ConnectRequest, EgressError, ErrorOwner, Invocation, NameMap,
    Recorded, ResolvedResources, ResourceBinding,
};
use serde_json::Value;
use std::time::Duration;

/// Reads a `db` payload's fields off its JSON text.
fn decode_db(json: &str) -> Result<DbPayload, String> {
    let value: Value = serde_json::from_str(json).map_err(|err| err.to_string())?;
    match value["sql"].as_str() {
        Some(sql) => Ok(DbPayload { sql: sql.to_owned(), params: value["params"].clone() }),
        None => Err("no sql".to_owned()),
    }
}

/// Reads an `auth` payload's fields off its JSON text.
fn decode_auth(json: &str) -> Result<AuthPayload, String> {
    let value: Value = serde_json::from_str(json).map_err(|err| err.to_string())?;
    let Some(fields) = value.as_object() else {
        return Err("no object".to_owned());
    };
    match fields.get("token") {
        None => Ok(AuthPayload { token: String::new() }),
        Some(Value::String(token)) => Ok(AuthPayload { token: token.clone() }),
        Some(_) => Err("no string".to_owned()),
    }
}

/// A runtime to take a handle from.
fn runtime() -> tokio::runtime::Runtime {
    tokio::runtime::Builder::new_current_thread().build().expect("a runtime")
}

/// The shared deps of a session on `runtime`.
fn deps(runtime: &tokio::runtime::Runtime) -> AsyncDeps {
    AsyncDeps {
        handle: runtime.handle().clone(),
        breaker: Some(3),
        timeout: Duration::from_millis(1_500),
    }
}

/// A set with one name of each kind; the name is the kind's tag.
fn one_of_each(runtime: &tokio::runtime::Runtime) -> BackendSet {
    let mut resolved = ResolvedResources::default();
    for kind in ["db", "mail", "redis", "amq", "auth"] {
        let binding = ResourceBinding::from_tag(kind, 40, format!("{{\"for\":\"{kind}\"}}"));
        resolved.by_name.insert(kind.to_owned(), binding.expect("a kind"));
    }
    BackendSet::from_configs(&resolved, &deps(runtime))
}

/// A `db` operation.
fn db_metric(action: &str, rows: u64) -> DbMetric {
    DbMetric {
        action: action.to_owned(),
        duration_us: 10,
        rows_returned: rows,
        rows_affected: 0,
        truncated: false,
    }
}

/// A connect failure.
fn refused() -> EgressError {
    EgressError::new("db", "DB_CONNECT", "refused".to_owned())
}

/// A well-formed `db` payload yields the SQL and a re-serialized params array.
#[test]
fn parses_db_sql_and_params() {
    let args = parse_db_payload(decode_db(r#"{"sql":"SELECT $1","params":[7]}"#))
        .unwrap_or_else(|_err| unreachable!("valid payload"));
    assert_eq!(args.sql, "SELECT $1");
    assert_eq!(args.params_json, "[7]");
}

/// Missing `db` params default to an empty array.
#[test]
fn defaults_missing_db_params() {
    let args = parse_db_payload(decode_db(r#"{"sql":"SELECT 1"}"#))
        .unwrap_or_else(|_err| unreachable!("valid payload"));
    assert_eq!(args.params_json, "[]");
}

/// The `auth` payload unpacks the token.
#[test]
fn parses_auth_token_field() {
    let token = parse_auth_token(decode_auth(r#"{"token":"abc"}"#))
        .unwrap_or_else(|_err| unreachable!("valid payload"));
    assert_eq!(token, "abc");
}

/// A malformed `db` payload is a developer-owned bad-payload error.
#[test]
fn rejects_malformed_db_payload() {
    let err = parse_db_payload(decode_db("42")).unwrap_err();
    assert_eq!(err.code, "DB_BAD_PAYLOAD");
    assert_eq!(err.source, "db");
    assert_eq!(err.owner, ErrorOwner::Developer);
}

/// A name with no backend wired for this session is a clear `IO_UNKNOWN`, not a panic.
#[test]
fn unknown_resource_is_rejected() {
    match BackendSet::new().call("nope", "ping", "{}") {
        CallStep::Rejected(err) => assert_eq!(err.code, "IO_UNKNOWN"),
        _ => panic!("the call is rejected"),
    }
}

/// The error for an unknown name says which name it was.
#[test]
fn unknown_egress_is_described() {
    let err = unknown_egress("nope");
    assert_eq!(err.source, "db");
    assert_eq!(err.code, "IO_UNKNOWN");
    assert_eq!(err.message, "unknown egress 'nope'");
    assert_eq!(err.owner, ErrorOwner::Developer);
    assert_eq!(err.details, None);
    assert!(!err.retryable);
}

/// Null params become an empty array, an array is written as it is.
#[test]
fn params_are_written_as_json() {
    let written = |json: &str| {
        let params: Value = serde_json::from_str(json).unwrap();
        parse_db_payload(Ok(DbPayload { sql: "s".to_owned(), params })).unwrap().params_json
    };
    assert_eq!(written("null"), "[]");
    assert_eq!(written("[]"), "[]");
    assert_eq!(written("[ 1 , \"two\", null, {\"k\": true} ]"), "[1,\"two\",null,{\"k\":true}]");
    assert_eq!(written("[[null]]"), "[[null]]");
}

/// The params text reads back as the params.
#[test]
fn params_read_back() {
    let params: Value = serde_json::from_str(r#"[7,"a\"b",[],{"k":[-1,null]},false]"#).unwrap();
    let payload = DbPayload { sql: "s".to_owned(), params: params.clone() };
    let args = parse_db_payload(Ok(payload)).unwrap();
    let read: Value = serde_json::from_str(&args.params_json).unwrap();
    assert_eq!(read, params);
}

/// Params that are no array make the payload malformed.
#[test]
fn params_of_another_shape_are_rejected() {
    for json in ["5", "-1.5", "true", "false", "\"null\"", "\"[1]\"", "{}", "{\"k\":[1]}"] {
        let params: Value = serde_json::from_str(json).unwrap();
        let err = parse_db_payload(Ok(DbPayload { sql: "s".to_owned(), params })).unwrap_err();
        assert_eq!(err.code, "DB_BAD_PAYLOAD");
        assert_eq!(err.source, "db");
        assert_eq!(err.message, "invalid db payload: params is not an array");
        assert_eq!(err.owner, ErrorOwner::Developer);
    }
}

/// What the params are and what a write of them came to decide what is handed on.
#[test]
fn unwritable_params_become_empty() {
    let text = || Some("[1]".to_owned());
    assert_eq!(params_or_empty(true, false, None), Some("[]".to_owned()));
    assert_eq!(params_or_empty(true, true, text()), Some("[]".to_owned()));
    assert_eq!(params_or_empty(false, true, None), Some("[]".to_owned()));
    assert_eq!(params_or_empty(false, true, text()), text());
    assert_eq!(params_or_empty(false, false, text()), None);
    assert_eq!(params_or_empty(false, false, None), None);
}

/// The decoder's account of a bad payload is passed on.
#[test]
fn bad_payloads_carry_the_cause() {
    let db = parse_db_payload(Err("why".to_owned())).unwrap_err();
    assert_eq!(db.message, "invalid db payload: why");
    let auth = parse_auth_token(Err("why".to_owned())).unwrap_err();
    assert_eq!(auth.source, "auth");
    assert_eq!(auth.code, "AUTH_REQUEST");
    assert_eq!(auth.message, "invalid auth payload: why");
    assert_eq!(auth.owner, ErrorOwner::Developer);
}

/// A missing token is an empty one.
#[test]
fn missing_token_is_empty() {
    assert_eq!(parse_auth_token(decode_auth("{}")).unwrap(), "");
}

/// A token that is not a string makes the payload malformed.
#[test]
fn token_of_another_shape_is_rejected() {
    let err = parse_auth_token(decode_auth(r#"{"token":5}"#)).unwrap_err();
    assert_eq!(err.code, "AUTH_REQUEST");
}

/// The first call to a name asks to connect it, with its own config and the session's deps.
#[test]
fn first_call_connects() {
    let runtime = runtime();
    let set = one_of_each(&runtime);
    match set.call("db", "query", "{}") {
        CallStep::Connect(ConnectRequest::Db { config, deps }) => {
            assert_eq!(config.statement_timeout_ms, 40);
            assert_eq!(config.settings, "{\"for\":\"db\"}");
            assert_eq!(deps.breaker, Some(3));
            assert_eq!(deps.timeout, Duration::from_millis(1_500));
            assert_eq!(deps.handle.id(), runtime.handle().id());
            assert_eq!(deps.handle.block_on(async { 7 }), 7);
        }
        _ => panic!("db connects first"),
    }
    match set.call("mail", "send", "{}") {
        CallStep::Connect(ConnectRequest::Mail(config)) => {
            assert_eq!(config.settings, "{\"for\":\"mail\"}");
        }
        _ => panic!("mail connects first"),
    }
    match set.call("redis", "get", "{}") {
        CallStep::Connect(ConnectRequest::Redis(config)) => {
            assert_eq!(config.settings, "{\"for\":\"redis\"}");
        }
        _ => panic!("redis connects first"),
    }
    match set.call("auth", "user_info", "{}") {
        CallStep::Connect(ConnectRequest::Auth(config)) => {
            assert_eq!(config.settings, "{\"for\":\"auth\"}");
        }
        _ => panic!("auth connects first"),
    }
}

/// A producer connects on each call: there is nothing to connect before.
#[test]
fn producer_is_called_at_once() {
    let runtime = runtime();
    let mut set = one_of_each(&runtime);
    set.connected("amq", Err(refused()));
    match set.call("amq", "send", "[]") {
        CallStep::Invoke(Invocation::Amq { config, action, payload_json }) => {
            assert_eq!(config.settings, "{\"for\":\"amq\"}");
            assert_eq!(action, "send");
            assert_eq!(payload_json, "[]");
        }
        _ => panic!("the producer is called"),
    }
}

/// A connected backend is called with the payload passed through or decoded.
#[test]
fn connected_backends_are_called() {
    let runtime = runtime();
    let mut set = one_of_each(&runtime);
    for (number, name) in (10..).zip(["db", "mail", "redis", "auth"]) {
        set.connected(name, Ok(number));
    }
    match set.call("mail", "send", "{\"to\":1}") {
        CallStep::Invoke(Invocation::Mail { backend, action, payload_json }) => {
            assert_eq!((backend, action.as_str()), (11, "send"));
            assert_eq!(payload_json, "{\"to\":1}");
        }
        _ => panic!("mail is called"),
    }
    match set.call("redis", "get", "{\"key\":1}") {
        CallStep::Invoke(Invocation::Redis { backend, action, payload_json }) => {
            assert_eq!((backend, action.as_str()), (12, "get"));
            assert_eq!(payload_json, "{\"key\":1}");
        }
        _ => panic!("redis is called"),
    }
    match set.call("db", "query", r#"{"sql":"SELECT 1"}"#) {
        CallStep::DecodeDb { backend, action, payload_json } => {
            match db_decoded(backend, action, decode_db(&payload_json)) {
                CallStep::Invoke(Invocation::Db { backend, action, args }) => {
                    assert_eq!(backend, 10);
                    assert_eq!(action, "query");
                    assert_eq!(args.sql, "SELECT 1");
                    assert_eq!(args.params_json, "[]");
                }
                _ => panic!("db is called"),
            }
        }
        _ => panic!("the db payload is decoded"),
    }
    match set.call("auth", "user_info", r#"{"token":"t"}"#) {
        CallStep::DecodeAuth { backend, action, payload_json } => {
            match auth_decoded(backend, action, decode_auth(&payload_json)) {
                CallStep::Invoke(Invocation::Auth { backend, action, token }) => {
                    assert_eq!((backend, action.as_str(), token.as_str()), (13, "user_info", "t"));
                }
                _ => panic!("auth is called"),
            }
        }
        _ => panic!("the auth payload is decoded"),
    }
}

/// A bad payload ends the call after the backend is connected.
#[test]
fn bad_payload_ends_the_call() {
    match db_decoded(1, "query".to_owned(), decode_db("42")) {
        CallStep::Rejected(err) => assert_eq!(err.code, "DB_BAD_PAYLOAD"),
        _ => panic!("the call is rejected"),
    }
    match auth_decoded(1, "user_info".to_owned(), decode_auth("42")) {
        CallStep::Rejected(err) => assert_eq!(err.code, "AUTH_REQUEST"),
        _ => panic!("the call is rejected"),
    }
}

/// A connect failure is kept, and comes before any look at the payload.
#[test]
fn connect_failure_is_kept() {
    let runtime = runtime();
    let mut set = one_of_each(&runtime);
    set.connected("db", Err(refused()));
    set.connected("db", Ok(1));
    for payload in ["42", r#"{"sql":"SELECT 1"}"#] {
        match set.call("db", "query", payload) {
            CallStep::Rejected(err) => {
                assert_eq!(err.code, "DB_CONNECT");
                assert_eq!(err.owner, ErrorOwner::Operator);
            }
            _ => panic!("the call is rejected"),
        }
    }
    assert!(
        matches!(set.call("redis", "get", "{}"), CallStep::Connect(_)),
        "other names are not touched"
    );
}

/// The first connected backend is kept, and an outcome for an unwired name wires nothing.
#[test]
fn first_backend_is_kept() {
    let runtime = runtime();
    let mut set = one_of_each(&runtime);
    set.connected("redis", Ok(1));
    set.connected("redis", Ok(2));
    set.connected("nope", Ok(3));
    match set.call("redis", "get", "{}") {
        CallStep::Invoke(Invocation::Redis { backend, .. }) => assert_eq!(backend, 1),
        _ => panic!("redis is called"),
    }
    assert!(matches!(set.call("nope", "get", "{}"), CallStep::Rejected(_)));
}

/// Two names of one kind keep their own backends.
#[test]
fn names_of_one_kind_coexist() {
    let runtime = runtime();
    let mut resolved = ResolvedResources::default();
    for name in ["pg", "cockroach"] {
        let binding = ResourceBinding::from_tag("db", 0, name.to_owned());
        resolved.by_name.insert(name.to_owned(), binding.expect("a kind"));
    }
    let mut set = BackendSet::from_configs(&resolved, &deps(&runtime));
    set.connected("pg", Ok(5));
    assert!(matches!(set.call("pg", "query", "{}"), CallStep::DecodeDb { backend: 5, .. }));
    match set.call("cockroach", "query", "{}") {
        CallStep::Connect(ConnectRequest::Db { config, .. }) => {
            assert_eq!(config.settings, "cockroach");
        }
        _ => panic!("the other name connects by itself"),
    }
}

/// Connected backends and producers are drained, in name order.
#[test]
fn drained_backends_are_listed() {
    let runtime = runtime();
    let mut set = one_of_each(&runtime);
    set.connected("redis", Ok(8));
    set.connected("db", Ok(9));
    set.connected("mail", Err(refused()));
    let targets: Vec<(String, Option<u64>)> =
        set.drain_targets().into_iter().map(|t| (t.name, t.backend)).collect();
    assert_eq!(
        targets,
        vec![
            ("amq".to_owned(), None),
            ("db".to_owned(), Some(9)),
            ("redis".to_owned(), Some(8)),
        ]
    );
}

/// Metrics are gathered by kind across names, in name order; untouched kinds stay empty.
#[test]
fn metrics_are_gathered_by_kind() {
    let runtime = runtime();
    let mut resolved = ResolvedResources::default();
    let declared = [("z-db", "db"), ("a-db", "db"), ("m", "redis"), ("q", "amq"), ("u", "db")];
    for (name, kind) in declared {
        let binding = ResourceBinding::from_tag(kind, 0, "{}".to_owned());
        resolved.by_name.insert(name.to_owned(), binding.expect("a kind"));
    }
    let mut set = BackendSet::from_configs(&resolved, &deps(&runtime));
    set.connected("z-db", Ok(0));
    set.connected("a-db", Ok(1));
    set.connected("m", Ok(2));
    let mut recorded: NameMap<Recorded> = NameMap::new();
    recorded.insert("z-db".to_owned(), Recorded::Db(vec![db_metric("query", 3)]));
    recorded.insert(
        "a-db".to_owned(),
        Recorded::Db(vec![db_metric("query", 1), db_metric("execute", 2)]),
    );
    let hit = RedisMetric { action: "get".to_owned(), duration_us: 1, bytes: 2, hit: true };
    recorded.insert("m".to_owned(), Recorded::Redis(vec![hit]));
    let sent = AmqMetric {
        action: "send".to_owned(),
        duration_us: 1,
        messages: 2,
        bytes: 3,
        published: true,
    };
    recorded.insert("q".to_owned(), Recorded::Amq(vec![sent]));
    recorded.insert("u".to_owned(), Recorded::Db(vec![db_metric("never connected", 9)]));
    recorded.insert("nope".to_owned(), Recorded::Db(vec![db_metric("not wired", 9)]));
    let metrics = set.metrics(recorded);
    assert_eq!(
        metrics.db,
        vec![db_metric("query", 1), db_metric("execute", 2), db_metric("query", 3)]
    );
    assert_eq!(metrics.redis.len(), 1);
    assert_eq!(metrics.amq.len(), 1);
    assert!(metrics.mongo.is_empty());
    assert!(metrics.mail.is_empty());
    assert!(metrics.auth.is_empty());
}

/// Two queries of one backend are two `db` entries, and nothing else is reported.
#[test]
fn two_queries_are_two_entries() {
    let runtime = runtime();
    let mut set = one_of_each(&runtime);
    set.connected("db", Ok(0));
    let mut recorded: NameMap<Recorded> = NameMap::new();
    let queries = vec![db_metric("query", 1), db_metric("query", 2)];
    recorded.insert("db".to_owned(), Recorded::Db(queries));
    recorded.insert("amq".to_owned(), Recorded::Amq(vec![]));
    let metrics = set.metrics(recorded);
    assert_eq!(metrics.db, vec![db_metric("query", 1), db_metric("query", 2)]);
    assert!(metrics.mongo.is_empty());
    assert!(metrics.mail.is_empty());
    assert!(metrics.redis.is_empty());
    assert!(metrics.amq.is_empty());
    assert!(metrics.auth.is_empty());
}

/// A set made by default has no resources wired.
#[test]
fn default_set_is_empty() {
    let set = BackendSet::default();
    assert!(set.drain_targets().is_empty());
    assert!(matches!(set.call("db", "query", "{}"), CallStep::Rejected(_)));
}

/// A session that connected nothing reports nothing.
#[test]
fn unused_session_reports_nothing() {
    let runtime = runtime();
    let set = one_of_each(&runtime);
    let mut recorded: NameMap<Recorded> = NameMap::new();
    recorded.insert("db".to_owned(), Recorded::Db(vec![db_metric("query", 1)]));
    let metrics = set.metrics(recorded);
    assert!(metrics.db.is_empty());
    assert!(metrics.amq.is_empty());
}

/// A slot is of its binding's kind and starts unconnected.
#[test]
fn slots_start_unconnected() {
    let runtime = runtime();
    let binding = ResourceBinding::from_tag("mail", 0, "{}".to_owned()).expect("a kind");
    let mut slot = BackendSlot::from_binding(&binding, &deps(&runtime));
    assert!(matches!(slot, BackendSlot::Mail(_)));
    assert_eq!(slot.connection(), None);
    slot.connected(Ok(6));
    assert_eq!(slot.connection(), Some(6));
}
