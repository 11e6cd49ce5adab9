use postgres::types::Type;
use std::sync::Arc;
use titan_runtime::db::{
    column_kind, ColumnKind, OID_BOOL, OID_BPCHAR, OID_FLOAT4, OID_FLOAT8, OID_INT2, OID_INT4,
    OID_INT8, OID_JSON, OID_JSONB, OID_NAME, OID_TEXT, OID_VARCHAR,
};
use titan_runtime::registry::{str_eq, wrap_action_source, ActionRegistry};
use titan_runtime::pool::{
    queue_capacity, reply_or_closed, settle, worker_count, ActionReply, Invocation,
};
use titan_runtime::shared::ShareContextStore;

fn s(x: &str) -> String {
    x.to_string()
}

fn error_text(r: ActionReply) -> String {
    match r {
        ActionReply::Error(m) => m,
        ActionReply::Value(v) => panic!("not an error: {}", v),
    }
}

#[test]
fn pool_sizes() {
    assert_eq!(worker_count(8), 32);
    assert_eq!(queue_capacity(32), 64000);
    assert_eq!(queue_capacity(0), 0);
}

#[test]
fn missing_action_is_reported_by_name() {
    assert_eq!(error_text(settle("nope", Invocation::Missing)), "Action 'nope' not found");
}

#[test]
fn thrown_errors_become_error_replies() {
    assert_eq!(error_text(settle("a", Invocation::Threw(Some(s("boom"))))), "boom");
    assert_eq!(error_text(settle("a", Invocation::Threw(None))), "Unknown error");
    assert_eq!(error_text(settle("a", Invocation::Returned(None))), "Unknown error");
}

#[test]
fn failure_does_not_affect_next_reply() {
    let first = settle("a", Invocation::Threw(Some(s("boom"))));
    assert_eq!(error_text(first), "boom");
    match settle("a", Invocation::Returned(Some(s("{\"ok\":true}")))) {
        ActionReply::Value(v) => assert_eq!(v, "{\"ok\":true}"),
        ActionReply::Error(e) => panic!("unexpected error {}", e),
    }
}

#[test]
fn closed_channel_is_an_error() {
    assert_eq!(error_text(reply_or_closed(None)), "Worker channel closed");
    match reply_or_closed(Some(ActionReply::Value(s("1")))) {
        ActionReply::Value(v) => assert_eq!(v, "1"),
        ActionReply::Error(e) => panic!("unexpected error {}", e),
    }
}

#[test]
fn shared_context_is_seen_by_every_worker() {
    let store = Arc::new(ShareContextStore::new());
    let worker_a = Arc::clone(&store);
    let worker_b = Arc::clone(&store);
    worker_a.set(s("count"), serde_json::Value::from(3u64));
    assert_eq!(worker_b.value_of("count"), Some(serde_json::Value::from(3u64)));
    assert_eq!(worker_b.keys(), vec![s("count")]);
    worker_b.set(s("count"), serde_json::Value::from(4u64));
    assert_eq!(worker_a.value_of("count"), Some(serde_json::Value::from(4u64)));
    worker_b.delete("count");
    assert_eq!(worker_a.value_of("count"), None);
    assert!(worker_a.keys().is_empty());
    worker_a.delete("never-set");
    assert_eq!(worker_a.value_of("never-set"), None);
}

#[test]
fn broadcast_reaches_only_earlier_listeners() {
    let store = ShareContextStore::new();
    assert_eq!(store.broadcast(s("nobody"), serde_json::Value::Null), None);
    let mut early = store.subscribe();
    assert_eq!(store.broadcast(s("tick"), serde_json::Value::from(1u64)), Some(1));
    let mut late = store.subscribe();
    let (event, payload) = early.try_recv().expect("delivered");
    assert_eq!(event, "tick");
    assert_eq!(payload, serde_json::Value::from(1u64));
    assert!(late.try_recv().is_err());
}

#[test]
fn registry_lookup_finds_registered_actions() {
    let mut reg: ActionRegistry<u32> = ActionRegistry::new();
    assert_eq!(reg.lookup("a"), None);
    reg.register(s("a"), 1);
    reg.register(s("b"), 2);
    reg.register(s("a"), 3);
    assert_eq!(reg.lookup("a"), Some(&3));
    assert_eq!(reg.lookup("b"), Some(&2));
    assert_eq!(reg.lookup("c"), None);
    assert_eq!(reg.lookup(""), None);
}

#[test]
fn action_source_is_wrapped_once() {
    assert_eq!(
        wrap_action_source("globalThis.x = 1;", "x"),
        "(function() { globalThis.x = 1; })(); globalThis[\"x\"];"
    );
    assert!(str_eq("abc", "abc"));
    assert!(!str_eq("abc", "abd"));
    assert!(!str_eq("ab", "abc"));
}

#[test]
fn column_types_map_to_json_kinds() {
    assert_eq!(column_kind(16), ColumnKind::Bool);
    assert_eq!(column_kind(20), ColumnKind::Integer);
    assert_eq!(column_kind(21), ColumnKind::Integer);
    assert_eq!(column_kind(23), ColumnKind::Integer);
    assert_eq!(column_kind(700), ColumnKind::Float);
    assert_eq!(column_kind(701), ColumnKind::Float);
    assert_eq!(column_kind(25), ColumnKind::Text);
    assert_eq!(column_kind(1043), ColumnKind::Text);
    assert_eq!(column_kind(1042), ColumnKind::Text);
    assert_eq!(column_kind(19), ColumnKind::Text);
    assert_eq!(column_kind(114), ColumnKind::Json);
    assert_eq!(column_kind(3802), ColumnKind::Json);
    assert_eq!(column_kind(1082), ColumnKind::Unsupported);
}

#[test]
fn column_type_numbers_are_the_database_ones() {
    assert_eq!(Type::BOOL.oid(), OID_BOOL);
    assert_eq!(Type::NAME.oid(), OID_NAME);
    assert_eq!(Type::INT2.oid(), OID_INT2);
    assert_eq!(Type::INT4.oid(), OID_INT4);
    assert_eq!(Type::INT8.oid(), OID_INT8);
    assert_eq!(Type::TEXT.oid(), OID_TEXT);
    assert_eq!(Type::VARCHAR.oid(), OID_VARCHAR);
    assert_eq!(Type::BPCHAR.oid(), OID_BPCHAR);
    assert_eq!(Type::FLOAT4.oid(), OID_FLOAT4);
    assert_eq!(Type::FLOAT8.oid(), OID_FLOAT8);
    assert_eq!(Type::JSON.oid(), OID_JSON);
    assert_eq!(Type::JSONB.oid(), OID_JSONB);
}
