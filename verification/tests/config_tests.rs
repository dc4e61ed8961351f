use documentdb_gateway::config::{merged_configuration, ConfigEntry, ConfigStore};
use documentdb_gateway::error::GatewayError;

fn entry(key: &str, value: &str) -> ConfigEntry {
    ConfigEntry { key: key.to_string(), value: value.to_string() }
}

fn store(entries: Vec<ConfigEntry>) -> ConfigStore {
    ConfigStore::new(entries, 0)
}

#[test]
fn typed_getters_fall_back_to_defaults() {
    let s = store(vec![entry("a", "true"), entry("b", "17"), entry("c", "not-a-number")]);
    assert_eq!(s.get_bool("a", false), true);
    assert_eq!(s.get_bool("missing", true), true);
    assert_eq!(s.get_bool("b", true), true);
    assert_eq!(s.get_i32("b", 0), 17);
    assert_eq!(s.get_i32("c", -3), -3);
    assert_eq!(s.get_u64("b", 0), 17);
    assert_eq!(s.get_u64("missing", 99), 99);
    assert_eq!(s.get_str("c"), Some("not-a-number".to_string()));
    assert_eq!(s.get_str("missing"), None);
}

#[test]
fn equals_value_checks_exact_match() {
    let s = store(vec![entry("citus.use_secondary_nodes", "always")]);
    assert!(s.equals_value("citus.use_secondary_nodes", "always"));
    assert!(!s.equals_value("citus.use_secondary_nodes", "never"));
    assert!(!s.equals_value("missing", "always"));
}

#[test]
fn later_entries_shadow_earlier_ones() {
    let s = store(vec![entry("k", "1"), entry("k", "2")]);
    assert_eq!(s.get_i32("k", 0), 2);
}

#[test]
fn max_connections_floors_on_missing_or_bad_value() {
    let s = store(vec![]);
    assert_eq!(s.max_connections(), 25);
    let s = store(vec![entry("max_connections", "200")]);
    assert_eq!(s.max_connections(), 200);
    let s = store(vec![entry("max_connections", "-5")]);
    assert_eq!(s.max_connections(), 25);
}

#[test]
fn system_connection_budget_defaults_to_fixed_pools() {
    let s = store(vec![]);
    assert_eq!(s.system_connection_budget(), 7);
    let s = store(vec![entry("systemConnectionBudget", "0")]);
    assert_eq!(s.system_connection_budget(), 0);
    let s = store(vec![entry("systemConnectionBudget", "-2")]);
    assert_eq!(s.system_connection_budget(), 0);
}

#[test]
fn replica_cluster_detection() {
    let s = store(vec![
        entry("IsPostgresInRecovery", "true"),
        entry("citus.use_secondary_nodes", "always"),
    ]);
    assert!(s.is_replica_cluster());
    assert!(!s.is_postgres_writable());
    let s = store(vec![entry("IsPostgresInRecovery", "true")]);
    assert!(!s.is_replica_cluster());
    let s = store(vec![entry("simulateReadReplica", "true")]);
    assert!(s.is_replica_cluster());
    assert!(s.is_postgres_writable());
}

#[test]
fn cursor_timeout_accessors() {
    let s = store(vec![]);
    assert_eq!(s.default_cursor_idle_timeout_sec(), 600);
    assert_eq!(s.stateless_cursor_idle_timeout_sec(), 300);
    assert!(!s.enable_stateless_cursor_timeout());
    let s = store(vec![
        entry("enableStatelessCursorTimeout", "true"),
        entry("statelessCursorIdleTimeoutSecs", "30"),
    ]);
    assert!(s.enable_stateless_cursor_timeout());
    assert_eq!(s.stateless_cursor_idle_timeout_sec(), 30);
}

#[test]
fn merged_configuration_normalizes_and_strips() {
    let host = "{\"IsPrimary\":\"True\",\"SendShutdownResponses\":\"False\"}".to_string();
    let rows = vec![
        entry("documentdb.maxWriteBatchSize", "5"),
        entry("default_transaction_read_only", "on"),
        entry("some_flag", "off"),
    ];
    let prefixes = vec!["documentdb.".to_string()];
    let merged = merged_configuration(Some(&host), &rows, &prefixes, true);
    let s = ConfigStore::new(merged, 7);
    assert_eq!(s.get_str("IsPrimary"), Some("true".to_string()));
    assert_eq!(s.get_str("SendShutdownResponses"), Some("false".to_string()));
    assert_eq!(s.get_i32("maxWriteBatchSize", 0), 5);
    assert_eq!(s.get_str("default_transaction_read_only"), Some("true".to_string()));
    assert_eq!(s.get_str("some_flag"), Some("false".to_string()));
    assert_eq!(s.get_bool("IsPostgresInRecovery", false), true);
    assert_eq!(s.last_update_at(), 7);
}

#[test]
fn merged_configuration_survives_bad_host_file() {
    let host = "not json at all".to_string();
    let rows = vec![entry("k", "v")];
    let prefixes: Vec<String> = vec![];
    let merged = merged_configuration(Some(&host), &rows, &prefixes, false);
    let s = ConfigStore::new(merged, 0);
    assert_eq!(s.get_str("IsPrimary"), None);
    assert_eq!(s.get_str("k"), Some("v".to_string()));
    assert_eq!(s.get_bool("IsPostgresInRecovery", true), false);
}

#[test]
fn failed_reload_preserves_every_value() {
    let mut s = store(vec![entry("a", "1"), entry("b", "two")]);
    let r = s.apply_reload(None, 99);
    assert_eq!(r, Err(GatewayError::ConfigReloadFailed));
    assert_eq!(s.get_i32("a", 0), 1);
    assert_eq!(s.get_str("b"), Some("two".to_string()));
    assert_eq!(s.last_update_at(), 0);
}

#[test]
fn successful_reload_replaces_wholesale() {
    let mut s = store(vec![entry("a", "1"), entry("b", "two")]);
    let r = s.apply_reload(Some(vec![entry("c", "3")]), 42);
    assert_eq!(r, Ok(()));
    assert_eq!(s.get_str("a"), None);
    assert_eq!(s.get_str("b"), None);
    assert_eq!(s.get_i32("c", 0), 3);
    assert_eq!(s.last_update_at(), 42);
}
