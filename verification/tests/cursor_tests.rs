use documentdb_gateway::connection::Connection;
use documentdb_gateway::connection_pool::{ConnectionPool, PoolKey};
use documentdb_gateway::cursor_store::{Cursor, CursorStore};
use documentdb_gateway::error::GatewayError;
use documentdb_gateway::processor::cursor_timeout_secs;

fn test_pool() -> ConnectionPool {
    ConnectionPool::new_with_user(PoolKey::Shared { max_connections: 8 }, "system_user",
        "TestGateway", 8, 0)
}

fn cursor(id: i64) -> Cursor {
    Cursor { cursor_id: id, continuation: vec![0xaa, 0xbb] }
}

fn add_stateless(store: &mut CursorStore, id: i64, user: &str, db: &str, coll: &str, now: u64) {
    let displaced = store.add_cursor(
        None,
        cursor(id),
        user.to_string(),
        db.to_string(),
        coll.to_string(),
        600,
        None,
        now,
    );
    assert!(displaced.is_none());
}

#[test]
fn get_cursor_unknown_id_is_not_found() {
    let mut store = CursorStore::new();
    match store.get_cursor(42, "alice", 0) {
        Err(e) => assert_eq!(e, GatewayError::CursorNotFound),
        Ok(_) => panic!("an id never added must not be found"),
    }
}

#[test]
fn get_cursor_removes_so_a_second_get_fails() {
    let mut store = CursorStore::new();
    add_stateless(&mut store, 42, "alice", "db", "coll", 0);
    let entry = store.get_cursor(42, "alice", 10).expect("stored cursor");
    assert_eq!(entry.cursor.cursor_id, 42);
    assert_eq!(entry.cursor.continuation, vec![0xaa, 0xbb]);
    match store.get_cursor(42, "alice", 10) {
        Err(e) => assert_eq!(e, GatewayError::CursorNotFound),
        Ok(_) => panic!("a removed cursor must not be found"),
    }
}

#[test]
fn get_cursor_expired_is_not_found() {
    let mut store = CursorStore::new();
    add_stateless(&mut store, 7, "alice", "db", "coll", 0);  // deadline 600
    match store.get_cursor(7, "alice", 601) {
        Err(e) => assert_eq!(e, GatewayError::CursorNotFound),
        Ok(_) => panic!("an expired cursor must not be served"),
    }
}

#[test]
fn cursor_access_is_scoped_to_its_owner() {
    let mut store = CursorStore::new();
    add_stateless(&mut store, 7, "alice", "db", "coll", 0);
    match store.get_cursor(7, "mallory", 1) {
        Err(e) => assert_eq!(e, GatewayError::CursorNotFound),
        Ok(_) => panic!("another user's cursor must not be visible"),
    }
    assert!(store.get_cursor(7, "alice", 1).is_ok());
}

#[test]
fn kill_cursors_partitions_and_releases() {
    let mut pool = test_pool();
    let mut store = CursorStore::new();
    let available_before = pool.status().status().available;

    // cursor a holds a connection, b does not exist
    let held = Connection::new(pool.acquire_connection(1).unwrap(), false);
    let displaced = store.add_cursor(
        Some(held),
        cursor(1),
        "alice".to_string(),
        "db".to_string(),
        "coll".to_string(),
        600,
        None,
        1,
    );
    assert!(displaced.is_none());
    assert_eq!(pool.status().status().available, available_before - 1);

    let (removed, missing, freed) = store.kill_cursors("alice", &vec![1, 2]);
    assert_eq!(removed, vec![1]);
    assert_eq!(missing, vec![2]);
    assert_eq!(freed.len(), 1);
    for c in freed {
        pool.release_connection(c.into_pool_connection());
    }
    assert_eq!(
        pool.status().status().available,
        available_before,
        "the held connection returns to its pool"
    );
}

#[test]
fn kill_cursors_is_best_effort_per_id() {
    let mut store = CursorStore::new();
    add_stateless(&mut store, 1, "alice", "db", "coll", 0);
    add_stateless(&mut store, 3, "alice", "db", "coll", 0);
    let (removed, missing, freed) = store.kill_cursors("alice", &vec![1, 2, 3, 1]);
    assert_eq!(removed, vec![1, 3]);
    assert_eq!(missing, vec![2, 1], "a repeated id is missing the second time");
    assert!(freed.is_empty());
}

#[test]
fn stateless_cursor_owns_no_connection_and_gets_the_shorter_timeout() {
    let timeout = cursor_timeout_secs(true, false, 300, 600);
    assert_eq!(timeout, 300, "stateless cursors expire on the stateless-specific timeout");
    assert_eq!(cursor_timeout_secs(true, true, 300, 600), 600);
    assert_eq!(cursor_timeout_secs(false, false, 300, 600), 600);

    let mut store = CursorStore::new();
    let displaced = store.add_cursor(
        None,
        cursor(5),
        "alice".to_string(),
        "db".to_string(),
        "coll".to_string(),
        timeout,
        None,
        100,
    );
    assert!(displaced.is_none());
    let entry = store.get_cursor(5, "alice", 100).unwrap();
    assert!(entry.conn.is_none(), "a stateless cursor never holds a connection");
    assert_eq!(entry.deadline, 400, "the deadline is the stateless timeout from now");
    assert_eq!(entry.cursor_timeout, 300);
}

#[test]
fn dropping_a_collection_invalidates_exactly_its_cursors() {
    let mut store = CursorStore::new();
    add_stateless(&mut store, 1, "alice", "db1", "orders", 0);
    add_stateless(&mut store, 2, "alice", "db1", "users", 0);
    add_stateless(&mut store, 3, "bob", "db1", "orders", 0);
    add_stateless(&mut store, 4, "alice", "db2", "orders", 0);

    let freed = store.invalidate_cursors_by_collection("db1", "orders");
    assert!(freed.is_empty());

    // every cursor scoped to (db1, orders) is gone, whoever owns it
    assert!(store.get_cursor(1, "alice", 1).is_err());
    assert!(store.get_cursor(3, "bob", 1).is_err());
    // cursors on other collections and databases are untouched
    assert!(store.get_cursor(2, "alice", 1).is_ok());
    assert!(store.get_cursor(4, "alice", 1).is_ok());
}

#[test]
fn dropping_a_database_invalidates_all_its_cursors() {
    let mut store = CursorStore::new();
    add_stateless(&mut store, 1, "alice", "db1", "orders", 0);
    add_stateless(&mut store, 2, "alice", "db1", "users", 0);
    add_stateless(&mut store, 3, "alice", "db2", "orders", 0);

    let freed = store.invalidate_cursors_by_database("db1");
    assert!(freed.is_empty());
    assert!(store.get_cursor(1, "alice", 1).is_err());
    assert!(store.get_cursor(2, "alice", 1).is_err());
    assert!(store.get_cursor(3, "alice", 1).is_ok());
}

#[test]
fn idle_sweep_reclaims_expired_cursors_and_their_connections() {
    let mut pool = test_pool();
    let mut store = CursorStore::new();
    let held = Connection::new(pool.acquire_connection(0).unwrap(), false);
    let displaced = store.add_cursor(
        Some(held),
        cursor(1),
        "alice".to_string(),
        "db".to_string(),
        "coll".to_string(),
        100,
        None,
        0,
    );
    assert!(displaced.is_none());
    add_stateless(&mut store, 2, "alice", "db", "coll", 200);  // deadline 800

    let freed = store.expire_cursors(150);
    assert_eq!(freed.len(), 1);
    for c in freed {
        pool.release_connection(c.into_pool_connection());
    }
    assert_eq!(pool.status().status().available, 8);
    assert!(store.get_cursor(1, "alice", 150).is_err());
    assert!(store.get_cursor(2, "alice", 150).is_ok());
}

#[test]
fn re_adding_a_cursor_replaces_and_returns_the_old_connection() {
    let mut pool = test_pool();
    let mut store = CursorStore::new();
    let held = Connection::new(pool.acquire_connection(0).unwrap(), false);
    let displaced = store.add_cursor(
        Some(held),
        cursor(1),
        "alice".to_string(),
        "db".to_string(),
        "coll".to_string(),
        600,
        None,
        0,
    );
    assert!(displaced.is_none());

    // the continuation is refreshed without a connection
    let displaced = store.add_cursor(
        None,
        Cursor { cursor_id: 1, continuation: vec![0xcc] },
        "alice".to_string(),
        "db".to_string(),
        "coll".to_string(),
        600,
        None,
        50,
    );
    let old_conn = displaced.expect("the replaced entry's connection is handed back");
    pool.release_connection(old_conn.into_pool_connection());
    assert_eq!(pool.status().status().available, 8);

    let entry = store.get_cursor(1, "alice", 60).unwrap();
    assert_eq!(entry.cursor.continuation, vec![0xcc]);
    assert_eq!(entry.deadline, 650);
}
