use documentdb_gateway::connection::Connection;
use documentdb_gateway::connection_pool::{ConnectionPool, PoolKey};
use documentdb_gateway::cursor_store::{Cursor, CursorStore};
use documentdb_gateway::error::GatewayError;
use documentdb_gateway::pool_manager::{PoolManager, AUTHENTICATION_MAX_CONNECTIONS,
    SYSTEM_REQUESTS_MAX_CONNECTIONS};
use documentdb_gateway::processor::{finish_get_more, handle_transaction, save_cursor,
    RequestTransactionInfo, RequestType};
use documentdb_gateway::transaction_store::TransactionStore;

fn test_pool_manager() -> PoolManager {
    let system_requests_pool = ConnectionPool::new_with_user(
        PoolKey::System,
        "system_user",
        "TestGateway-SystemRequests",
        SYSTEM_REQUESTS_MAX_CONNECTIONS,
        0,
    );
    let authentication_pool = ConnectionPool::new_with_user(
        PoolKey::Auth,
        "system_user",
        "TestGateway-PreAuthRequests",
        AUTHENTICATION_MAX_CONNECTIONS,
        0,
    );
    PoolManager::new(
        system_requests_pool,
        authentication_pool,
        "TestGateway".to_string(),
        "system_user".to_string(),
    )
}

fn txn(n: i64) -> Option<RequestTransactionInfo> {
    Some(RequestTransactionInfo { auto_commit: false, transaction_number: n })
}

#[test]
fn handle_creates_a_transaction_and_commit_resolves_it() {
    let mut pools = test_pool_manager();
    let mut transactions = TransactionStore::new(100);
    pools.allocate_data_pool("user", "pw", 10, 0, 0).unwrap();

    let ctx = handle_transaction(
        &mut transactions,
        &mut pools,
        RequestType::Insert,
        "appdb",
        txn(7),
        Some(vec![1u8]),
        "user",
        "pw",
        10,
        5,
    )
    .unwrap();
    let (session, number) = ctx.expect("a transaction context is set");
    assert_eq!(session, vec![1u8]);
    assert_eq!(number, 7);
    assert_eq!(
        pools.get_data_pool("user", "pw", 10).unwrap().status().status().size,
        1,
        "the transaction holds a pooled connection"
    );

    let conn = transactions.commit(&session).unwrap();
    pools.release_connection(conn.into_pool_connection());
    assert_eq!(pools.get_data_pool("user", "pw", 10).unwrap().status().status().size, 0);
}

#[test]
fn handle_without_a_declared_transaction_does_nothing() {
    let mut pools = test_pool_manager();
    let mut transactions = TransactionStore::new(100);
    let ctx = handle_transaction(
        &mut transactions,
        &mut pools,
        RequestType::Find,
        "appdb",
        None,
        Some(vec![1u8]),
        "user",
        "pw",
        10,
        0,
    )
    .unwrap();
    assert!(ctx.is_none());
}

#[test]
fn handle_rejects_index_ddl_before_any_resource() {
    let mut pools = test_pool_manager();
    let mut transactions = TransactionStore::new(100);
    pools.allocate_data_pool("user", "pw", 10, 0, 0).unwrap();
    let r = handle_transaction(
        &mut transactions,
        &mut pools,
        RequestType::CreateIndexes,
        "appdb",
        txn(1),
        Some(vec![1u8]),
        "user",
        "pw",
        10,
        0,
    );
    assert_eq!(r, Err(GatewayError::OperationNotSupportedInTransaction));
    assert_eq!(
        pools.get_data_pool("user", "pw", 10).unwrap().status().status().size,
        0,
        "a legality violation acquires no connection"
    );
}

#[test]
fn handle_rejects_reserved_database_data_operations() {
    let mut pools = test_pool_manager();
    let mut transactions = TransactionStore::new(100);
    let r = handle_transaction(
        &mut transactions,
        &mut pools,
        RequestType::Find,
        "admin",
        txn(1),
        Some(vec![1u8]),
        "user",
        "pw",
        10,
        0,
    );
    assert_eq!(r, Err(GatewayError::OperationNotSupportedInTransaction));
}

#[test]
fn handle_requires_a_provisioned_pool() {
    let mut pools = test_pool_manager();
    let mut transactions = TransactionStore::new(100);
    let r = handle_transaction(
        &mut transactions,
        &mut pools,
        RequestType::Insert,
        "appdb",
        txn(1),
        Some(vec![1u8]),
        "user",
        "pw",
        10,
        0,
    );
    assert_eq!(r, Err(GatewayError::PoolNotProvisioned));
}

#[test]
fn handle_treats_commit_of_committed_as_benign() {
    let mut pools = test_pool_manager();
    let mut transactions = TransactionStore::new(100);
    pools.allocate_data_pool("user", "pw", 10, 0, 0).unwrap();
    let session = vec![5u8];

    handle_transaction(
        &mut transactions,
        &mut pools,
        RequestType::Insert,
        "appdb",
        txn(1),
        Some(session.clone()),
        "user",
        "pw",
        10,
        0,
    )
    .unwrap();
    let conn = transactions.commit(&session).unwrap();
    pools.release_connection(conn.into_pool_connection());

    // the commit-triggering request re-sent after the successful commit
    let r = handle_transaction(
        &mut transactions,
        &mut pools,
        RequestType::CommitTransaction,
        "appdb",
        txn(1),
        Some(session.clone()),
        "user",
        "pw",
        10,
        1,
    );
    assert_eq!(r, Ok(None), "already committed is benign for a commit request");
    assert_eq!(
        pools.get_data_pool("user", "pw", 10).unwrap().status().status().size,
        0,
        "the briefly borrowed connection went back"
    );

    // any other request sees the hard condition
    let r = handle_transaction(
        &mut transactions,
        &mut pools,
        RequestType::Insert,
        "appdb",
        txn(1),
        Some(session),
        "user",
        "pw",
        10,
        2,
    );
    assert_eq!(r, Err(GatewayError::TransactionCommitted));
}

#[test]
fn save_cursor_selects_the_stateless_timeout() {
    let mut store = CursorStore::new();
    let displaced = save_cursor(
        &mut store,
        None,
        Cursor { cursor_id: 9, continuation: vec![1] },
        "alice".to_string(),
        "db".to_string(),
        "coll".to_string(),
        true,
        300,
        600,
        None,
        1000,
    );
    assert!(displaced.is_none());
    let entry = store.get_cursor(9, "alice", 1000).unwrap();
    assert!(entry.conn.is_none());
    assert_eq!(entry.cursor_timeout, 300);
    assert_eq!(entry.deadline, 1300);
}

#[test]
fn finish_get_more_re_saves_while_results_remain() {
    let mut pool = ConnectionPool::new_with_user(
        PoolKey::Shared { max_connections: 4 },
        "system_user",
        "TestGateway",
        4,
        0,
    );
    let mut store = CursorStore::new();
    let held = Connection::new(pool.acquire_connection(0).unwrap(), true);

    // more results remain: the cursor keeps its connection
    let released = finish_get_more(
        &mut store,
        Some(held),
        3,
        Some(vec![0x01]),
        "alice".to_string(),
        "db".to_string(),
        "coll".to_string(),
        None,
        120,
        true,
        600,
        50,
    );
    assert!(released.is_none());
    let entry = store.get_cursor(3, "alice", 60).unwrap();
    assert_eq!(entry.cursor.continuation, vec![0x01]);
    assert_eq!(entry.cursor_timeout, 120, "the stored timeout is kept while enabled");
    assert_eq!(entry.deadline, 170);

    // the cursor is exhausted: the connection comes back for release
    let released = finish_get_more(
        &mut store,
        entry.conn,
        3,
        None,
        "alice".to_string(),
        "db".to_string(),
        "coll".to_string(),
        None,
        120,
        true,
        600,
        60,
    );
    let conn = released.expect("an exhausted cursor frees its connection");
    pool.release_connection(conn.into_pool_connection());
    assert_eq!(pool.status().status().available, 4);
}

#[test]
fn finish_get_more_falls_back_to_the_default_timeout_when_disabled() {
    let mut store = CursorStore::new();
    let released = finish_get_more(
        &mut store,
        None,
        4,
        Some(vec![0x02]),
        "alice".to_string(),
        "db".to_string(),
        "coll".to_string(),
        None,
        120,
        false,
        600,
        0,
    );
    assert!(released.is_none());
    let entry = store.get_cursor(4, "alice", 0).unwrap();
    assert_eq!(entry.cursor_timeout, 600);
    assert_eq!(entry.deadline, 600);
}
