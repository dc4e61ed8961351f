use documentdb_gateway::connection::Connection;
use documentdb_gateway::connection_pool::{ConnectionPool, PoolKey};
use documentdb_gateway::error::GatewayError;
use documentdb_gateway::transaction_store::TransactionStore;

fn test_pool() -> ConnectionPool {
    ConnectionPool::new_with_user(PoolKey::System, "system_user", "TestGateway", 5, 0)
}

fn borrowed(pool: &mut ConnectionPool) -> Connection {
    Connection::new(pool.acquire_connection(0).unwrap(), true)
}

#[test]
fn create_commit_round_trip() {
    let mut pool = test_pool();
    let mut store = TransactionStore::new(100);
    let session = vec![1u8, 2, 3];

    store.create(session.clone(), 7, borrowed(&mut pool), 10).unwrap();
    let conn = store.commit(&session).expect("commit returns the held connection");
    pool.release_connection(conn.into_pool_connection());
    assert_eq!(pool.status().status().available, 5);
}

#[test]
fn commit_of_committed_session_is_the_benign_condition() {
    let mut pool = test_pool();
    let mut store = TransactionStore::new(100);
    let session = vec![9u8];

    store.create(session.clone(), 1, borrowed(&mut pool), 0).unwrap();
    let conn = store.commit(&session).unwrap();
    pool.release_connection(conn.into_pool_connection());

    // the commit-triggering request re-sent after a successful commit
    assert!(matches!(store.commit(&session), Err(GatewayError::TransactionCommitted)));

    // a new create for the committed session reports the same condition
    let spare = borrowed(&mut pool);
    match store.create(session.clone(), 1, spare, 5) {
        Err((e, returned)) => {
            assert_eq!(e, GatewayError::TransactionCommitted);
            pool.release_connection(returned.into_pool_connection());
        },
        Ok(()) => panic!("create on a committed session must not succeed"),
    }
}

#[test]
fn abort_without_active_transaction_is_not_found() {
    let mut store = TransactionStore::new(100);
    let session = vec![4u8, 4];
    assert!(matches!(store.abort(&session), Err(GatewayError::TransactionNotFound)));

    // a committed marker is not an active transaction either
    let mut pool = test_pool();
    store.create(session.clone(), 2, borrowed(&mut pool), 0).unwrap();
    let conn = store.commit(&session).unwrap();
    pool.release_connection(conn.into_pool_connection());
    assert!(matches!(store.abort(&session), Err(GatewayError::TransactionNotFound)));
}

#[test]
fn abort_releases_and_removes() {
    let mut pool = test_pool();
    let mut store = TransactionStore::new(100);
    let session = vec![8u8];

    store.create(session.clone(), 3, borrowed(&mut pool), 0).unwrap();
    let conn = store.abort(&session).expect("abort returns the held connection");
    pool.release_connection(conn.into_pool_connection());
    assert_eq!(pool.status().status().available, 5);

    // the entry is gone entirely, so a second abort finds nothing
    assert!(matches!(store.abort(&session), Err(GatewayError::TransactionNotFound)));
    // and a new transaction can start for the session
    store.create(session.clone(), 4, borrowed(&mut pool), 1).unwrap();
}

#[test]
fn sessions_are_independent() {
    let mut pool = test_pool();
    let mut store = TransactionStore::new(100);
    store.create(vec![1u8], 1, borrowed(&mut pool), 0).unwrap();
    store.create(vec![2u8], 1, borrowed(&mut pool), 0).unwrap();

    let conn = store.commit(&vec![1u8]).unwrap();
    pool.release_connection(conn.into_pool_connection());
    // the other session's transaction is still active
    let conn = store.abort(&vec![2u8]).unwrap();
    pool.release_connection(conn.into_pool_connection());
}

#[test]
fn expiry_sweep_reclaims_abandoned_transactions() {
    let mut pool = test_pool();
    let mut store = TransactionStore::new(100);
    store.create(vec![1u8], 1, borrowed(&mut pool), 0).unwrap();  // deadline 100
    store.create(vec![2u8], 1, borrowed(&mut pool), 50).unwrap();  // deadline 150

    let freed = store.expire(120);
    assert_eq!(freed.len(), 1, "only the abandoned transaction is reclaimed");
    for c in freed {
        pool.release_connection(c.into_pool_connection());
    }
    assert_eq!(pool.status().status().available, 4);

    // the surviving session can still be resolved
    let conn = store.commit(&vec![2u8]).unwrap();
    pool.release_connection(conn.into_pool_connection());
    // the expired one is gone
    assert!(matches!(store.abort(&vec![1u8]), Err(GatewayError::TransactionNotFound)));
}
