use documentdb_gateway::connection_pool::{ConnectionPool, PoolKey};
use documentdb_gateway::error::GatewayError;
use documentdb_gateway::pool_manager::{real_max_connections, PoolManager,
    AUTHENTICATION_MAX_CONNECTIONS, SYSTEM_REQUESTS_MAX_CONNECTIONS};

fn test_pool_manager() -> PoolManager {
    let system_requests_pool = ConnectionPool::new_with_user(
        PoolKey::System,
        "system_user",
        "TestGateway-SystemRequests",
        SYSTEM_REQUESTS_MAX_CONNECTIONS,
        0,
    );
    let authentication_pool = ConnectionPool::new_with_user(
        PoolKey::Auth,
        "system_user",
        "TestGateway-PreAuthRequests",
        AUTHENTICATION_MAX_CONNECTIONS,
        0,
    );
    PoolManager::new(
        system_requests_pool,
        authentication_pool,
        "TestGateway".to_string(),
        "system_user".to_string(),
    )
}

#[test]
fn validate_pool_reusage() {
    // for testing simplicity the system budget is 0
    let max_conn: usize = 100;
    let mut pool_manager = test_pool_manager();

    assert_eq!(
        2,
        pool_manager.report_pool_stats().len(),
        "by default only 2 system pools exist"
    );

    for _ in 0..10 {
        let shared_status = pool_manager.get_system_shared_pool(max_conn, 0, 0).status();
        assert_eq!(
            max_conn,
            shared_status.status().max_size,
            "Should have the same size as declared by the max-connections value"
        );

        assert_eq!(
            3,
            pool_manager.report_pool_stats().len(),
            "2 system pools + 1 shared pool"
        );
    }
}

#[test]
fn validate_max_conn_change() {
    let mut pool_manager = test_pool_manager();

    let first = pool_manager.get_system_shared_pool(100, 0, 0).status();

    // change the max connection
    let second = pool_manager.get_system_shared_pool(42, 0, 0).status();

    assert_ne!(
        first.status().max_size,
        second.status().max_size,
        "New pool doesn't have updated size"
    );

    assert_eq!(
        4,
        pool_manager.report_pool_stats().len(),
        "2 system pool + 2 shared system pool"
    );
}

#[test]
fn validate_user_pwd_change() {
    let max_conn: usize = 100;
    let mut pool_manager = test_pool_manager();

    // on first iteration it will allocate the user pool and all the rest iterations will be no-op
    for _ in 0..10 {
        pool_manager.allocate_data_pool("user", "before", max_conn, 0, 0).unwrap();

        assert_eq!(
            3,
            pool_manager.report_pool_stats().len(),
            "2 system pool + 1 user pool"
        );
    }

    pool_manager.allocate_data_pool("user", "after", max_conn, 0, 0).unwrap();

    assert_eq!(
        4,
        pool_manager.report_pool_stats().len(),
        "2 system pool + 2 user pool"
    );
}

#[test]
fn pool_identifiers_are_stable_and_descriptive() {
    let a = ConnectionPool::new_with_user(PoolKey::System, "usr", "App", 7, 0);
    let b = ConnectionPool::new_with_user(PoolKey::System, "usr", "App", 7, 5);
    assert_eq!(
        a.status().identifier(),
        b.status().identifier(),
        "the identifier depends on user, application name and capacity alone"
    );
    assert!(a.status().identifier().ends_with("-App-7"));
    let c = ConnectionPool::new_with_user(PoolKey::System, "usr", "App", 8, 0);
    assert!(c.status().identifier().ends_with("-App-8"));
    assert_ne!(a.status().identifier(), c.status().identifier());
}

#[test]
fn capacity_is_floored_at_the_budget() {
    assert_eq!(real_max_connections(100, 0), 100);
    assert_eq!(real_max_connections(100, 7), 93);
    assert_eq!(real_max_connections(10, 7), 7);
    assert_eq!(real_max_connections(3, 7), 7);
}

#[test]
fn data_pool_lookup_requires_provisioning() {
    let mut pool_manager = test_pool_manager();
    match pool_manager.get_data_pool("user", "pw", 100) {
        Err(e) => assert_eq!(e, GatewayError::PoolNotProvisioned),
        Ok(_) => panic!("lookup must fail before provisioning"),
    }
    pool_manager.allocate_data_pool("user", "pw", 100, 7, 0).unwrap();
    let pool = pool_manager.get_data_pool("user", "pw", 100).expect("provisioned");
    assert_eq!(pool.status().status().max_size, 93);
    // a different max-connections value is a different key
    assert!(pool_manager.get_data_pool("user", "pw", 50).is_err());
}

#[test]
fn acquire_and_release_recover_counts() {
    let mut pool_manager = test_pool_manager();
    pool_manager.allocate_data_pool("user", "pw", 9, 7, 0).unwrap();
    let conn = pool_manager.acquire_data_connection("user", "pw", 9, 1).unwrap();
    {
        let pool = pool_manager.get_data_pool("user", "pw", 9).unwrap();
        assert_eq!(pool.status().status().size, 1);
        assert_eq!(pool.status().status().available, 6);
    }
    pool_manager.release_connection(conn.into_pool_connection());
    let pool = pool_manager.get_data_pool("user", "pw", 9).unwrap();
    assert_eq!(pool.status().status().size, 0);
    assert_eq!(pool.status().status().available, 7);
}

#[test]
fn pool_exhaustion_is_an_acquire_timeout() {
    let mut pool_manager = test_pool_manager();
    // system pool has capacity 2
    let _c1 = pool_manager.system_requests_connection(1).unwrap();
    let _c2 = pool_manager.system_requests_connection(2).unwrap();
    match pool_manager.system_requests_connection(3) {
        Err(e) => assert_eq!(e, GatewayError::PoolAcquireTimeout),
        Ok(_) => panic!("third acquisition must time out"),
    }
}

#[test]
fn unused_pools_age_out() {
    let mut pool_manager = test_pool_manager();
    let _ = pool_manager.get_system_shared_pool(100, 0, 10).status();
    let _ = pool_manager.get_system_shared_pool(42, 0, 500).status();
    assert_eq!(4, pool_manager.report_pool_stats().len());
    // the sweep at tick 510 with a threshold of 500 keeps both
    pool_manager.clean_unused_pools(500, 510);
    assert_eq!(4, pool_manager.report_pool_stats().len());
    // at tick 600 the pool last used at 10 is older than 500 ticks
    pool_manager.clean_unused_pools(500, 600);
    assert_eq!(3, pool_manager.report_pool_stats().len());
}
