use documentdb_gateway::connection::{execution_plan, set_timeout_sql, Timeout, TimeoutScope,
    DEFAULT_STATEMENT_TIMEOUT_MS};
use documentdb_gateway::error::{ErrorCode, GatewayError};
use documentdb_gateway::processor::{commit_of_committed_is_benign, kill_cursors_reply,
    resolve_transaction, split_namespace, transaction_legality, validate_rename,
    RequestTransactionInfo, RequestType, TransactionDecision};
use documentdb_gateway::telemetry::{error_code_to_status_code, EventId};

#[test]
fn index_ddl_is_illegal_inside_a_transaction() {
    for t in [
        RequestType::ReIndex,
        RequestType::CreateIndex,
        RequestType::CreateIndexes,
        RequestType::DropIndexes,
    ] {
        assert_eq!(
            transaction_legality(t, "anydb"),
            Err(GatewayError::OperationNotSupportedInTransaction)
        );
    }
    assert_eq!(transaction_legality(RequestType::Find, "anydb"), Ok(()));
}

#[test]
fn data_operations_against_reserved_databases_are_illegal() {
    for db in ["config", "admin", "local"] {
        assert_eq!(
            transaction_legality(RequestType::Insert, db),
            Err(GatewayError::OperationNotSupportedInTransaction)
        );
    }
    assert_eq!(transaction_legality(RequestType::Insert, "appdb"), Ok(()));
    // a non-data operation may address a reserved database
    assert_eq!(transaction_legality(RequestType::CommitTransaction, "admin"), Ok(()));
}

#[test]
fn resolve_transaction_cases() {
    let txn = Some(RequestTransactionInfo { auto_commit: false, transaction_number: 5 });
    assert_eq!(
        resolve_transaction(RequestType::Find, "db", None, true),
        TransactionDecision::NoTransaction
    );
    assert_eq!(
        resolve_transaction(
            RequestType::Find,
            "db",
            Some(RequestTransactionInfo { auto_commit: true, transaction_number: 5 }),
            true
        ),
        TransactionDecision::NoTransaction
    );
    assert_eq!(
        resolve_transaction(RequestType::CreateIndexes, "db", txn, true),
        TransactionDecision::Reject(GatewayError::OperationNotSupportedInTransaction)
    );
    assert_eq!(
        resolve_transaction(RequestType::Find, "local", txn, true),
        TransactionDecision::Reject(GatewayError::OperationNotSupportedInTransaction)
    );
    assert_eq!(
        resolve_transaction(RequestType::Find, "db", txn, false),
        TransactionDecision::Reject(GatewayError::InternalInvariantViolation)
    );
    assert_eq!(
        resolve_transaction(RequestType::Find, "db", txn, true),
        TransactionDecision::UseTransaction(5)
    );
}

#[test]
fn only_commit_of_committed_is_benign() {
    assert!(commit_of_committed_is_benign(
        RequestType::CommitTransaction,
        GatewayError::TransactionCommitted
    ));
    assert!(!commit_of_committed_is_benign(
        RequestType::Find,
        GatewayError::TransactionCommitted
    ));
    assert!(!commit_of_committed_is_benign(
        RequestType::CommitTransaction,
        GatewayError::TransactionNotFound
    ));
}

#[test]
fn kill_cursors_reply_shape() {
    let reply = kill_cursors_reply(vec![1], vec![2]);
    assert_eq!(reply.cursors_killed, vec![1]);
    assert_eq!(reply.cursors_not_found, vec![2]);
    assert!(reply.cursors_alive.is_empty());
    assert!(reply.cursors_unknown.is_empty());
}

#[test]
fn namespaces_split_at_the_first_dot() {
    let (db, coll) = split_namespace("mydb.orders").unwrap();
    assert_eq!(db, "mydb");
    assert_eq!(coll, "orders");
    let (db, coll) = split_namespace("mydb.orders.archive").unwrap();
    assert_eq!(db, "mydb");
    assert_eq!(coll, "orders.archive");
    assert!(split_namespace("nodot").is_none());
}

#[test]
fn rename_validation() {
    let (db, from, to) = validate_rename("db.a", "db.b").unwrap();
    assert_eq!(db, "db");
    assert_eq!(from, "a");
    assert_eq!(to, "b");
    assert_eq!(
        validate_rename("db1.a", "db2.a"),
        Err(GatewayError::CommandNotSupported),
        "a rename cannot change databases"
    );
    assert_eq!(
        validate_rename("db.a", "db.a"),
        Err(GatewayError::IllegalOperation),
        "a collection cannot be renamed to itself"
    );
    assert_eq!(validate_rename("plain", "db.b"), Err(GatewayError::BadValue));
}

#[test]
fn execution_plan_no_timeout_runs_directly() {
    let plan = execution_plan(false, None);
    assert!(!plan.begin);
    assert!(plan.set_timeout.is_none());
    assert!(!plan.commit_on_success);
    assert!(!plan.rollback_on_error);
    assert!(plan.reset_after.is_none());
}

#[test]
fn execution_plan_inside_ambient_transaction_sets_local_timeout() {
    // the requested kind does not matter inside an ambient transaction
    for timeout in [Timeout::command(Some(5000)), Timeout::transaction(Some(5000))] {
        let plan = execution_plan(true, timeout);
        assert!(!plan.begin);
        let set = plan.set_timeout.unwrap();
        assert_eq!(set.scope, TimeoutScope::Local);
        assert_eq!(set.ms, 5000);
        assert!(!plan.commit_on_success);
        assert!(!plan.rollback_on_error);
        let reset = plan.reset_after.unwrap();
        assert_eq!(reset.scope, TimeoutScope::Local);
        assert_eq!(reset.ms, DEFAULT_STATEMENT_TIMEOUT_MS);
    }
}

#[test]
fn execution_plan_transaction_timeout_frames_a_transaction() {
    let plan = execution_plan(false, Timeout::transaction(Some(7000)));
    assert!(plan.begin);
    let set = plan.set_timeout.unwrap();
    assert_eq!(set.scope, TimeoutScope::Local);
    assert_eq!(set.ms, 7000);
    assert!(plan.commit_on_success);
    assert!(plan.rollback_on_error);
    assert!(plan.reset_after.is_none());
}

#[test]
fn execution_plan_command_timeout_is_session_wide() {
    let plan = execution_plan(false, Timeout::command(Some(9000)));
    assert!(!plan.begin);
    let set = plan.set_timeout.unwrap();
    assert_eq!(set.scope, TimeoutScope::Session);
    assert_eq!(set.ms, 9000);
    assert!(!plan.commit_on_success);
    assert!(!plan.rollback_on_error);
    let reset = plan.reset_after.unwrap();
    assert_eq!(reset.scope, TimeoutScope::Session);
    assert_eq!(reset.ms, DEFAULT_STATEMENT_TIMEOUT_MS);
}

#[test]
fn no_timeout_requested_means_no_timeout() {
    assert!(Timeout::command(None).is_none());
    assert!(Timeout::transaction(None).is_none());
}

#[test]
fn timeout_statements() {
    assert_eq!(
        set_timeout_sql(TimeoutScope::Local, 5000).as_str(),
        "set local statement_timeout to 5000"
    );
    assert_eq!(
        set_timeout_sql(TimeoutScope::Session, 120000).as_str(),
        "set statement_timeout to 120000"
    );
}

#[test]
fn status_codes_for_telemetry() {
    assert_eq!(error_code_to_status_code(0), 200);
    assert_eq!(error_code_to_status_code(18), 401);
    assert_eq!(error_code_to_status_code(13), 401);
    assert_eq!(error_code_to_status_code(1), 500);
    assert_eq!(error_code_to_status_code(50), 408);
    assert_eq!(error_code_to_status_code(11000), 409);
    assert_eq!(error_code_to_status_code(43), 400);
    assert_eq!(error_code_to_status_code(-7), 400);
}

#[test]
fn gateway_errors_carry_their_wire_codes() {
    assert_eq!(GatewayError::PoolAcquireTimeout.error_code(), ErrorCode::ExceededTimeLimit);
    assert_eq!(
        GatewayError::TransactionCommitted.error_code(),
        ErrorCode::TransactionCommitted
    );
    assert_eq!(GatewayError::TransactionNotFound.error_code(), ErrorCode::NoSuchTransaction);
    assert_eq!(GatewayError::CursorNotFound.error_code(), ErrorCode::CursorNotFound);
    assert_eq!(
        GatewayError::OperationNotSupportedInTransaction.error_code(),
        ErrorCode::OperationNotSupportedInTransaction
    );
    assert_eq!(GatewayError::OperationNotSupportedInTransaction.error_code().code(), 263);
    assert_eq!(GatewayError::TransactionNotFound.error_code().code(), 251);
    assert_eq!(ErrorCode::from_i32(263), Some(ErrorCode::OperationNotSupportedInTransaction));
    assert_eq!(ErrorCode::from_i32(12345), None);
}

#[test]
fn event_codes() {
    assert_eq!(EventId::Default.code(), 1);
    assert_eq!(EventId::Probe.code(), 2000);
    assert_eq!(EventId::RequestTrace.code(), 2001);
}
