//! Request-level orchestration rules: which operations a transaction
//! admits, how the transaction context of a request is resolved, the
//! kill-cursors reply shape, cursor timeout selection, and collection-name
//! handling.

use vstd::prelude::*;
use crate::connection::Connection;
use crate::cursor_store::{cursor_key, Cursor, CursorStore};
use crate::error::GatewayError;
use crate::pool_manager::{user_key, PoolManager};
use crate::registry::entry_at;
use crate::transaction_store::{txn_key, TransactionStore};

verus! {

/// The kinds of request the gateway routes.
#[derive(Clone, Copy, Debug, PartialEq, Eq, Structural)]
pub enum RequestType {
    Aggregate,
    Count,
    Distinct,
    Find,
    FindAndModify,
    GetMore,
    Insert,
    Update,
    ReIndex,
    CreateIndex,
    CreateIndexes,
    DropIndexes,
    CommitTransaction,
    AbortTransaction,
    KillCursors,
    Other,
}

/// Whether this request kind is schema or index DDL, which a transaction
/// rejects.
pub open spec fn spec_is_index_ddl(t: RequestType) -> bool {
    t is ReIndex || t is CreateIndex || t is CreateIndexes || t is DropIndexes
}

/// Whether this request kind is a data operation, which a transaction
/// rejects against reserved databases.
pub open spec fn spec_is_data_operation(t: RequestType) -> bool {
    t is Aggregate || t is FindAndModify || t is Update || t is Insert || t is Count
        || t is Distinct || t is Find || t is GetMore
}

/// Whether this database name is reserved for the deployment itself.
pub open spec fn spec_is_reserved_db(db: Seq<char>) -> bool {
    db == "config"@ || db == "admin"@ || db == "local"@
}

/// Whether this request kind is schema or index DDL.
pub fn is_index_ddl(t: RequestType) -> (r: bool)
    ensures
        r == spec_is_index_ddl(t),
{
    match t {
        RequestType::ReIndex => true,
        RequestType::CreateIndex => true,
        RequestType::CreateIndexes => true,
        RequestType::DropIndexes => true,
        _ => false,
    }
}

/// Whether this request kind is a data operation.
pub fn is_data_operation(t: RequestType) -> (r: bool)
    ensures
        r == spec_is_data_operation(t),
{
    match t {
        RequestType::Aggregate => true,
        RequestType::FindAndModify => true,
        RequestType::Update => true,
        RequestType::Insert => true,
        RequestType::Count => true,
        RequestType::Distinct => true,
        RequestType::Find => true,
        RequestType::GetMore => true,
        _ => false,
    }
}

/// Whether this database name is reserved for the deployment itself.
pub fn is_reserved_db(db: &str) -> (r: bool)
    ensures
        r == spec_is_reserved_db(db@),
{
    let d = String::from_str(db);
    d == String::from_str("config") || d == String::from_str("admin") || d == String::from_str(
        "local",
    )
}

/// Whether a request may run inside a multi-statement transaction:
/// no schema or index DDL, and no data operation against a reserved
/// database.  Violations surface here, before any resource is acquired.
pub open spec fn spec_transaction_legality(t: RequestType, db: Seq<char>) -> Result<
    (),
    GatewayError,
> {
    if spec_is_index_ddl(t) {
        Err(GatewayError::OperationNotSupportedInTransaction)
    } else if spec_is_data_operation(t) && spec_is_reserved_db(db) {
        Err(GatewayError::OperationNotSupportedInTransaction)
    } else {
        Ok(())
    }
}

/// Checks whether a request may run inside a transaction.
pub fn transaction_legality(t: RequestType, db: &str) -> (r: Result<(), GatewayError>)
    ensures
        r == spec_transaction_legality(t, db@),
{
    if is_index_ddl(t) {
        Err(GatewayError::OperationNotSupportedInTransaction)
    } else if is_data_operation(t) && is_reserved_db(db) {
        Err(GatewayError::OperationNotSupportedInTransaction)
    } else {
        Ok(())
    }
}

/// The transaction declaration a request carries.
#[derive(Clone, Copy, Debug, PartialEq, Eq, Structural)]
pub struct RequestTransactionInfo {
    /// Whether the request runs auto-committed, outside any
    /// multi-statement transaction.
    pub auto_commit: bool,
    pub transaction_number: i64,
}

/// What the transaction layer decides for one request before it runs.
#[derive(Clone, Copy, Debug, PartialEq, Eq, Structural)]
pub enum TransactionDecision {
    /// No transaction declared, or auto-commit: run outside a transaction.
    NoTransaction,
    /// The request is illegal inside a transaction, or its session id is
    /// missing: reject with this error.
    Reject(GatewayError),
    /// Create or join the session's transaction with this number.
    UseTransaction(i64),
}

/// How a request's transaction context is resolved, before any resource is
/// acquired: nothing declared or auto-commit runs outside a transaction;
/// index DDL, and data operations against reserved databases, are rejected;
/// a transactional request without a session id violates an internal
/// invariant; everything else joins the session's transaction.
pub open spec fn spec_resolve_transaction(
    t: RequestType,
    db: Seq<char>,
    txn: Option<RequestTransactionInfo>,
    has_session: bool,
) -> TransactionDecision {
    match txn {
        None => TransactionDecision::NoTransaction,
        Some(info) => if info.auto_commit {
            TransactionDecision::NoTransaction
        } else if spec_is_index_ddl(t) {
            TransactionDecision::Reject(GatewayError::OperationNotSupportedInTransaction)
        } else if spec_is_data_operation(t) && spec_is_reserved_db(db) {
            TransactionDecision::Reject(GatewayError::OperationNotSupportedInTransaction)
        } else if !has_session {
            TransactionDecision::Reject(GatewayError::InternalInvariantViolation)
        } else {
            TransactionDecision::UseTransaction(info.transaction_number)
        },
    }
}

/// Resolves the transaction context of one request.
pub fn resolve_transaction(
    t: RequestType,
    db: &str,
    txn: Option<RequestTransactionInfo>,
    has_session: bool,
) -> (r: TransactionDecision)
    ensures
        r == spec_resolve_transaction(t, db@, txn, has_session),
{
    match txn {
        None => TransactionDecision::NoTransaction,
        Some(info) => {
            if info.auto_commit {
                return TransactionDecision::NoTransaction;
            }
            match transaction_legality(t, db) {
                Err(e) => TransactionDecision::Reject(e),
                Ok(()) => {
                    if !has_session {
                        TransactionDecision::Reject(GatewayError::InternalInvariantViolation)
                    } else {
                        TransactionDecision::UseTransaction(info.transaction_number)
                    }
                },
            }
        },
    }
}

/// Whether a failed transaction creation is benign for this request: a
/// commit-triggering request finding the transaction already committed is
/// answered as a success, every other failure propagates.
pub open spec fn spec_commit_of_committed_is_benign(t: RequestType, e: GatewayError) -> bool {
    t is CommitTransaction && e is TransactionCommitted
}

/// Decides whether a failed transaction creation is benign for this
/// request.
pub fn commit_of_committed_is_benign(t: RequestType, e: GatewayError) -> (r: bool)
    ensures
        r == spec_commit_of_committed_is_benign(t, e),
{
    match (t, e) {
        (RequestType::CommitTransaction, GatewayError::TransactionCommitted) => true,
        _ => false,
    }
}

/// The wire-level reply to a kill-cursors request: four disjoint id sets.
pub struct KillCursorsReply {
    pub cursors_killed: Vec<i64>,
    pub cursors_not_found: Vec<i64>,
    pub cursors_alive: Vec<i64>,
    pub cursors_unknown: Vec<i64>,
}

/// Builds the kill-cursors reply from the store's best-effort partition:
/// the removed ids were killed, the missing ids were not found, and the
/// alive and unknown sets are always empty.
pub fn kill_cursors_reply(removed: Vec<i64>, missing: Vec<i64>) -> (r: KillCursorsReply)
    ensures
        r.cursors_killed@ == removed@,
        r.cursors_not_found@ == missing@,
        r.cursors_alive@.len() == 0,
        r.cursors_unknown@.len() == 0,
{
    KillCursorsReply {
        cursors_killed: removed,
        cursors_not_found: missing,
        cursors_alive: Vec::new(),
        cursors_unknown: Vec::new(),
    }
}

/// The idle timeout a newly saved cursor receives, in seconds: the shorter
/// stateless-specific value applies exactly when stateless-cursor timeouts
/// are enabled and no connection was supplied; everything else receives
/// the default.
pub open spec fn spec_cursor_timeout_secs(
    enable_stateless_timeout: bool,
    has_connection: bool,
    stateless_secs: u64,
    default_secs: u64,
) -> u64 {
    if enable_stateless_timeout && !has_connection {
        stateless_secs
    } else {
        default_secs
    }
}

/// Selects the idle timeout for a cursor about to be saved.
pub fn cursor_timeout_secs(
    enable_stateless_timeout: bool,
    has_connection: bool,
    stateless_secs: u64,
    default_secs: u64,
) -> (r: u64)
    ensures
        r == spec_cursor_timeout_secs(
            enable_stateless_timeout,
            has_connection,
            stateless_secs,
            default_secs,
        ),
{
    if enable_stateless_timeout && !has_connection {
        stateless_secs
    } else {
        default_secs
    }
}

/// The idle timeout a continued cursor is re-saved with, in seconds: the
/// timeout it was stored with while stateless-cursor timeouts are enabled,
/// the default otherwise.
pub open spec fn spec_get_more_timeout_secs(
    enable_stateless_timeout: bool,
    stored_secs: u64,
    default_secs: u64,
) -> u64 {
    if enable_stateless_timeout {
        stored_secs
    } else {
        default_secs
    }
}

/// Selects the idle timeout for re-saving a continued cursor.
pub fn get_more_timeout_secs(
    enable_stateless_timeout: bool,
    stored_secs: u64,
    default_secs: u64,
) -> (r: u64)
    ensures
        r == spec_get_more_timeout_secs(enable_stateless_timeout, stored_secs, default_secs),
{
    if enable_stateless_timeout {
        stored_secs
    } else {
        default_secs
    }
}

/// Persists a response's cursor continuation: a connection is kept exactly
/// where the response asked for persistence, and the idle timeout is the
/// stateless-specific value exactly where stateless-cursor timeouts are
/// enabled and no connection is kept.  Where an entry for the same cursor
/// and owner was present, its connection is handed back for release.
pub fn save_cursor(
    store: &mut CursorStore,
    connection: Option<Connection>,
    cursor: Cursor,
    username: String,
    db: String,
    collection: String,
    enable_stateless_timeout: bool,
    stateless_secs: u64,
    default_secs: u64,
    session_id: Option<Vec<u8>>,
    now: u64,
) -> (r: Option<Connection>)
    requires
        old(store).wf(),
    ensures
        final(store).wf(),
        forall|k2: (int, Seq<char>)|
            k2 != (cursor.cursor_id as int, username@) ==> entry_at(
                final(store).spec_entries(),
                cursor_key(),
                k2,
            ) == entry_at(old(store).spec_entries(), cursor_key(), k2),
        ({
            let timeout = spec_cursor_timeout_secs(
                enable_stateless_timeout,
                connection.is_some(),
                stateless_secs,
                default_secs,
            );
            entry_at(
                final(store).spec_entries(),
                cursor_key(),
                (cursor.cursor_id as int, username@),
            ) matches Some(e2) && e2.conn == connection && e2.cursor == cursor
                && e2.cursor_timeout == timeout && e2.deadline == (if now + timeout <= u64::MAX {
                now + timeout
            } else {
                u64::MAX as int
            })
        }),
        match entry_at(
            old(store).spec_entries(),
            cursor_key(),
            (cursor.cursor_id as int, username@),
        ) {
            Some(e) => r == e.conn,
            None => r is None,
        },
{
    let timeout = cursor_timeout_secs(
        enable_stateless_timeout,
        connection.is_some(),
        stateless_secs,
        default_secs,
    );
    store.add_cursor(connection, cursor, username, db, collection, timeout, session_id, now)
}

/// Finishes one continuation batch: where more results remain, the cursor
/// is re-saved with a refreshed deadline — under its stored timeout while
/// stateless-cursor timeouts are enabled, under the default otherwise —
/// and keeps its connection; where the cursor is exhausted, its connection
/// is handed back for release, as is the connection of any entry the
/// re-save displaced.
pub fn finish_get_more(
    store: &mut CursorStore,
    cursor_connection: Option<Connection>,
    cursor_id: i64,
    continuation: Option<Vec<u8>>,
    username: String,
    db: String,
    collection: String,
    session_id: Option<Vec<u8>>,
    stored_timeout_secs: u64,
    enable_stateless_timeout: bool,
    default_secs: u64,
    now: u64,
) -> (r: Option<Connection>)
    requires
        old(store).wf(),
    ensures
        final(store).wf(),
        forall|k2: (int, Seq<char>)|
            k2 != (cursor_id as int, username@) ==> entry_at(
                final(store).spec_entries(),
                cursor_key(),
                k2,
            ) == entry_at(old(store).spec_entries(), cursor_key(), k2),
        match continuation {
            Some(token) => {
                let timeout = spec_get_more_timeout_secs(
                    enable_stateless_timeout,
                    stored_timeout_secs,
                    default_secs,
                );
                &&& r == (match entry_at(
                    old(store).spec_entries(),
                    cursor_key(),
                    (cursor_id as int, username@),
                ) {
                    Some(e) => e.conn,
                    None => None,
                })
                &&& entry_at(
                    final(store).spec_entries(),
                    cursor_key(),
                    (cursor_id as int, username@),
                ) matches Some(e2) && e2.conn == cursor_connection && e2.cursor.cursor_id
                    == cursor_id && e2.cursor.continuation@ == token@ && e2.cursor_timeout
                    == timeout && e2.deadline == (if now + timeout <= u64::MAX {
                    now + timeout
                } else {
                    u64::MAX as int
                })
            },
            None => r == cursor_connection && final(store).spec_entries() == old(
                store,
            ).spec_entries(),
        },
{
    match continuation {
        Some(token) => {
            let timeout = get_more_timeout_secs(
                enable_stateless_timeout,
                stored_timeout_secs,
                default_secs,
            );
            store.add_cursor(
                cursor_connection,
                Cursor { cursor_id, continuation: token },
                username,
                db,
                collection,
                timeout,
                session_id,
                now,
            )
        },
        None => cursor_connection,
    }
}

/// Splits a namespace `db.collection` at its first dot.  A name without a
/// dot is no namespace.
pub open spec fn spec_split_namespace(ns: Seq<char>) -> Option<(Seq<char>, Seq<char>)> {
    if exists|i: int| 0 <= i < ns.len() && ns[i] == '.' {
        let i = first_dot(ns, 0);
        Some((ns.take(i), ns.skip(i + 1)))
    } else {
        None
    }
}

/// Index of the first dot of `ns` at or after `from`, where one exists
/// beyond it.
pub open spec fn first_dot(ns: Seq<char>, from: int) -> int
    decreases ns.len() - from,
{
    if from < 0 || from >= ns.len() {
        ns.len() as int
    } else if ns[from] == '.' {
        from
    } else {
        first_dot(ns, from + 1)
    }
}

/// Splits a namespace into database and collection at the first dot.
pub fn split_namespace(ns: &str) -> (r: Option<(String, String)>)
    ensures
        match r {
            Some(parts) => spec_split_namespace(ns@) matches Some(sp) && parts.0@ == sp.0
                && parts.1@ == sp.1,
            None => spec_split_namespace(ns@).is_none(),
        },
{
    let n = ns.unicode_len();
    let mut i: usize = 0;
    while i < n
        invariant
            i <= n,
            n == ns@.len(),
            forall|j: int| 0 <= j < i ==> ns@[j] != '.',
            first_dot(ns@, 0) == first_dot(ns@, i as int),
        decreases n - i,
    {
        if ns.get_char(i) == '.' {
            let db = ns.substring_char(0, i);
            let coll = ns.substring_char(i + 1, n);
            proof {
                assert(first_dot(ns@, i as int) == i);
                assert(db@ =~= ns@.take(i as int));
                assert(coll@ =~= ns@.skip(i + 1));
            }
            return Some((String::from_str(db), String::from_str(coll)));
        }
        i = i + 1;
    }
    proof {
        if exists|j: int| 0 <= j < ns@.len() && ns@[j] == '.' {
            let j = choose|j: int| 0 <= j < ns@.len() && ns@[j] == '.';
            assert(false);
        }
    }
    None
}

/// How a rename request is validated: source and target namespaces must
/// parse, stay within one database, and name different collections; the
/// result is the shared database, the source collection and the target
/// collection.
pub open spec fn spec_validate_rename(source: Seq<char>, target: Seq<char>) -> Result<
    (Seq<char>, Seq<char>, Seq<char>),
    GatewayError,
> {
    match spec_split_namespace(source) {
        None => Err(GatewayError::BadValue),
        Some(sp) => match spec_split_namespace(target) {
            None => Err(GatewayError::BadValue),
            Some(tp) => if sp.0 != tp.0 {
                Err(GatewayError::CommandNotSupported)
            } else if sp.1 == tp.1 {
                Err(GatewayError::IllegalOperation)
            } else {
                Ok((sp.0, sp.1, tp.1))
            },
        },
    }
}

/// Validates a rename request: a rename cannot change databases, and a
/// collection cannot be renamed to itself.
pub fn validate_rename(source: &str, target: &str) -> (r: Result<
    (String, String, String),
    GatewayError,
>)
    ensures
        match r {
            Ok(parts) => spec_validate_rename(source@, target@) matches Ok(sp) && parts.0@ == sp.0
                && parts.1@ == sp.1 && parts.2@ == sp.2,
            Err(e) => spec_validate_rename(source@, target@) == Err::<
                (Seq<char>, Seq<char>, Seq<char>),
                GatewayError,
            >(e),
        },
{
    let source_parts = match split_namespace(source) {
        None => {
            return Err(GatewayError::BadValue);
        },
        Some(p) => p,
    };
    let target_parts = match split_namespace(target) {
        None => {
            return Err(GatewayError::BadValue);
        },
        Some(p) => p,
    };
    if source_parts.0 != target_parts.0 {
        Err(GatewayError::CommandNotSupported)
    } else if source_parts.1 == target_parts.1 {
        Err(GatewayError::IllegalOperation)
    } else {
        Ok((source_parts.0, source_parts.1, target_parts.1))
    }
}

/// Resolves and, where one is declared, creates the transaction context of
/// one request: legality violations surface before any resource is
/// acquired; a connection is borrowed from the tenant pool and stored with
/// the new transaction; a commit-triggering request finding the session
/// already committed is answered as a success with no transaction context;
/// every other creation failure releases the borrowed connection and
/// propagates.  The result carries the session and transaction number the
/// request runs under, where it runs inside a transaction at all.
#[verifier::rlimit(50)]
pub fn handle_transaction(
    transactions: &mut TransactionStore,
    pools: &mut PoolManager,
    request_type: RequestType,
    db: &str,
    txn: Option<RequestTransactionInfo>,
    session_id: Option<Vec<u8>>,
    username: &str,
    password: &str,
    max_connections: usize,
    now: u64,
) -> (r: Result<Option<(Vec<u8>, i64)>, GatewayError>)
    requires
        old(transactions).wf(),
        old(pools).wf(),
    ensures
        final(transactions).wf(),
        final(pools).wf(),
        final(transactions).spec_timeout_ticks() == old(transactions).spec_timeout_ticks(),
        match spec_resolve_transaction(request_type, db@, txn, session_id.is_some()) {
            TransactionDecision::NoTransaction => r == Ok::<
                Option<(Vec<u8>, i64)>,
                GatewayError,
            >(None) && final(transactions).spec_entries() == old(transactions).spec_entries()
                && *final(pools) == *old(pools),
            TransactionDecision::Reject(e) => r == Err::<Option<(Vec<u8>, i64)>, GatewayError>(e)
                && final(transactions).spec_entries() == old(transactions).spec_entries()
                && *final(pools) == *old(pools),
            TransactionDecision::UseTransaction(n) => {
                let sid = session_id.unwrap();
                let pk = (username@, password@, max_connections as int);
                match entry_at(old(pools).spec_user_pools(), user_key(), pk) {
                    None => r == Err::<Option<(Vec<u8>, i64)>, GatewayError>(
                        GatewayError::PoolNotProvisioned,
                    ) && final(transactions).spec_entries() == old(transactions).spec_entries()
                        && final(pools).spec_user_pools() == old(pools).spec_user_pools(),
                    Some(pe) => {
                        &&& (forall|k2: Seq<u8>|
                            k2 != sid@ ==> entry_at(
                                final(transactions).spec_entries(),
                                txn_key(),
                                k2,
                            ) == entry_at(old(transactions).spec_entries(), txn_key(), k2))
                        &&& (forall|k2: (Seq<char>, Seq<char>, int)|
                            k2 != pk ==> entry_at(
                                final(pools).spec_user_pools(),
                                user_key(),
                                k2,
                            ) == entry_at(old(pools).spec_user_pools(), user_key(), k2))
                        &&& if pe.pool.spec_in_use() >= pe.pool.spec_max_size() {
                            r == Err::<Option<(Vec<u8>, i64)>, GatewayError>(
                                GatewayError::PoolAcquireTimeout,
                            ) && final(transactions).spec_entries() == old(
                                transactions,
                            ).spec_entries()
                        } else {
                            match entry_at(old(transactions).spec_entries(), txn_key(), sid@) {
                                None => {
                                    let e = final(transactions).spec_entries().last();
                                    &&& r matches Ok(ctx) && ctx matches Some(pair) && pair.0@
                                        == sid@ && pair.1 == n
                                    &&& final(transactions).spec_entries() == old(
                                        transactions,
                                    ).spec_entries().push(e)
                                    &&& e.session_id@ == sid@
                                    &&& e.transaction_number == n
                                    &&& e.state is Active
                                    &&& e.connection matches Some(c) && c.in_transaction
                                        && c.spec_source() == pe.pool.spec_key()
                                    &&& entry_at(
                                        final(pools).spec_user_pools(),
                                        user_key(),
                                        pk,
                                    ) matches Some(pe2) && pe2.pool.spec_in_use()
                                        == pe.pool.spec_in_use() + 1
                                },
                                Some(te) => {
                                    &&& final(transactions).spec_entries() == old(
                                        transactions,
                                    ).spec_entries()
                                    &&& if te.state is Committed {
                                        if request_type is CommitTransaction {
                                            r == Ok::<Option<(Vec<u8>, i64)>, GatewayError>(None)
                                        } else {
                                            r == Err::<Option<(Vec<u8>, i64)>, GatewayError>(
                                                GatewayError::TransactionCommitted,
                                            )
                                        }
                                    } else {
                                        r == Err::<Option<(Vec<u8>, i64)>, GatewayError>(
                                            GatewayError::InternalInvariantViolation,
                                        )
                                    }
                                    &&& entry_at(
                                        final(pools).spec_user_pools(),
                                        user_key(),
                                        pk,
                                    ) matches Some(pe2) && pe2.pool.spec_in_use()
                                        == pe.pool.spec_in_use()
                                },
                            }
                        }
                    },
                }
            },
        },
{
    let decision = resolve_transaction(request_type, db, txn, session_id.is_some());
    match decision {
        TransactionDecision::NoTransaction => Ok(None),
        TransactionDecision::Reject(e) => Err(e),
        TransactionDecision::UseTransaction(n) => {
            let sid = match session_id {
                Some(s) => s,
                None => {
                    // Unreachable: the decision carries a session.
                    return Err(GatewayError::InternalInvariantViolation);
                },
            };
            let mut conn = match pools.acquire_data_connection(
                username,
                password,
                max_connections,
                now,
            ) {
                Ok(c) => c,
                Err(e) => {
                    return Err(e);
                },
            };
            proof {
                let pk = (username@, password@, max_connections as int);
                if entry_at(old(pools).spec_user_pools(), user_key(), pk).is_some() {
                    crate::registry::lemma_entry_at_some(
                        old(pools).spec_user_pools(),
                        user_key(),
                        pk,
                    );
                }
            }
            conn.in_transaction = true;
            match transactions.create(sid.clone(), n, conn, now) {
                Ok(()) => Ok(Some((sid, n))),
                Err((e, returned)) => {
                    pools.release_connection(returned.into_pool_connection());
                    if commit_of_committed_is_benign(request_type, e) {
                        Ok(None)
                    } else {
                        Err(e)
                    }
                },
            }
        },
    }
}

} // verus!
