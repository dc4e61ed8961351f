//! The execution wrapper: which timeout and transaction discipline applies
//! around one SQL execution on one borrowed connection.
//!
//! A timeout request is a tagged choice between transaction scope (set
//! locally inside an explicit begin/commit) and command scope (set
//! session-wide, reset afterward).  The plan computed here says exactly
//! which statements frame the execution and what happens on failure; the
//! surrounding process runs the statements.

use vstd::prelude::*;
use crate::connection_pool::{PoolConnection, PoolKeyV};
use crate::numeric::{dec_str_of_i64, i64_to_string};

verus! {

/// The statement timeout the backend falls back to after a scoped one,
/// in milliseconds.
pub const DEFAULT_STATEMENT_TIMEOUT_MS: i64 = 120000;

/// How a requested timeout is applied.
pub enum TimeoutType {
    /// Set with transaction-local scope inside an explicit begin/commit;
    /// not usable where a cursor must outlive the statement.
    Transaction,
    /// Set session-wide outside any transaction, reset to the default
    /// afterward.
    Command,
}

/// A requested statement timeout.
pub struct Timeout {
    pub timeout_type: TimeoutType,
    pub max_time_ms: i64,
}

impl Timeout {
    /// A command-scoped timeout, where a bound was requested at all.
    pub fn command(max_time_ms: Option<i64>) -> (r: Option<Timeout>)
        ensures
            match max_time_ms {
                Some(m) => r matches Some(t) && t.timeout_type is Command && t.max_time_ms == m,
                None => r is None,
            },
    {
        match max_time_ms {
            Some(m) => Some(Timeout { timeout_type: TimeoutType::Command, max_time_ms: m }),
            None => None,
        }
    }

    /// A transaction-scoped timeout, where a bound was requested at all.
    pub fn transaction(max_time_ms: Option<i64>) -> (r: Option<Timeout>)
        ensures
            match max_time_ms {
                Some(m) => r matches Some(t) && t.timeout_type is Transaction && t.max_time_ms
                    == m,
                None => r is None,
            },
    {
        match max_time_ms {
            Some(m) => Some(Timeout { timeout_type: TimeoutType::Transaction, max_time_ms: m }),
            None => None,
        }
    }
}

/// One borrowed physical connection, with the flag saying whether the
/// borrower is already inside an ambient transaction.
#[derive(Debug)]
pub struct Connection {
    pub pool_connection: PoolConnection,
    pub in_transaction: bool,
}

impl Connection {
    /// The pool the wrapped connection belongs to.
    pub open spec fn spec_source(&self) -> PoolKeyV {
        self.pool_connection@
    }

    /// Wraps a borrowed connection.
    pub fn new(pool_connection: PoolConnection, in_transaction: bool) -> (r: Connection)
        ensures
            r.spec_source() == pool_connection@,
            r.in_transaction == in_transaction,
    {
        Connection { pool_connection, in_transaction }
    }

    /// Unwraps the borrowed connection so it can return to its pool.
    pub fn into_pool_connection(self) -> (r: PoolConnection)
        ensures
            r@ == self.spec_source(),
    {
        self.pool_connection
    }
}

/// The scope a statement timeout is set with.
#[derive(Clone, Copy, Debug, PartialEq, Eq, Structural)]
pub enum TimeoutScope {
    /// `set local`: transaction-local.
    Local,
    /// `set`: session-wide.
    Session,
}

/// One timeout assignment: a scope and a bound in milliseconds.
#[derive(Clone, Copy, Debug, PartialEq, Eq, Structural)]
pub struct TimeoutSetting {
    pub scope: TimeoutScope,
    pub ms: i64,
}

/// The statements that frame one SQL execution.
#[derive(Clone, Copy, Debug, PartialEq, Eq, Structural)]
pub struct ExecutionPlan {
    /// Issue `BEGIN` before the execution.
    pub begin: bool,
    /// Set this timeout before the execution.
    pub set_timeout: Option<TimeoutSetting>,
    /// Issue `COMMIT` after a successful execution.
    pub commit_on_success: bool,
    /// Issue `ROLLBACK` before propagating a failed execution.
    pub rollback_on_error: bool,
    /// Restore this timeout after the execution, whether it succeeded or
    /// failed.
    pub reset_after: Option<TimeoutSetting>,
}

/// The discipline around one execution:
/// no timeout requested — execute directly;
/// already inside an ambient transaction — set the timeout locally and
/// restore the default, with no begin or commit of its own;
/// a transaction-scoped timeout outside a transaction — begin, set the
/// timeout locally, commit on success, roll back on error;
/// a command-scoped timeout outside a transaction — set the timeout
/// session-wide and restore the default afterward.
pub open spec fn spec_execution_plan(in_transaction: bool, timeout: Option<Timeout>)
    -> ExecutionPlan {
    match timeout {
        None => ExecutionPlan {
            begin: false,
            set_timeout: None,
            commit_on_success: false,
            rollback_on_error: false,
            reset_after: None,
        },
        Some(t) => if in_transaction {
            ExecutionPlan {
                begin: false,
                set_timeout: Some(TimeoutSetting { scope: TimeoutScope::Local, ms: t.max_time_ms }),
                commit_on_success: false,
                rollback_on_error: false,
                reset_after: Some(TimeoutSetting { scope: TimeoutScope::Local, ms: DEFAULT_STATEMENT_TIMEOUT_MS }),
            }
        } else {
            match t.timeout_type {
                TimeoutType::Transaction => ExecutionPlan {
                    begin: true,
                    set_timeout: Some(TimeoutSetting { scope: TimeoutScope::Local, ms: t.max_time_ms }),
                    commit_on_success: true,
                    rollback_on_error: true,
                    reset_after: None,
                },
                TimeoutType::Command => ExecutionPlan {
                    begin: false,
                    set_timeout: Some(TimeoutSetting { scope: TimeoutScope::Session, ms: t.max_time_ms }),
                    commit_on_success: false,
                    rollback_on_error: false,
                    reset_after: Some(TimeoutSetting { scope: TimeoutScope::Session, ms: DEFAULT_STATEMENT_TIMEOUT_MS }),
                },
            }
        },
    }
}

/// Computes the plan for one execution.
///
/// A begin is issued exactly when a commit is owed on success and a
/// rollback on error, and never inside an ambient transaction; whatever
/// timeout was set outside a transaction of the plan's own is restored.
pub fn execution_plan(in_transaction: bool, timeout: Option<Timeout>) -> (r: ExecutionPlan)
    ensures
        r == spec_execution_plan(in_transaction, timeout),
        r.begin == r.commit_on_success,
        r.begin == r.rollback_on_error,
        r.begin ==> !in_transaction,
        r.reset_after.is_some() <==> (timeout.is_some() && !r.begin),
{
    match timeout {
        None => ExecutionPlan {
            begin: false,
            set_timeout: None,
            commit_on_success: false,
            rollback_on_error: false,
            reset_after: None,
        },
        Some(t) => if in_transaction {
            ExecutionPlan {
                begin: false,
                set_timeout: Some(TimeoutSetting { scope: TimeoutScope::Local, ms: t.max_time_ms }),
                commit_on_success: false,
                rollback_on_error: false,
                reset_after: Some(TimeoutSetting { scope: TimeoutScope::Local, ms: DEFAULT_STATEMENT_TIMEOUT_MS }),
            }
        } else {
            match t.timeout_type {
                TimeoutType::Transaction => ExecutionPlan {
                    begin: true,
                    set_timeout: Some(TimeoutSetting { scope: TimeoutScope::Local, ms: t.max_time_ms }),
                    commit_on_success: true,
                    rollback_on_error: true,
                    reset_after: None,
                },
                TimeoutType::Command => ExecutionPlan {
                    begin: false,
                    set_timeout: Some(TimeoutSetting { scope: TimeoutScope::Session, ms: t.max_time_ms }),
                    commit_on_success: false,
                    rollback_on_error: false,
                    reset_after: Some(TimeoutSetting { scope: TimeoutScope::Session, ms: DEFAULT_STATEMENT_TIMEOUT_MS }),
                },
            }
        },
    }
}

/// The wire type a statement parameter is bound with.  A document-shaped
/// parameter must go through the byte-array marker, never the generic
/// path: the binding below fixes that by construction.
#[derive(Clone, Copy, Debug, PartialEq, Eq, Structural)]
pub enum SqlParamType {
    /// A plain text parameter.
    Text,
    /// A byte-array parameter carrying an encoded document.
    Bytea,
}

/// The parameter markers of the database-and-document statement shape: the
/// database name as text, then the document as a byte array.
pub fn db_document_parameter_types() -> (r: Vec<SqlParamType>)
    ensures
        r@ == seq![SqlParamType::Text, SqlParamType::Bytea],
{
    let mut r: Vec<SqlParamType> = Vec::new();
    r.push(SqlParamType::Text);
    r.push(SqlParamType::Bytea);
    proof {
        assert(r@ =~= seq![SqlParamType::Text, SqlParamType::Bytea]);
    }
    r
}

/// The statement text that sets a timeout with the given scope.
pub open spec fn spec_set_timeout_sql(scope: TimeoutScope, ms: int) -> Seq<char> {
    match scope {
        TimeoutScope::Local => "set local statement_timeout to "@ + dec_str_of_i64(ms),
        TimeoutScope::Session => "set statement_timeout to "@ + dec_str_of_i64(ms),
    }
}

/// Builds the statement that sets a timeout with the given scope.
pub fn set_timeout_sql(scope: TimeoutScope, ms: i64) -> (r: String)
    ensures
        r@ == spec_set_timeout_sql(scope, ms as int),
{
    let prefix = match scope {
        TimeoutScope::Local => String::from_str("set local statement_timeout to "),
        TimeoutScope::Session => String::from_str("set statement_timeout to "),
    };
    let digits = i64_to_string(ms);
    prefix.concat(digits.as_str())
}

} // verus!
