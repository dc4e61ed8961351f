//! One bounded pool of physical connections for one backend identity.
//!
//! The pool tracks its capacity, how many of its connections are lent out,
//! and when it was last used; a connection lent out is represented by an
//! owned handle that is moved, never copied, and returns to the pool
//! exactly once.

use vstd::prelude::*;
use crate::error::GatewayError;
use crate::numeric::{dec_str_of, hex_str_of, u64_to_hex_string, u64_to_string};

verus! {

/// The value std's default hasher gives a string; created with fixed keys,
/// it depends on the characters alone.
pub uninterp spec fn user_hash_of(s: Seq<char>) -> u64;

/// Relies on std::collections::hash_map::DefaultHasher: `new` constructs it
/// with fixed keys, so the hash of a string depends on its characters
/// alone.
#[verifier::external_body]
fn hash_user(user: &str) -> (r: u64)
    ensures
        r == user_hash_of(user@),
{
    let mut hasher = std::collections::hash_map::DefaultHasher::new();
    std::hash::Hash::hash(user, &mut hasher);
    std::hash::Hasher::finish(&hasher)
}

/// Which pool of the registry a connection belongs to.
#[derive(Debug)]
pub enum PoolKey {
    /// The fixed pool for the gateway's own system requests.
    System,
    /// The fixed pool for authentication requests.
    Auth,
    /// A per-tenant data pool.
    User { username: String, password: String, max_connections: usize },
    /// A shared anonymous pool for one capacity value.
    Shared { max_connections: usize },
}

/// Mathematical value of a pool key.
pub enum PoolKeyV {
    System,
    Auth,
    User { username: Seq<char>, password: Seq<char>, max_connections: int },
    Shared { max_connections: int },
}

impl View for PoolKey {
    type V = PoolKeyV;

    open spec fn view(&self) -> PoolKeyV {
        match self {
            PoolKey::System => PoolKeyV::System,
            PoolKey::Auth => PoolKeyV::Auth,
            PoolKey::User { username, password, max_connections } => PoolKeyV::User {
                username: username@,
                password: password@,
                max_connections: *max_connections as int,
            },
            PoolKey::Shared { max_connections } => PoolKeyV::Shared {
                max_connections: *max_connections as int,
            },
        }
    }
}

impl PoolKey {
    /// An equal key, field for field.
    pub fn clone_key(&self) -> (r: PoolKey)
        ensures
            r@ == self@,
    {
        match self {
            PoolKey::System => PoolKey::System,
            PoolKey::Auth => PoolKey::Auth,
            PoolKey::User { username, password, max_connections } => PoolKey::User {
                username: username.clone(),
                password: password.clone(),
                max_connections: *max_connections,
            },
            PoolKey::Shared { max_connections } => PoolKey::Shared {
                max_connections: *max_connections,
            },
        }
    }
}

/// One physical connection lent out by a pool.
///
/// The handle is moved between borrower and store, never copied, and is
/// handed back to the registry exactly once on every terminal path.
#[derive(Debug)]
pub struct PoolConnection {
    source: PoolKey,
}

impl View for PoolConnection {
    type V = PoolKeyV;

    closed spec fn view(&self) -> PoolKeyV {
        self.source@
    }
}

impl PoolConnection {
    /// The key of the pool this connection belongs to.
    pub fn source(&self) -> (r: &PoolKey)
        ensures
            r@ == self@,
    {
        &self.source
    }
}

/// Counts a pool reports for diagnostics.
#[derive(Clone, Copy, Debug, PartialEq, Eq, Structural)]
pub struct PoolStatus {
    /// Bound on the number of member connections.
    pub max_size: usize,
    /// Member connections currently lent out.
    pub size: usize,
    /// Capacity still free.
    pub available: usize,
    /// Borrowers waiting for a free connection.
    pub waiting: usize,
}

/// A pool's status snapshot, with the stable identifier that distinguishes
/// pools in reporting.
pub struct ConnectionPoolStatus {
    identifier: String,
    status: PoolStatus,
}

impl ConnectionPoolStatus {
    /// The identifier this snapshot reports under.
    pub closed spec fn spec_identifier(&self) -> Seq<char> {
        self.identifier@
    }

    /// The counts of this snapshot.
    pub closed spec fn spec_status(&self) -> PoolStatus {
        self.status
    }

    pub fn new(identifier: String, status: PoolStatus) -> (r: ConnectionPoolStatus)
        ensures
            r.spec_identifier() == identifier@,
            r.spec_status() == status,
    {
        ConnectionPoolStatus { identifier, status }
    }

    pub fn identifier(&self) -> (r: &str)
        ensures
            r@ == self.spec_identifier(),
    {
        self.identifier.as_str()
    }

    pub fn status(&self) -> (r: PoolStatus)
        ensures
            r == self.spec_status(),
    {
        self.status
    }
}

/// The status snapshot a pool reports: its capacity, how many members are
/// lent out, the capacity still free, and no waiters in this model.
pub open spec fn spec_status_of(p: ConnectionPool) -> PoolStatus {
    PoolStatus {
        max_size: p.spec_max_size(),
        size: p.spec_in_use(),
        available: (p.spec_max_size() - p.spec_in_use()) as usize,
        waiting: 0,
    }
}

/// One bounded pool of connections for one backend identity.
pub struct ConnectionPool {
    key: PoolKey,
    identifier: String,
    max_size: usize,
    in_use: usize,
    last_used: u64,
}

/// The identifier a pool reports under: the user hash in hexadecimal, the
/// application name, and the capacity, joined by dashes.
pub open spec fn spec_pool_identifier(user: Seq<char>, application_name: Seq<char>, max_size: int)
    -> Seq<char> {
    hex_str_of(user_hash_of(user) as nat) + "-"@ + application_name + "-"@ + dec_str_of(
        max_size as nat,
    )
}

impl ConnectionPool {
    /// The key this pool is registered under.
    pub closed spec fn spec_key(&self) -> PoolKeyV {
        self.key@
    }

    /// The identifier this pool reports under.
    pub closed spec fn spec_identifier(&self) -> Seq<char> {
        self.identifier@
    }

    /// Bound on the number of member connections.
    pub closed spec fn spec_max_size(&self) -> usize {
        self.max_size
    }

    /// Member connections currently lent out.
    pub closed spec fn spec_in_use(&self) -> usize {
        self.in_use
    }

    /// Tick of the last acquisition attempt.
    pub closed spec fn spec_last_used(&self) -> u64 {
        self.last_used
    }

    /// No more connections are lent out than the pool may hold.
    pub open spec fn wf(&self) -> bool {
        self.spec_in_use() <= self.spec_max_size()
    }

    /// A fresh pool for one backend identity, with nothing lent out.
    pub fn new_with_user(
        key: PoolKey,
        user: &str,
        application_name: &str,
        max_size: usize,
        now: u64,
    ) -> (r: ConnectionPool)
        ensures
            r.wf(),
            r.spec_key() == key@,
            r.spec_identifier() == spec_pool_identifier(user@, application_name@, max_size as int),
            r.spec_max_size() == max_size,
            r.spec_in_use() == 0,
            r.spec_last_used() == now,
    {
        let mut identifier = u64_to_hex_string(hash_user(user));
        identifier.append("-");
        identifier.append(application_name);
        identifier.append("-");
        let digits = u64_to_string(max_size as u64);
        identifier.append(digits.as_str());
        proof {
            reveal_strlit("-");
        }
        ConnectionPool { key, identifier, max_size, in_use: 0, last_used: now }
    }

    /// Lends one connection out, stamping the pool as used now; fails with
    /// an acquire-timeout when every member is lent out.
    pub fn acquire_connection(&mut self, now: u64) -> (r: Result<PoolConnection, GatewayError>)
        requires
            old(self).wf(),
        ensures
            final(self).wf(),
            final(self).spec_key() == old(self).spec_key(),
            final(self).spec_identifier() == old(self).spec_identifier(),
            final(self).spec_max_size() == old(self).spec_max_size(),
            final(self).spec_last_used() == now,
            if old(self).spec_in_use() < old(self).spec_max_size() {
                &&& r.is_ok()
                &&& r.unwrap()@ == old(self).spec_key()
                &&& final(self).spec_in_use() == old(self).spec_in_use() + 1
            } else {
                &&& r == Err::<PoolConnection, GatewayError>(GatewayError::PoolAcquireTimeout)
                &&& final(self).spec_in_use() == old(self).spec_in_use()
            },
    {
        self.last_used = now;
        if self.in_use < self.max_size {
            self.in_use = self.in_use + 1;
            Ok(PoolConnection { source: self.key.clone_key() })
        } else {
            Err(GatewayError::PoolAcquireTimeout)
        }
    }

    /// Takes a lent-out connection back.
    pub fn release_connection(&mut self, conn: PoolConnection)
        requires
            old(self).wf(),
            conn@ == old(self).spec_key(),
        ensures
            final(self).wf(),
            final(self).spec_key() == old(self).spec_key(),
            final(self).spec_identifier() == old(self).spec_identifier(),
            final(self).spec_max_size() == old(self).spec_max_size(),
            final(self).spec_last_used() == old(self).spec_last_used(),
            final(self).spec_in_use() == if old(self).spec_in_use() > 0 {
                old(self).spec_in_use() - 1
            } else {
                0
            },
    {
        if self.in_use > 0 {
            self.in_use = self.in_use - 1;
        }
    }

    /// Tick of the last acquisition attempt.
    pub fn last_used(&self) -> (r: u64)
        ensures
            r == self.spec_last_used(),
    {
        self.last_used
    }

    /// This pool's status snapshot.
    pub fn status(&self) -> (r: ConnectionPoolStatus)
        requires
            self.wf(),
        ensures
            r.spec_identifier() == self.spec_identifier(),
            r.spec_status() == spec_status_of(*self),
    {
        ConnectionPoolStatus {
            identifier: self.identifier.clone(),
            status: PoolStatus {
                max_size: self.max_size,
                size: self.in_use,
                available: self.max_size - self.in_use,
                waiting: 0,
            },
        }
    }
}

} // verus!
