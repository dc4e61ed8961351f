//! The pool manager: owns and multiplexes the connection pools.
//!
//! One fixed system-requests pool and one fixed authentication pool exist
//! from startup; per-tenant data pools are keyed by (username, password,
//! current max-connections), shared pools by the current max-connections
//! alone.  Pools are never resized in place: a capacity change keys lookups
//! into a new entry, and the old entry ages out through the unused-pool
//! sweep.

use vstd::prelude::*;
use crate::connection::Connection;
use crate::connection_pool::{spec_pool_identifier, spec_status_of, ConnectionPool,
    ConnectionPoolStatus, PoolConnection, PoolKey, PoolKeyV, PoolStatus};
use crate::error::GatewayError;
use crate::registry::{entries_unique, entry_at, lemma_entry_at_filter, lemma_entry_at_push,
    lemma_entry_at_some, lemma_entry_at_update, lemma_filter_elements, lemma_filter_unique,
    lemma_push_unique};

verus! {

/// Capacity of the fixed system-requests pool.
pub const SYSTEM_REQUESTS_MAX_CONNECTIONS: usize = 2;

/// Capacity of the fixed authentication pool.
pub const AUTHENTICATION_MAX_CONNECTIONS: usize = 5;

/// One per-tenant data pool, registered under its credentials and the
/// max-connections value it was provisioned for.
pub struct UserPoolEntry {
    pub username: String,
    pub password: String,
    pub max_connections: usize,
    pub pool: ConnectionPool,
}

/// One shared anonymous pool, registered under the max-connections value
/// it was provisioned for.
pub struct SharedPoolEntry {
    pub max_connections: usize,
    pub pool: ConnectionPool,
}

/// Key projection of a tenant pool entry.
pub open spec fn user_key() -> spec_fn(UserPoolEntry) -> (Seq<char>, Seq<char>, int) {
    |e: UserPoolEntry| (e.username@, e.password@, e.max_connections as int)
}

/// Key projection of a shared pool entry.
pub open spec fn shared_key() -> spec_fn(SharedPoolEntry) -> int {
    |e: SharedPoolEntry| e.max_connections as int
}

/// The capacity a newly provisioned pool receives: the requested
/// max-connections less the reserved system budget, floored at the budget
/// itself — the capacity never drops below the reserved budget, even where
/// that exceeds the nominal request.
pub open spec fn spec_real_max_connections(max_connections: usize, budget: usize) -> usize {
    let diff = if max_connections >= budget {
        (max_connections - budget) as usize
    } else {
        0
    };
    if diff < budget {
        budget
    } else {
        diff
    }
}

/// Computes the capacity a newly provisioned pool receives.
pub fn real_max_connections(max_connections: usize, budget: usize) -> (r: usize)
    ensures
        r == spec_real_max_connections(max_connections, budget),
{
    let diff: usize = if max_connections >= budget {
        max_connections - budget
    } else {
        0
    };
    if diff < budget {
        budget
    } else {
        diff
    }
}

/// Whether the unused-pool sweep with threshold `max_age` at tick `now`
/// keeps a tenant pool entry: its last use is no further back than the
/// threshold.
pub open spec fn user_keep(max_age: u64, now: u64) -> spec_fn(UserPoolEntry) -> bool {
    |e: UserPoolEntry| now <= e.pool.spec_last_used() + max_age
}

/// Whether the unused-pool sweep keeps a shared pool entry.
pub open spec fn shared_keep(max_age: u64, now: u64) -> spec_fn(SharedPoolEntry) -> bool {
    |e: SharedPoolEntry| now <= e.pool.spec_last_used() + max_age
}

/// How a pool changes when one of its connections comes back: one fewer
/// lent out, everything else as it was.
pub open spec fn pool_released(before: ConnectionPool, after: ConnectionPool) -> bool {
    &&& after.spec_key() == before.spec_key()
    &&& after.spec_identifier() == before.spec_identifier()
    &&& after.spec_max_size() == before.spec_max_size()
    &&& after.spec_last_used() == before.spec_last_used()
    &&& after.spec_in_use() == if before.spec_in_use() > 0 {
        before.spec_in_use() - 1
    } else {
        0
    }
}

/// The registry of connection pools.
pub struct PoolManager {
    system_requests_pool: ConnectionPool,
    system_auth_pool: ConnectionPool,
    user_data_pools: Vec<UserPoolEntry>,
    system_shared_pools: Vec<SharedPoolEntry>,
    application_name: String,
    postgres_system_user: String,
}

impl PoolManager {
    /// The fixed system-requests pool.
    pub closed spec fn spec_system_pool(&self) -> ConnectionPool {
        self.system_requests_pool
    }

    /// The fixed authentication pool.
    pub closed spec fn spec_auth_pool(&self) -> ConnectionPool {
        self.system_auth_pool
    }

    /// The registered tenant pools, in provisioning order.
    pub closed spec fn spec_user_pools(&self) -> Seq<UserPoolEntry> {
        self.user_data_pools@
    }

    /// The registered shared pools, in provisioning order.
    pub closed spec fn spec_shared_pools(&self) -> Seq<SharedPoolEntry> {
        self.system_shared_pools@
    }

    /// The application name new pool identifiers carry.
    pub closed spec fn spec_application_name(&self) -> Seq<char> {
        self.application_name@
    }

    /// The backend user shared pools connect as.
    pub closed spec fn spec_system_user(&self) -> Seq<char> {
        self.postgres_system_user@
    }

    /// Registry keys are unique, every pool is well formed, and every
    /// pool's own key matches the key it is registered under.
    pub open spec fn wf(&self) -> bool {
        &&& entries_unique(self.spec_user_pools(), user_key())
        &&& entries_unique(self.spec_shared_pools(), shared_key())
        &&& self.spec_system_pool().wf()
        &&& self.spec_system_pool().spec_key() == PoolKeyV::System
        &&& self.spec_auth_pool().wf()
        &&& self.spec_auth_pool().spec_key() == PoolKeyV::Auth
        &&& forall|i: int|
            0 <= i < self.spec_user_pools().len() ==> {
                let e = #[trigger] self.spec_user_pools()[i];
                e.pool.wf() && e.pool.spec_key() == (PoolKeyV::User {
                    username: e.username@,
                    password: e.password@,
                    max_connections: e.max_connections as int,
                })
            }
        &&& forall|i: int|
            0 <= i < self.spec_shared_pools().len() ==> {
                let e = #[trigger] self.spec_shared_pools()[i];
                e.pool.wf() && e.pool.spec_key() == (PoolKeyV::Shared {
                    max_connections: e.max_connections as int,
                })
            }
    }

    /// A manager owning the two fixed pools and no keyed pools yet.
    pub fn new(
        system_requests_pool: ConnectionPool,
        system_auth_pool: ConnectionPool,
        application_name: String,
        postgres_system_user: String,
    ) -> (r: PoolManager)
        requires
            system_requests_pool.wf(),
            system_requests_pool.spec_key() == PoolKeyV::System,
            system_auth_pool.wf(),
            system_auth_pool.spec_key() == PoolKeyV::Auth,
        ensures
            r.wf(),
            r.spec_system_pool() == system_requests_pool,
            r.spec_auth_pool() == system_auth_pool,
            r.spec_user_pools().len() == 0,
            r.spec_shared_pools().len() == 0,
            r.spec_application_name() == application_name@,
            r.spec_system_user() == postgres_system_user@,
    {
        PoolManager {
            system_requests_pool,
            system_auth_pool,
            user_data_pools: Vec::new(),
            system_shared_pools: Vec::new(),
            application_name,
            postgres_system_user,
        }
    }

    /// Index of the tenant pool registered under these credentials and
    /// capacity, if one is.
    fn find_user_index(&self, username: &str, password: &str, max_connections: usize) -> (r:
        Option<usize>)
        requires
            self.wf(),
        ensures
            match r {
                Some(i) => i < self.spec_user_pools().len() && entry_at(
                    self.spec_user_pools(),
                    user_key(),
                    (username@, password@, max_connections as int),
                ) == Some(self.spec_user_pools()[i as int]),
                None => entry_at(
                    self.spec_user_pools(),
                    user_key(),
                    (username@, password@, max_connections as int),
                ).is_none(),
            },
    {
        let u = String::from_str(username);
        let p = String::from_str(password);
        let ghost k = (username@, password@, max_connections as int);
        let n = self.user_data_pools.len();
        proof {
            assert(self.user_data_pools@.take(n as int) =~= self.user_data_pools@);
        }
        let mut i = n;
        while i > 0
            invariant
                i <= n,
                n == self.spec_user_pools().len(),
                self.wf(),
                u@ == username@,
                p@ == password@,
                k == (username@, password@, max_connections as int),
                entry_at(self.spec_user_pools().take(i as int), user_key(), k) == entry_at(
                    self.spec_user_pools(),
                    user_key(),
                    k,
                ),
            decreases i,
        {
            i = i - 1;
            proof {
                assert(self.spec_user_pools().take(i + 1).drop_last() =~= self.spec_user_pools()
                    .take(i as int));
                assert(self.spec_user_pools().take(i + 1).last() == self.spec_user_pools()[
                    i as int]);
            }
            let e = &self.user_data_pools[i];
            if e.username == u && e.password == p && e.max_connections == max_connections {
                return Some(i);
            }
        }
        proof {
            assert(self.spec_user_pools().take(0) =~= Seq::<UserPoolEntry>::empty());
        }
        None
    }

    /// Index of the shared pool registered under this capacity, if one is.
    fn find_shared_index(&self, max_connections: usize) -> (r: Option<usize>)
        requires
            self.wf(),
        ensures
            match r {
                Some(i) => i < self.spec_shared_pools().len() && entry_at(
                    self.spec_shared_pools(),
                    shared_key(),
                    max_connections as int,
                ) == Some(self.spec_shared_pools()[i as int]),
                None => entry_at(
                    self.spec_shared_pools(),
                    shared_key(),
                    max_connections as int,
                ).is_none(),
            },
    {
        let ghost k = max_connections as int;
        let n = self.system_shared_pools.len();
        proof {
            assert(self.system_shared_pools@.take(n as int) =~= self.system_shared_pools@);
        }
        let mut i = n;
        while i > 0
            invariant
                i <= n,
                n == self.spec_shared_pools().len(),
                self.wf(),
                k == max_connections as int,
                entry_at(self.spec_shared_pools().take(i as int), shared_key(), k) == entry_at(
                    self.spec_shared_pools(),
                    shared_key(),
                    k,
                ),
            decreases i,
        {
            i = i - 1;
            proof {
                assert(self.spec_shared_pools().take(i + 1).drop_last() =~= self.spec_shared_pools()
                    .take(i as int));
                assert(self.spec_shared_pools().take(i + 1).last() == self.spec_shared_pools()[
                    i as int]);
            }
            if self.system_shared_pools[i].max_connections == max_connections {
                return Some(i);
            }
        }
        proof {
            assert(self.spec_shared_pools().take(0) =~= Seq::<SharedPoolEntry>::empty());
        }
        None
    }

    /// The tenant pool for the current max-connections value.  Lookup and
    /// provisioning are deliberately separate: the pool must have been
    /// provisioned by `allocate_data_pool`, else this fails with the
    /// not-provisioned error, so an authentication failure short-circuits
    /// before any pool is built.
    pub fn get_data_pool(&self, username: &str, password: &str, max_connections: usize) -> (r:
        Result<&ConnectionPool, GatewayError>)
        requires
            self.wf(),
        ensures
            match r {
                Ok(p) => entry_at(
                    self.spec_user_pools(),
                    user_key(),
                    (username@, password@, max_connections as int),
                ) matches Some(e) && *p == e.pool,
                Err(err) => entry_at(
                    self.spec_user_pools(),
                    user_key(),
                    (username@, password@, max_connections as int),
                ).is_none() && err == GatewayError::PoolNotProvisioned,
            },
    {
        match self.find_user_index(username, password, max_connections) {
            Some(i) => Ok(&self.user_data_pools[i].pool),
            None => Err(GatewayError::PoolNotProvisioned),
        }
    }

    /// Provisions the tenant pool for these credentials and the current
    /// max-connections value.  Idempotent create-if-absent: under
    /// concurrent first use, the re-check before construction guarantees a
    /// single pool entry per key.
    pub fn allocate_data_pool(
        &mut self,
        username: &str,
        password: &str,
        max_connections: usize,
        budget: usize,
        now: u64,
    ) -> (r: Result<(), GatewayError>)
        requires
            old(self).wf(),
        ensures
            final(self).wf(),
            r.is_ok(),
            final(self).spec_system_pool() == old(self).spec_system_pool(),
            final(self).spec_auth_pool() == old(self).spec_auth_pool(),
            final(self).spec_shared_pools() == old(self).spec_shared_pools(),
            final(self).spec_application_name() == old(self).spec_application_name(),
            final(self).spec_system_user() == old(self).spec_system_user(),
            match entry_at(
                old(self).spec_user_pools(),
                user_key(),
                (username@, password@, max_connections as int),
            ) {
                Some(e) => final(self).spec_user_pools() == old(self).spec_user_pools(),
                None => {
                    let e = final(self).spec_user_pools().last();
                    &&& final(self).spec_user_pools() == old(self).spec_user_pools().push(e)
                    &&& e.username@ == username@
                    &&& e.password@ == password@
                    &&& e.max_connections == max_connections
                    &&& e.pool.spec_max_size() == spec_real_max_connections(
                        max_connections,
                        budget,
                    )
                    &&& e.pool.spec_in_use() == 0
                    &&& e.pool.spec_last_used() == now
                    &&& e.pool.spec_identifier() == spec_pool_identifier(
                        username@,
                        old(self).spec_application_name() + "-UserData"@,
                        spec_real_max_connections(max_connections, budget) as int,
                    )
                },
            },
    {
        match self.find_user_index(username, password, max_connections) {
            Some(_) => Ok(()),
            None => {
                let mut pool_app_name = self.application_name.clone();
                pool_app_name.append("-UserData");
                let capacity = real_max_connections(max_connections, budget);
                let pool = ConnectionPool::new_with_user(
                    PoolKey::User {
                        username: String::from_str(username),
                        password: String::from_str(password),
                        max_connections,
                    },
                    username,
                    pool_app_name.as_str(),
                    capacity,
                    now,
                );
                let entry = UserPoolEntry {
                    username: String::from_str(username),
                    password: String::from_str(password),
                    max_connections,
                    pool,
                };
                proof {
                    lemma_push_unique(
                        self.spec_user_pools(),
                        user_key(),
                        entry,
                    );
                    lemma_entry_at_push(
                        self.spec_user_pools(),
                        user_key(),
                        entry,
                        (username@, password@, max_connections as int),
                    );
                }
                self.user_data_pools.push(entry);
                Ok(())
            },
        }
    }

    /// The shared pool for the current max-connections value, provisioned
    /// on first use.  A capacity change keys this lookup into a new entry;
    /// the old pool stays registered until the unused-pool sweep ages it
    /// out.
    pub fn get_system_shared_pool(&mut self, max_connections: usize, budget: usize, now: u64) -> (r:
        &ConnectionPool)
        requires
            old(self).wf(),
        ensures
            final(self).wf(),
            final(self).spec_system_pool() == old(self).spec_system_pool(),
            final(self).spec_auth_pool() == old(self).spec_auth_pool(),
            final(self).spec_user_pools() == old(self).spec_user_pools(),
            final(self).spec_application_name() == old(self).spec_application_name(),
            final(self).spec_system_user() == old(self).spec_system_user(),
            match entry_at(
                old(self).spec_shared_pools(),
                shared_key(),
                max_connections as int,
            ) {
                Some(e) => final(self).spec_shared_pools() == old(self).spec_shared_pools() && *r
                    == e.pool,
                None => {
                    let e = final(self).spec_shared_pools().last();
                    &&& final(self).spec_shared_pools() == old(self).spec_shared_pools().push(e)
                    &&& *r == e.pool
                    &&& e.max_connections == max_connections
                    &&& e.pool.spec_max_size() == spec_real_max_connections(
                        max_connections,
                        budget,
                    )
                    &&& e.pool.spec_in_use() == 0
                    &&& e.pool.spec_last_used() == now
                    &&& e.pool.spec_identifier() == spec_pool_identifier(
                        old(self).spec_system_user(),
                        old(self).spec_application_name() + "-SharedData"@,
                        spec_real_max_connections(max_connections, budget) as int,
                    )
                },
            },
    {
        match self.find_shared_index(max_connections) {
            Some(i) => &self.system_shared_pools[i].pool,
            None => {
                let mut pool_app_name = self.application_name.clone();
                pool_app_name.append("-SharedData");
                let capacity = real_max_connections(max_connections, budget);
                let user = self.postgres_system_user.clone();
                let pool = ConnectionPool::new_with_user(
                    PoolKey::Shared { max_connections },
                    user.as_str(),
                    pool_app_name.as_str(),
                    capacity,
                    now,
                );
                let entry = SharedPoolEntry { max_connections, pool };
                proof {
                    lemma_push_unique(self.spec_shared_pools(), shared_key(), entry);
                    lemma_entry_at_push(
                        self.spec_shared_pools(),
                        shared_key(),
                        entry,
                        max_connections as int,
                    );
                }
                self.system_shared_pools.push(entry);
                let n = self.system_shared_pools.len();
                &self.system_shared_pools[n - 1].pool
            },
        }
    }

    /// A connection from the fixed system-requests pool, outside any
    /// transaction.
    pub fn system_requests_connection(&mut self, now: u64) -> (r: Result<Connection, GatewayError>)
        requires
            old(self).wf(),
        ensures
            final(self).wf(),
            final(self).spec_auth_pool() == old(self).spec_auth_pool(),
            final(self).spec_user_pools() == old(self).spec_user_pools(),
            final(self).spec_shared_pools() == old(self).spec_shared_pools(),
            final(self).spec_application_name() == old(self).spec_application_name(),
            final(self).spec_system_user() == old(self).spec_system_user(),
            final(self).spec_system_pool().spec_max_size() == old(self).spec_system_pool().spec_max_size(),
            final(self).spec_system_pool().spec_key() == PoolKeyV::System,
            if old(self).spec_system_pool().spec_in_use() < old(self).spec_system_pool().spec_max_size() {
                &&& r matches Ok(c) && c.spec_source() == PoolKeyV::System && !c.in_transaction
                &&& final(self).spec_system_pool().spec_in_use() == old(self).spec_system_pool().spec_in_use() + 1
            } else {
                &&& r matches Err(e) && e == GatewayError::PoolAcquireTimeout
                &&& final(self).spec_system_pool().spec_in_use() == old(self).spec_system_pool().spec_in_use()
            },
    {
        match self.system_requests_pool.acquire_connection(now) {
            Ok(c) => Ok(Connection::new(c, false)),
            Err(e) => Err(e),
        }
    }

    /// A connection from the provisioned tenant pool for these credentials
    /// and capacity, outside any transaction.  Fails with the
    /// not-provisioned error where `allocate_data_pool` was never called
    /// for this key, and with the acquire-timeout error where the pool is
    /// exhausted.
    pub fn acquire_data_connection(
        &mut self,
        username: &str,
        password: &str,
        max_connections: usize,
        now: u64,
    ) -> (r: Result<Connection, GatewayError>)
        requires
            old(self).wf(),
        ensures
            final(self).wf(),
            final(self).spec_system_pool() == old(self).spec_system_pool(),
            final(self).spec_auth_pool() == old(self).spec_auth_pool(),
            final(self).spec_shared_pools() == old(self).spec_shared_pools(),
            final(self).spec_application_name() == old(self).spec_application_name(),
            final(self).spec_system_user() == old(self).spec_system_user(),
            final(self).spec_user_pools().len() == old(self).spec_user_pools().len(),
            forall|k2: (Seq<char>, Seq<char>, int)|
                k2 != (username@, password@, max_connections as int) ==> entry_at(
                    final(self).spec_user_pools(),
                    user_key(),
                    k2,
                ) == entry_at(old(self).spec_user_pools(), user_key(), k2),
            match entry_at(
                old(self).spec_user_pools(),
                user_key(),
                (username@, password@, max_connections as int),
            ) {
                None => r == Err::<Connection, GatewayError>(GatewayError::PoolNotProvisioned)
                    && final(self).spec_user_pools() == old(self).spec_user_pools(),
                Some(e) => {
                    let e2 = entry_at(
                        final(self).spec_user_pools(),
                        user_key(),
                        (username@, password@, max_connections as int),
                    );
                    &&& e2 matches Some(e2)
                    &&& e2.username@ == e.username@
                    &&& e2.password@ == e.password@
                    &&& e2.max_connections == e.max_connections
                    &&& e2.pool.spec_max_size() == e.pool.spec_max_size()
                    &&& e2.pool.spec_identifier() == e.pool.spec_identifier()
                    &&& e2.pool.spec_last_used() == now
                    &&& if e.pool.spec_in_use() < e.pool.spec_max_size() {
                        &&& r matches Ok(c)
                        &&& c.spec_source() == e.pool.spec_key()
                        &&& !c.in_transaction
                        &&& e2.pool.spec_in_use() == e.pool.spec_in_use() + 1
                    } else {
                        &&& r matches Err(err) && err == GatewayError::PoolAcquireTimeout
                        &&& e2.pool.spec_in_use() == e.pool.spec_in_use()
                    }
                },
            },
    {
        let ghost s0 = self.user_data_pools@;
        let ghost k = (username@, password@, max_connections as int);
        match self.find_user_index(username, password, max_connections) {
            None => Err(GatewayError::PoolNotProvisioned),
            Some(i) => {
                let mut e = self.user_data_pools.remove(i);
                let res = e.pool.acquire_connection(now);
                self.user_data_pools.insert(i, e);
                proof {
                    let e2 = self.user_data_pools@[i as int];
                    assert(self.user_data_pools@ =~= s0.update(i as int, e2));
                    assert(user_key()(e2) == user_key()(s0[i as int]));
                    lemma_entry_at_some(s0, user_key(), k);
                    lemma_entry_at_update(s0, user_key(), i as int, e2, k);
                    assert forall|k2: (Seq<char>, Seq<char>, int)| k2 != k implies entry_at(
                        self.user_data_pools@,
                        user_key(),
                        k2,
                    ) == entry_at(s0, user_key(), k2) by {
                        lemma_entry_at_update(s0, user_key(), i as int, e2, k2);
                    }
                }
                match res {
                    Ok(pc) => Ok(Connection::new(pc, false)),
                    Err(err) => Err(err),
                }
            },
        }
    }

    /// Hands a lent-out connection back to the pool it came from.  Where
    /// that pool has since been swept away, the connection is simply
    /// dropped.
    pub fn release_connection(&mut self, conn: PoolConnection)
        requires
            old(self).wf(),
        ensures
            final(self).wf(),
            final(self).spec_application_name() == old(self).spec_application_name(),
            final(self).spec_system_user() == old(self).spec_system_user(),
            final(self).spec_user_pools().len() == old(self).spec_user_pools().len(),
            final(self).spec_shared_pools().len() == old(self).spec_shared_pools().len(),
            conn@ is System ==> final(self).spec_auth_pool() == old(self).spec_auth_pool()
                && final(self).spec_user_pools() == old(self).spec_user_pools() && final(self).spec_shared_pools() == old(self).spec_shared_pools() && pool_released(
                old(self).spec_system_pool(),
                final(self).spec_system_pool(),
            ),
            conn@ is Auth ==> final(self).spec_system_pool() == old(self).spec_system_pool()
                && final(self).spec_user_pools() == old(self).spec_user_pools() && final(self).spec_shared_pools() == old(self).spec_shared_pools() && pool_released(
                old(self).spec_auth_pool(),
                final(self).spec_auth_pool(),
            ),
            (match conn@ {
                PoolKeyV::User { username, password, max_connections } => {
                    let k = (username, password, max_connections);
                    &&& final(self).spec_system_pool() == old(self).spec_system_pool()
                    &&& final(self).spec_auth_pool() == old(self).spec_auth_pool()
                    &&& final(self).spec_shared_pools() == old(self).spec_shared_pools()
                    &&& forall|k2: (Seq<char>, Seq<char>, int)|
                        k2 != k ==> entry_at(final(self).spec_user_pools(), user_key(), k2)
                            == entry_at(old(self).spec_user_pools(), user_key(), k2)
                    &&& match entry_at(old(self).spec_user_pools(), user_key(), k) {
                        Some(e) => entry_at(final(self).spec_user_pools(), user_key(), k)
                            matches Some(e2) && e2.username@ == e.username@ && e2.password@
                            == e.password@ && e2.max_connections == e.max_connections
                            && pool_released(e.pool, e2.pool),
                        None => final(self).spec_user_pools() == old(self).spec_user_pools(),
                    }
                },
                _ => true,
            }),
            (match conn@ {
                PoolKeyV::Shared { max_connections } => {
                    &&& final(self).spec_system_pool() == old(self).spec_system_pool()
                    &&& final(self).spec_auth_pool() == old(self).spec_auth_pool()
                    &&& final(self).spec_user_pools() == old(self).spec_user_pools()
                    &&& forall|k2: int|
                        k2 != max_connections ==> entry_at(
                            final(self).spec_shared_pools(),
                            shared_key(),
                            k2,
                        ) == entry_at(old(self).spec_shared_pools(), shared_key(), k2)
                    &&& match entry_at(
                        old(self).spec_shared_pools(),
                        shared_key(),
                        max_connections,
                    ) {
                        Some(e) => entry_at(
                            final(self).spec_shared_pools(),
                            shared_key(),
                            max_connections,
                        ) matches Some(e2) && e2.max_connections == e.max_connections
                            && pool_released(e.pool, e2.pool),
                        None => final(self).spec_shared_pools() == old(self).spec_shared_pools(),
                    }
                },
                _ => true,
            }),
    {
        let key = conn.source().clone_key();
        match key {
            PoolKey::System => {
                self.system_requests_pool.release_connection(conn);
            },
            PoolKey::Auth => {
                self.system_auth_pool.release_connection(conn);
            },
            PoolKey::User { username, password, max_connections } => {
                let ghost s0 = self.user_data_pools@;
                let ghost k = (username@, password@, max_connections as int);
                match self.find_user_index(username.as_str(), password.as_str(), max_connections) {
                    None => {
                        // The pool has aged out; the connection is dropped.
                    },
                    Some(i) => {
                        proof {
                            lemma_entry_at_some(s0, user_key(), k);
                        }
                        let mut e = self.user_data_pools.remove(i);
                        proof {
                            assert(e == s0[i as int]);
                            assert(user_key()(e) == k);
                            assert(conn@ == e.pool.spec_key());
                        }
                        e.pool.release_connection(conn);
                        self.user_data_pools.insert(i, e);
                        proof {
                            let e2 = self.user_data_pools@[i as int];
                            assert(self.user_data_pools@ =~= s0.update(i as int, e2));
                            assert(user_key()(e2) == user_key()(s0[i as int]));
                            lemma_entry_at_update(s0, user_key(), i as int, e2, k);
                            assert forall|k2: (Seq<char>, Seq<char>, int)| k2 != k implies entry_at(
                                self.user_data_pools@,
                                user_key(),
                                k2,
                            ) == entry_at(s0, user_key(), k2) by {
                                lemma_entry_at_update(s0, user_key(), i as int, e2, k2);
                            }
                        }
                    },
                }
            },
            PoolKey::Shared { max_connections } => {
                let ghost s0 = self.system_shared_pools@;
                let ghost k = max_connections as int;
                match self.find_shared_index(max_connections) {
                    None => {
                        // The pool has aged out; the connection is dropped.
                    },
                    Some(i) => {
                        proof {
                            lemma_entry_at_some(s0, shared_key(), k);
                        }
                        let mut e = self.system_shared_pools.remove(i);
                        proof {
                            assert(e == s0[i as int]);
                            assert(shared_key()(e) == k);
                            assert(conn@ == e.pool.spec_key());
                        }
                        e.pool.release_connection(conn);
                        self.system_shared_pools.insert(i, e);
                        proof {
                            let e2 = self.system_shared_pools@[i as int];
                            assert(self.system_shared_pools@ =~= s0.update(i as int, e2));
                            assert(shared_key()(e2) == shared_key()(s0[i as int]));
                            lemma_entry_at_update(s0, shared_key(), i as int, e2, k);
                            assert forall|k2: int| k2 != k implies entry_at(
                                self.system_shared_pools@,
                                shared_key(),
                                k2,
                            ) == entry_at(s0, shared_key(), k2) by {
                                lemma_entry_at_update(s0, shared_key(), i as int, e2, k2);
                            }
                        }
                    },
                }
            },
        }
    }

    /// Removes every tenant and shared pool whose last use lies more than
    /// `max_age` ticks in the past.  The two fixed pools are never swept.
    #[verifier::rlimit(50)]
    pub fn clean_unused_pools(&mut self, max_age: u64, now: u64)
        requires
            old(self).wf(),
        ensures
            final(self).wf(),
            final(self).spec_system_pool() == old(self).spec_system_pool(),
            final(self).spec_auth_pool() == old(self).spec_auth_pool(),
            final(self).spec_application_name() == old(self).spec_application_name(),
            final(self).spec_system_user() == old(self).spec_system_user(),
            final(self).spec_user_pools() == old(self).spec_user_pools().filter(
                user_keep(max_age, now),
            ),
            final(self).spec_shared_pools() == old(self).spec_shared_pools().filter(
                shared_keep(max_age, now),
            ),
    {
        let ghost s = self.user_data_pools@;
        let ghost keep = user_keep(max_age, now);
        let n = self.user_data_pools.len();
        let mut i: usize = 0;
        let mut j: usize = 0;
        proof {
            reveal(Seq::filter);
            assert(self.user_data_pools@ =~= s.take(0).filter(keep) + s.skip(0));
        }
        while j < n
            invariant
                j <= n,
                i <= j,
                n == s.len(),
                s == old(self).spec_user_pools(),
                keep == user_keep(max_age, now),
                i as int == s.take(j as int).filter(keep).len(),
                self.user_data_pools@ == s.take(j as int).filter(keep) + s.skip(j as int),
                self.system_shared_pools@ == old(self).spec_shared_pools(),
                self.spec_system_pool() == old(self).spec_system_pool(),
                self.spec_auth_pool() == old(self).spec_auth_pool(),
                self.spec_application_name() == old(self).spec_application_name(),
                self.spec_system_user() == old(self).spec_system_user(),
            decreases n - j,
        {
            proof {
                reveal(Seq::filter);
                assert(s.take(j + 1).drop_last() =~= s.take(j as int));
                assert(self.user_data_pools@[i as int] == s[j as int]);
            }
            let lu = self.user_data_pools[i].pool.last_used();
            let evict = lu < now && now - lu > max_age;
            proof {
                assert(evict == !keep(s[j as int]));
            }
            if evict {
                let _dropped = self.user_data_pools.remove(i);
                proof {
                    assert(self.user_data_pools@ =~= s.take(j + 1).filter(keep) + s.skip(j + 1));
                }
            } else {
                i = i + 1;
                proof {
                    assert(self.user_data_pools@ =~= s.take(j + 1).filter(keep) + s.skip(j + 1));
                }
            }
            j = j + 1;
        }
        proof {
            assert(s.take(n as int) =~= s);
            assert(self.user_data_pools@ =~= s.filter(keep));
        }
        let ghost t = self.system_shared_pools@;
        let ghost skeep = shared_keep(max_age, now);
        let sn = self.system_shared_pools.len();
        let mut si: usize = 0;
        let mut sj: usize = 0;
        proof {
            reveal(Seq::filter);
            assert(self.system_shared_pools@ =~= t.take(0).filter(skeep) + t.skip(0));
        }
        while sj < sn
            invariant
                sj <= sn,
                si <= sj,
                sn == t.len(),
                skeep == shared_keep(max_age, now),
                si as int == t.take(sj as int).filter(skeep).len(),
                self.system_shared_pools@ == t.take(sj as int).filter(skeep) + t.skip(sj as int),
                s == old(self).spec_user_pools(),
                keep == user_keep(max_age, now),
                t == old(self).spec_shared_pools(),
                self.user_data_pools@ == s.filter(keep),
                self.spec_system_pool() == old(self).spec_system_pool(),
                self.spec_auth_pool() == old(self).spec_auth_pool(),
                self.spec_application_name() == old(self).spec_application_name(),
                self.spec_system_user() == old(self).spec_system_user(),
            decreases sn - sj,
        {
            proof {
                reveal(Seq::filter);
                assert(t.take(sj + 1).drop_last() =~= t.take(sj as int));
                assert(self.system_shared_pools@[si as int] == t[sj as int]);
            }
            let lu = self.system_shared_pools[si].pool.last_used();
            let evict = lu < now && now - lu > max_age;
            proof {
                assert(evict == !skeep(t[sj as int]));
            }
            if evict {
                let _dropped = self.system_shared_pools.remove(si);
                proof {
                    assert(self.system_shared_pools@ =~= t.take(sj + 1).filter(skeep) + t.skip(
                        sj + 1,
                    ));
                }
            } else {
                si = si + 1;
                proof {
                    assert(self.system_shared_pools@ =~= t.take(sj + 1).filter(skeep) + t.skip(
                        sj + 1,
                    ));
                }
            }
            sj = sj + 1;
        }
        proof {
            assert(t.take(sn as int) =~= t);
            assert(self.system_shared_pools@ =~= t.filter(skeep));
            lemma_filter_unique(s, user_key(), keep);
            lemma_filter_unique(t, shared_key(), skeep);
            lemma_filter_elements(s, keep);
            lemma_filter_elements(t, skeep);
            assert forall|a: int| 0 <= a < self.spec_user_pools().len() implies {
                let e = #[trigger] self.spec_user_pools()[a];
                e.pool.wf() && e.pool.spec_key() == (PoolKeyV::User {
                    username: e.username@,
                    password: e.password@,
                    max_connections: e.max_connections as int,
                })
            } by {
                let e = self.spec_user_pools()[a];
                assert(s.contains(e));
                let b = choose|b: int| 0 <= b < s.len() && s[b] == e;
            }
            assert forall|a: int| 0 <= a < self.spec_shared_pools().len() implies {
                let e = #[trigger] self.spec_shared_pools()[a];
                e.pool.wf() && e.pool.spec_key() == (PoolKeyV::Shared {
                    max_connections: e.max_connections as int,
                })
            } by {
                let e = self.spec_shared_pools()[a];
                assert(t.contains(e));
                let b = choose|b: int| 0 <= b < t.len() && t[b] == e;
            }
        }
    }

    /// The status of every pool: the authentication pool, the
    /// system-requests pool, then every tenant pool and every shared pool.
    pub fn report_pool_stats(&self) -> (r: Vec<ConnectionPoolStatus>)
        requires
            self.wf(),
        ensures
            r@.len() == 2 + self.spec_user_pools().len() + self.spec_shared_pools().len(),
            r@[0].spec_identifier() == self.spec_auth_pool().spec_identifier(),
            r@[0].spec_status() == spec_status_of(self.spec_auth_pool()),
            r@[1].spec_identifier() == self.spec_system_pool().spec_identifier(),
            r@[1].spec_status() == spec_status_of(self.spec_system_pool()),
            forall|t: int|
                2 <= t < 2 + self.spec_user_pools().len() ==> (#[trigger] r@[t]).spec_identifier()
                    == self.spec_user_pools()[t - 2].pool.spec_identifier() && r@[t].spec_status()
                    == spec_status_of(self.spec_user_pools()[t - 2].pool),
            forall|t: int|
                2 + self.spec_user_pools().len() <= t < r@.len() ==> (
                #[trigger] r@[t]).spec_identifier() == self.spec_shared_pools()[t - 2
                    - self.spec_user_pools().len()].pool.spec_identifier() && r@[t].spec_status()
                    == spec_status_of(
                    self.spec_shared_pools()[t - 2 - self.spec_user_pools().len()].pool,
                ),
    {
        let mut r: Vec<ConnectionPoolStatus> = Vec::new();
        r.push(self.system_auth_pool.status());
        r.push(self.system_requests_pool.status());
        let n = self.user_data_pools.len();
        let mut i: usize = 0;
        while i < n
            invariant
                i <= n,
                n == self.spec_user_pools().len(),
                self.wf(),
                r@.len() == 2 + i,
                r@[0].spec_identifier() == self.spec_auth_pool().spec_identifier(),
                r@[0].spec_status() == spec_status_of(self.spec_auth_pool()),
                r@[1].spec_identifier() == self.spec_system_pool().spec_identifier(),
                r@[1].spec_status() == spec_status_of(self.spec_system_pool()),
                forall|t: int|
                    2 <= t < 2 + i ==> (#[trigger] r@[t]).spec_identifier()
                        == self.spec_user_pools()[t - 2].pool.spec_identifier() && r@[
                        t].spec_status() == spec_status_of(self.spec_user_pools()[t - 2].pool),
            decreases n - i,
        {
            r.push(self.user_data_pools[i].pool.status());
            i = i + 1;
        }
        let m = self.system_shared_pools.len();
        let mut j: usize = 0;
        while j < m
            invariant
                j <= m,
                m == self.spec_shared_pools().len(),
                n == self.spec_user_pools().len(),
                self.wf(),
                r@.len() == 2 + n + j,
                r@[0].spec_identifier() == self.spec_auth_pool().spec_identifier(),
                r@[0].spec_status() == spec_status_of(self.spec_auth_pool()),
                r@[1].spec_identifier() == self.spec_system_pool().spec_identifier(),
                r@[1].spec_status() == spec_status_of(self.spec_system_pool()),
                forall|t: int|
                    2 <= t < 2 + n ==> (#[trigger] r@[t]).spec_identifier()
                        == self.spec_user_pools()[t - 2].pool.spec_identifier() && r@[
                        t].spec_status() == spec_status_of(self.spec_user_pools()[t - 2].pool),
                forall|t: int|
                    2 + n <= t < 2 + n + j ==> (#[trigger] r@[t]).spec_identifier()
                        == self.spec_shared_pools()[t - 2 - n].pool.spec_identifier() && r@[
                        t].spec_status() == spec_status_of(self.spec_shared_pools()[t - 2 - n].pool),
            decreases m - j,
        {
            r.push(self.system_shared_pools[j].pool.status());
            j = j + 1;
        }
        r
    }

    /// A connection from the fixed authentication pool, outside any
    /// transaction.
    pub fn authentication_connection(&mut self, now: u64) -> (r: Result<Connection, GatewayError>)
        requires
            old(self).wf(),
        ensures
            final(self).wf(),
            final(self).spec_system_pool() == old(self).spec_system_pool(),
            final(self).spec_user_pools() == old(self).spec_user_pools(),
            final(self).spec_shared_pools() == old(self).spec_shared_pools(),
            final(self).spec_application_name() == old(self).spec_application_name(),
            final(self).spec_system_user() == old(self).spec_system_user(),
            final(self).spec_auth_pool().spec_max_size() == old(self).spec_auth_pool().spec_max_size(),
            final(self).spec_auth_pool().spec_key() == PoolKeyV::Auth,
            if old(self).spec_auth_pool().spec_in_use() < old(self).spec_auth_pool().spec_max_size() {
                &&& r matches Ok(c) && c.spec_source() == PoolKeyV::Auth && !c.in_transaction
                &&& final(self).spec_auth_pool().spec_in_use() == old(self).spec_auth_pool().spec_in_use() + 1
            } else {
                &&& r matches Err(e) && e == GatewayError::PoolAcquireTimeout
                &&& final(self).spec_auth_pool().spec_in_use() == old(self).spec_auth_pool().spec_in_use()
            },
    {
        match self.system_auth_pool.acquire_connection(now) {
            Ok(c) => Ok(Connection::new(c, false)),
            Err(e) => Err(e),
        }
    }
}

/// One provisioning attempt for a tenant-pool key, as `allocate_data_pool`
/// performs it: where the key is registered nothing changes, where it is
/// not one entry carrying the key is appended.
pub open spec fn user_provision_step(
    s0: Seq<UserPoolEntry>,
    s1: Seq<UserPoolEntry>,
    k: (Seq<char>, Seq<char>, int),
) -> bool {
    match entry_at(s0, user_key(), k) {
        Some(e) => s1 == s0,
        None => s1.len() == s0.len() + 1 && s1 == s0.push(s1.last()) && user_key()(s1.last())
            == k,
    }
}

/// One provisioning attempt for a shared-pool key, as
/// `get_system_shared_pool` performs it.
pub open spec fn shared_provision_step(
    s0: Seq<SharedPoolEntry>,
    s1: Seq<SharedPoolEntry>,
    k: int,
) -> bool {
    match entry_at(s0, shared_key(), k) {
        Some(e) => s1 == s0,
        None => s1.len() == s0.len() + 1 && s1 == s0.push(s1.last()) && shared_key()(s1.last())
            == k,
    }
}

/// Provisioning attempts with one credential key produce exactly one pool
/// entry: after the first attempt the key is registered and registry keys
/// stay unique, and any further attempt with the same key changes nothing.
pub proof fn lemma_provisioning_idempotent(
    s0: Seq<UserPoolEntry>,
    s1: Seq<UserPoolEntry>,
    s2: Seq<UserPoolEntry>,
    k: (Seq<char>, Seq<char>, int),
)
    requires
        entries_unique(s0, user_key()),
        user_provision_step(s0, s1, k),
        user_provision_step(s1, s2, k),
    ensures
        entries_unique(s1, user_key()),
        entry_at(s1, user_key(), k).is_some(),
        s2 == s1,
{
    match entry_at(s0, user_key(), k) {
        Some(e) => {},
        None => {
            lemma_entry_at_push(s0, user_key(), s1.last(), k);
            lemma_push_unique(s0, user_key(), s1.last());
        },
    }
}

/// Changing the effective max-connections value keys the next shared-pool
/// lookup into a new entry; the pool registered under the old value stays
/// listed, and an unused-pool sweep keeps it exactly while its last use is
/// within the sweep's age threshold.
pub proof fn lemma_capacity_change_keeps_old_pool(
    s0: Seq<SharedPoolEntry>,
    s1: Seq<SharedPoolEntry>,
    k_old: int,
    k_new: int,
    max_age: u64,
    now: u64,
)
    requires
        entries_unique(s0, shared_key()),
        k_old != k_new,
        entry_at(s0, shared_key(), k_old).is_some(),
        shared_provision_step(s0, s1, k_new),
    ensures
        entry_at(s1, shared_key(), k_new).is_some(),
        entry_at(s1, shared_key(), k_old) == entry_at(s0, shared_key(), k_old),
        entry_at(s1.filter(shared_keep(max_age, now)), shared_key(), k_old) == (if shared_keep(
            max_age,
            now,
        )(entry_at(s0, shared_key(), k_old).unwrap()) {
            entry_at(s0, shared_key(), k_old)
        } else {
            None::<SharedPoolEntry>
        }),
{
    match entry_at(s0, shared_key(), k_new) {
        Some(e) => {
            lemma_entry_at_filter(s0, shared_key(), shared_keep(max_age, now), k_old);
        },
        None => {
            lemma_entry_at_push(s0, shared_key(), s1.last(), k_new);
            lemma_entry_at_push(s0, shared_key(), s1.last(), k_old);
            lemma_push_unique(s0, shared_key(), s1.last());
            lemma_entry_at_filter(s1, shared_key(), shared_keep(max_age, now), k_old);
        },
    }
}

} // verus!
