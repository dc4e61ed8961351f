//! The per-session transaction state machine.
//!
//! A session's entry is created on the first operation declaring a
//! transaction, holds the borrowed connection while the transaction is
//! active, and is terminal once committed or aborted.  A committed session
//! leaves a marker behind so that a client re-sending a commit-triggering
//! request is answered with the benign already-committed condition rather
//! than a hard failure; the marker, like an abandoned transaction, is
//! reclaimed by the expiry sweep.

use vstd::prelude::*;
use crate::connection::Connection;
use crate::error::GatewayError;
use crate::registry::{entries_unique, entry_at, lemma_entry_at_push, lemma_entry_at_remove,
    lemma_entry_at_some, lemma_entry_at_update, lemma_filter_elements, lemma_filter_unique,
    lemma_push_unique};

verus! {

/// Whether two byte strings hold the same bytes.
pub fn bytes_eq(a: &Vec<u8>, b: &Vec<u8>) -> (r: bool)
    ensures
        r == (a@ == b@),
{
    if a.len() != b.len() {
        proof {
            assert(a@ != b@);
        }
        return false;
    }
    let n = a.len();
    let mut i: usize = 0;
    while i < n
        invariant
            i <= n,
            n == a@.len(),
            n == b@.len(),
            forall|j: int| 0 <= j < i ==> a@[j] == b@[j],
        decreases n - i,
    {
        if a[i] != b[i] {
            proof {
                assert(a@[i as int] != b@[i as int]);
            }
            return false;
        }
        i = i + 1;
    }
    proof {
        assert(a@ =~= b@);
    }
    true
}

/// Where a session's transaction stands.
#[derive(Clone, Copy, Debug, PartialEq, Eq, Structural)]
pub enum TransactionState {
    /// Begun and not yet resolved; the entry holds the connection.
    Active,
    /// Committed; the marker stays so a repeated commit is benign.
    Committed,
}

/// One session's transaction.
pub struct TransactionEntry {
    pub session_id: Vec<u8>,
    pub transaction_number: i64,
    pub state: TransactionState,
    pub connection: Option<Connection>,
    /// Absolute tick past which the expiry sweep reclaims this entry.
    pub deadline: u64,
}

/// Key projection of a transaction entry.
pub open spec fn txn_key() -> spec_fn(TransactionEntry) -> Seq<u8> {
    |e: TransactionEntry| e.session_id@
}

/// Whether the expiry sweep at tick `now` keeps an entry: its deadline has
/// not passed.
pub open spec fn txn_keep(now: u64) -> spec_fn(TransactionEntry) -> bool {
    |e: TransactionEntry| e.deadline >= now
}

/// The connections held by the entries of `s`, in order.
pub open spec fn held_connections(s: Seq<TransactionEntry>) -> Seq<Connection>
    decreases s.len(),
{
    if s.len() == 0 {
        Seq::empty()
    } else {
        held_connections(s.drop_last()) + (match s.last().connection {
            Some(c) => seq![c],
            None => Seq::empty(),
        })
    }
}

/// The transaction store: one entry per session id.
pub struct TransactionStore {
    entries: Vec<TransactionEntry>,
    timeout_ticks: u64,
}

impl TransactionStore {
    /// The stored entries, in creation order.
    pub closed spec fn spec_entries(&self) -> Seq<TransactionEntry> {
        self.entries@
    }

    /// How many ticks a new transaction may live.
    pub closed spec fn spec_timeout_ticks(&self) -> u64 {
        self.timeout_ticks
    }

    /// Session ids are unique, and an entry holds its connection exactly
    /// while it is active.
    pub open spec fn wf(&self) -> bool {
        &&& entries_unique(self.spec_entries(), txn_key())
        &&& forall|i: int|
            0 <= i < self.spec_entries().len() ==> ((#[trigger] self.spec_entries()[i]).state
                is Active <==> self.spec_entries()[i].connection.is_some())
    }

    /// An empty store whose transactions expire after `timeout_ticks`.
    pub fn new(timeout_ticks: u64) -> (r: TransactionStore)
        ensures
            r.wf(),
            r.spec_entries().len() == 0,
            r.spec_timeout_ticks() == timeout_ticks,
    {
        TransactionStore { entries: Vec::new(), timeout_ticks }
    }

    /// Index of the session's entry, if one is stored.
    fn find_index(&self, session_id: &Vec<u8>) -> (r: Option<usize>)
        requires
            self.wf(),
        ensures
            match r {
                Some(i) => i < self.spec_entries().len() && entry_at(
                    self.spec_entries(),
                    txn_key(),
                    session_id@,
                ) == Some(self.spec_entries()[i as int]),
                None => entry_at(self.spec_entries(), txn_key(), session_id@).is_none(),
            },
    {
        let n = self.entries.len();
        proof {
            assert(self.entries@.take(n as int) =~= self.entries@);
        }
        let mut i = n;
        while i > 0
            invariant
                i <= n,
                n == self.spec_entries().len(),
                self.wf(),
                entry_at(self.spec_entries().take(i as int), txn_key(), session_id@) == entry_at(
                    self.spec_entries(),
                    txn_key(),
                    session_id@,
                ),
            decreases i,
        {
            i = i - 1;
            proof {
                assert(self.spec_entries().take(i + 1).drop_last() =~= self.spec_entries().take(
                    i as int,
                ));
                assert(self.spec_entries().take(i + 1).last() == self.spec_entries()[i as int]);
            }
            if bytes_eq(&self.entries[i].session_id, session_id) {
                return Some(i);
            }
        }
        proof {
            assert(self.spec_entries().take(0) =~= Seq::<TransactionEntry>::empty());
        }
        None
    }

    /// Whether the store holds an entry for this session.
    pub fn contains(&self, session_id: &Vec<u8>) -> (r: bool)
        requires
            self.wf(),
        ensures
            r == entry_at(self.spec_entries(), txn_key(), session_id@).is_some(),
    {
        matches!(self.find_index(session_id), Some(_))
    }

    /// Starts a transaction for a session, storing the borrowed connection
    /// and the expiry deadline.  A session already committed is answered
    /// with the benign already-committed condition; a session whose
    /// transaction is still active must resolve it first.  On failure the
    /// connection is handed back to the caller untouched.
    pub fn create(
        &mut self,
        session_id: Vec<u8>,
        transaction_number: i64,
        connection: Connection,
        now: u64,
    ) -> (r: Result<(), (GatewayError, Connection)>)
        requires
            old(self).wf(),
        ensures
            final(self).wf(),
            final(self).spec_timeout_ticks() == old(self).spec_timeout_ticks(),
            forall|k2: Seq<u8>|
                k2 != session_id@ ==> entry_at(final(self).spec_entries(), txn_key(), k2)
                    == entry_at(old(self).spec_entries(), txn_key(), k2),
            match entry_at(old(self).spec_entries(), txn_key(), session_id@) {
                None => {
                    let e = final(self).spec_entries().last();
                    &&& r.is_ok()
                    &&& final(self).spec_entries() == old(self).spec_entries().push(e)
                    &&& e.session_id@ == session_id@
                    &&& e.transaction_number == transaction_number
                    &&& e.state is Active
                    &&& e.connection == Some(connection)
                    &&& e.deadline == (if now + old(self).spec_timeout_ticks() <= u64::MAX {
                        now + old(self).spec_timeout_ticks()
                    } else {
                        u64::MAX as int
                    })
                },
                Some(e) => {
                    &&& final(self).spec_entries() == old(self).spec_entries()
                    &&& if e.state is Committed {
                        r == Err::<(), (GatewayError, Connection)>(
                            (GatewayError::TransactionCommitted, connection),
                        )
                    } else {
                        r == Err::<(), (GatewayError, Connection)>(
                            (GatewayError::InternalInvariantViolation, connection),
                        )
                    }
                },
            },
    {
        match self.find_index(&session_id) {
            Some(i) => {
                let committed = matches!(self.entries[i].state, TransactionState::Committed);
                if committed {
                    Err((GatewayError::TransactionCommitted, connection))
                } else {
                    Err((GatewayError::InternalInvariantViolation, connection))
                }
            },
            None => {
                let deadline = if now <= u64::MAX - self.timeout_ticks {
                    now + self.timeout_ticks
                } else {
                    u64::MAX
                };
                let entry = TransactionEntry {
                    session_id,
                    transaction_number,
                    state: TransactionState::Active,
                    connection: Some(connection),
                    deadline,
                };
                proof {
                    lemma_push_unique(self.spec_entries(), txn_key(), entry);
                    lemma_entry_at_push(self.spec_entries(), txn_key(), entry, entry.session_id@);
                    assert forall|k2: Seq<u8>| k2 != entry.session_id@ implies entry_at(
                        self.spec_entries().push(entry),
                        txn_key(),
                        k2,
                    ) == entry_at(self.spec_entries(), txn_key(), k2) by {
                        lemma_entry_at_push(self.spec_entries(), txn_key(), entry, k2);
                    }
                }
                self.entries.push(entry);
                Ok(())
            },
        }
    }

    /// Commits the session's transaction: the held connection is handed
    /// back for the commit statement and release, and a committed marker
    /// stays behind.  Committing an already-committed session returns the
    /// already-committed condition, not a hard failure; a session with no
    /// entry has no transaction to commit.
    pub fn commit(&mut self, session_id: &Vec<u8>) -> (r: Result<Connection, GatewayError>)
        requires
            old(self).wf(),
        ensures
            final(self).wf(),
            final(self).spec_timeout_ticks() == old(self).spec_timeout_ticks(),
            forall|k2: Seq<u8>|
                k2 != session_id@ ==> entry_at(final(self).spec_entries(), txn_key(), k2)
                    == entry_at(old(self).spec_entries(), txn_key(), k2),
            match entry_at(old(self).spec_entries(), txn_key(), session_id@) {
                None => r == Err::<Connection, GatewayError>(GatewayError::TransactionNotFound)
                    && final(self).spec_entries() == old(self).spec_entries(),
                Some(e) => if e.state is Active {
                    &&& r matches Ok(c) && Some(c) == e.connection
                    &&& entry_at(final(self).spec_entries(), txn_key(), session_id@) matches Some(
                        e2,
                    ) && e2.session_id@ == e.session_id@ && e2.transaction_number
                        == e.transaction_number && e2.state is Committed && e2.connection
                        is None && e2.deadline == e.deadline
                    &&& final(self).spec_entries().len() == old(self).spec_entries().len()
                } else {
                    r == Err::<Connection, GatewayError>(GatewayError::TransactionCommitted)
                        && final(self).spec_entries() == old(self).spec_entries()
                },
            },
    {
        let ghost s0 = self.entries@;
        match self.find_index(session_id) {
            None => Err(GatewayError::TransactionNotFound),
            Some(i) => {
                proof {
                    lemma_entry_at_some(s0, txn_key(), session_id@);
                }
                let mut e = self.entries.remove(i);
                match e.connection.take() {
                    None => {
                        // Already committed: restore the marker unchanged.
                        self.entries.insert(i, e);
                        proof {
                            assert(self.entries@ =~= s0);
                        }
                        Err(GatewayError::TransactionCommitted)
                    },
                    Some(c) => {
                        e.state = TransactionState::Committed;
                        self.entries.insert(i, e);
                        proof {
                            let e2 = self.entries@[i as int];
                            assert(self.entries@ =~= s0.update(i as int, e2));
                            assert(txn_key()(e2) == txn_key()(s0[i as int]));
                            lemma_entry_at_update(s0, txn_key(), i as int, e2, session_id@);
                            assert forall|k2: Seq<u8>| k2 != session_id@ implies entry_at(
                                self.entries@,
                                txn_key(),
                                k2,
                            ) == entry_at(s0, txn_key(), k2) by {
                                lemma_entry_at_update(s0, txn_key(), i as int, e2, k2);
                            }
                        }
                        Ok(c)
                    },
                }
            },
        }
    }

    /// Aborts the session's transaction: the held connection is handed
    /// back for the rollback statement and release, and the entry is
    /// removed.  Aborting with no active transaction present — no entry,
    /// or only a committed marker — is the not-found error.
    pub fn abort(&mut self, session_id: &Vec<u8>) -> (r: Result<Connection, GatewayError>)
        requires
            old(self).wf(),
        ensures
            final(self).wf(),
            final(self).spec_timeout_ticks() == old(self).spec_timeout_ticks(),
            forall|k2: Seq<u8>|
                k2 != session_id@ ==> entry_at(final(self).spec_entries(), txn_key(), k2)
                    == entry_at(old(self).spec_entries(), txn_key(), k2),
            match entry_at(old(self).spec_entries(), txn_key(), session_id@) {
                None => r == Err::<Connection, GatewayError>(GatewayError::TransactionNotFound)
                    && final(self).spec_entries() == old(self).spec_entries(),
                Some(e) => if e.state is Active {
                    &&& r matches Ok(c) && Some(c) == e.connection
                    &&& entry_at(final(self).spec_entries(), txn_key(), session_id@).is_none()
                    &&& final(self).spec_entries().len() == old(self).spec_entries().len() - 1
                } else {
                    r == Err::<Connection, GatewayError>(GatewayError::TransactionNotFound)
                        && final(self).spec_entries() == old(self).spec_entries()
                },
            },
    {
        let ghost s0 = self.entries@;
        match self.find_index(session_id) {
            None => Err(GatewayError::TransactionNotFound),
            Some(i) => {
                proof {
                    lemma_entry_at_some(s0, txn_key(), session_id@);
                }
                let active = matches!(self.entries[i].state, TransactionState::Active);
                if !active {
                    Err(GatewayError::TransactionNotFound)
                } else {
                    let mut e = self.entries.remove(i);
                    proof {
                        assert(self.entries@ =~= s0.remove(i as int));
                        lemma_entry_at_remove(s0, txn_key(), i as int, session_id@);
                        assert forall|k2: Seq<u8>| k2 != session_id@ implies entry_at(
                            self.entries@,
                            txn_key(),
                            k2,
                        ) == entry_at(s0, txn_key(), k2) by {
                            lemma_entry_at_remove(s0, txn_key(), i as int, k2);
                        }
                    }
                    match e.connection.take() {
                        Some(c) => Ok(c),
                        None => {
                            // Unreachable: an active entry holds its connection.
                            Err(GatewayError::InternalInvariantViolation)
                        },
                    }
                }
            },
        }
    }

    /// Evicts every entry whose deadline has passed, handing back the
    /// connections of expired active transactions so the caller can roll
    /// each back and return it to its pool — a vanished client cannot hold
    /// a pooled connection indefinitely.
    #[verifier::rlimit(50)]
    pub fn expire(&mut self, now: u64) -> (r: Vec<Connection>)
        requires
            old(self).wf(),
        ensures
            final(self).wf(),
            final(self).spec_timeout_ticks() == old(self).spec_timeout_ticks(),
            final(self).spec_entries() == old(self).spec_entries().filter(txn_keep(now)),
            r@ == held_connections(
                old(self).spec_entries().filter(|e: TransactionEntry| e.deadline < now),
            ),
    {
        let ghost s = self.entries@;
        let ghost keep = txn_keep(now);
        let ghost gone = |e: TransactionEntry| e.deadline < now;
        let mut out: Vec<Connection> = Vec::new();
        let n = self.entries.len();
        let mut i: usize = 0;
        let mut j: usize = 0;
        proof {
            reveal(Seq::filter);
            assert(self.entries@ =~= s.take(0).filter(keep) + s.skip(0));
            assert(out@ =~= held_connections(s.take(0).filter(gone)));
        }
        while j < n
            invariant
                j <= n,
                i <= j,
                n == s.len(),
                s == old(self).spec_entries(),
                keep == txn_keep(now),
                gone == (|e: TransactionEntry| e.deadline < now),
                i as int == s.take(j as int).filter(keep).len(),
                self.entries@ == s.take(j as int).filter(keep) + s.skip(j as int),
                out@ == held_connections(s.take(j as int).filter(gone)),
                self.spec_timeout_ticks() == old(self).spec_timeout_ticks(),
            decreases n - j,
        {
            proof {
                reveal(Seq::filter);
                assert(s.take(j + 1).drop_last() =~= s.take(j as int));
                assert(self.entries@[i as int] == s[j as int]);
            }
            let expired = self.entries[i].deadline < now;
            if expired {
                let mut e = self.entries.remove(i);
                proof {
                    assert(self.entries@ =~= s.take(j + 1).filter(keep) + s.skip(j + 1));
                    assert(s.take(j + 1).filter(gone).drop_last() =~= s.take(j as int).filter(
                        gone,
                    ));
                }
                match e.connection.take() {
                    Some(c) => {
                        out.push(c);
                    },
                    None => {},
                }
                proof {
                    assert(out@ =~= held_connections(s.take(j + 1).filter(gone)));
                }
            } else {
                i = i + 1;
                proof {
                    assert(self.entries@ =~= s.take(j + 1).filter(keep) + s.skip(j + 1));
                    assert(s.take(j + 1).filter(gone) =~= s.take(j as int).filter(gone));
                }
            }
            j = j + 1;
        }
        proof {
            assert(s.take(n as int) =~= s);
            assert(self.entries@ =~= s.filter(keep));
            assert(out@ =~= held_connections(s.filter(gone)));
            lemma_filter_unique(s, txn_key(), keep);
            lemma_filter_elements(s, keep);
            assert forall|a: int| 0 <= a < self.spec_entries().len() implies ((
            #[trigger] self.spec_entries()[a]).state is Active
                <==> self.spec_entries()[a].connection.is_some()) by {
                let e = self.spec_entries()[a];
                assert(s.contains(e));
                let b = choose|b: int| 0 <= b < s.len() && s[b] == e;
            }
        }
        out
    }
}

} // verus!
