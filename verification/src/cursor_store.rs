//! The per-cursor continuation store.
//!
//! Entries are keyed by cursor id and owner username, so cross-tenant
//! cursor access is impossible by construction.  A stateful cursor owns the
//! connection it was produced on for its lifetime; a stateless cursor owns
//! none, and each continuation re-borrows from the pool.  Every removal
//! path hands any owned connection back to the caller for release.

use vstd::prelude::*;
use crate::connection::Connection;
use crate::error::GatewayError;
use crate::registry::{entries_unique, entry_at, lemma_entry_at_filter, lemma_entry_at_push,
    lemma_entry_at_remove, lemma_entry_at_some, lemma_filter_unique, lemma_push_unique};

verus! {

/// A server-side cursor's id and continuation token.
pub struct Cursor {
    pub cursor_id: i64,
    pub continuation: Vec<u8>,
}

/// One stored cursor continuation.
pub struct CursorStoreEntry {
    /// The connection the cursor owns, where one was supplied.
    pub conn: Option<Connection>,
    pub cursor: Cursor,
    pub username: String,
    pub db: String,
    pub collection: String,
    pub session_id: Option<Vec<u8>>,
    /// The idle timeout this cursor was stored with, in ticks.
    pub cursor_timeout: u64,
    /// Absolute tick past which the idle sweep reclaims this entry.
    pub deadline: u64,
}

/// Key projection of a cursor entry.
pub open spec fn cursor_key() -> spec_fn(CursorStoreEntry) -> (int, Seq<char>) {
    |e: CursorStoreEntry| (e.cursor.cursor_id as int, e.username@)
}

/// Whether the idle sweep at tick `now` keeps an entry.
pub open spec fn cursor_keep(now: u64) -> spec_fn(CursorStoreEntry) -> bool {
    |e: CursorStoreEntry| e.deadline >= now
}

/// Whether a drop of the database `db` keeps an entry: the entry is scoped
/// elsewhere.
pub open spec fn db_keep(db: Seq<char>) -> spec_fn(CursorStoreEntry) -> bool {
    |e: CursorStoreEntry| e.db@ != db
}

/// Whether a drop of (`db`, `collection`) keeps an entry.
pub open spec fn collection_keep(db: Seq<char>, collection: Seq<char>) -> spec_fn(
    CursorStoreEntry,
) -> bool {
    |e: CursorStoreEntry| !(e.db@ == db && e.collection@ == collection)
}

/// The connections owned by the entries of `s`, in order.
pub open spec fn owned_connections(s: Seq<CursorStoreEntry>) -> Seq<Connection>
    decreases s.len(),
{
    if s.len() == 0 {
        Seq::empty()
    } else {
        owned_connections(s.drop_last()) + (match s.last().conn {
            Some(c) => seq![c],
            None => Seq::empty(),
        })
    }
}

/// The ids a kill request removes: those whose entry is stored for this
/// user, counting each id once.
pub open spec fn kill_removed(
    s: Seq<CursorStoreEntry>,
    username: Seq<char>,
    ids: Seq<i64>,
) -> Seq<i64>
    decreases ids.len(),
{
    if ids.len() == 0 {
        Seq::empty()
    } else {
        let prev = kill_removed(s, username, ids.drop_last());
        let id = ids.last();
        if entry_at(s, cursor_key(), (id as int, username)).is_some() && !ids.drop_last().contains(
            id,
        ) {
            prev.push(id)
        } else {
            prev
        }
    }
}

/// The ids a kill request reports missing: those with no stored entry for
/// this user at the time they are processed.
pub open spec fn kill_missing(
    s: Seq<CursorStoreEntry>,
    username: Seq<char>,
    ids: Seq<i64>,
) -> Seq<i64>
    decreases ids.len(),
{
    if ids.len() == 0 {
        Seq::empty()
    } else {
        let prev = kill_missing(s, username, ids.drop_last());
        let id = ids.last();
        if entry_at(s, cursor_key(), (id as int, username)).is_some() && !ids.drop_last().contains(
            id,
        ) {
            prev
        } else {
            prev.push(id)
        }
    }
}

/// The connections a kill request frees, in processing order.
pub open spec fn kill_freed(
    s: Seq<CursorStoreEntry>,
    username: Seq<char>,
    ids: Seq<i64>,
) -> Seq<Connection>
    decreases ids.len(),
{
    if ids.len() == 0 {
        Seq::empty()
    } else {
        let prev = kill_freed(s, username, ids.drop_last());
        let id = ids.last();
        if entry_at(s, cursor_key(), (id as int, username)).is_some() && !ids.drop_last().contains(
            id,
        ) {
            prev + (match entry_at(s, cursor_key(), (id as int, username)).unwrap().conn {
                Some(c) => seq![c],
                None => Seq::empty(),
            })
        } else {
            prev
        }
    }
}

/// The cursor store: one entry per (cursor id, owner) pair.
pub struct CursorStore {
    entries: Vec<CursorStoreEntry>,
}

impl CursorStore {
    /// The stored entries, in insertion order.
    pub closed spec fn spec_entries(&self) -> Seq<CursorStoreEntry> {
        self.entries@
    }

    /// Keys are unique.
    pub open spec fn wf(&self) -> bool {
        entries_unique(self.spec_entries(), cursor_key())
    }

    /// An empty store.
    pub fn new() -> (r: CursorStore)
        ensures
            r.wf(),
            r.spec_entries().len() == 0,
    {
        CursorStore { entries: Vec::new() }
    }

    /// Index of the entry for this cursor id and owner, if one is stored.
    fn find_index(&self, cursor_id: i64, username: &str) -> (r: Option<usize>)
        requires
            self.wf(),
        ensures
            match r {
                Some(i) => i < self.spec_entries().len() && entry_at(
                    self.spec_entries(),
                    cursor_key(),
                    (cursor_id as int, username@),
                ) == Some(self.spec_entries()[i as int]),
                None => entry_at(
                    self.spec_entries(),
                    cursor_key(),
                    (cursor_id as int, username@),
                ).is_none(),
            },
    {
        let u = String::from_str(username);
        let n = self.entries.len();
        proof {
            assert(self.entries@.take(n as int) =~= self.entries@);
        }
        let mut i = n;
        while i > 0
            invariant
                i <= n,
                n == self.spec_entries().len(),
                self.wf(),
                u@ == username@,
                entry_at(
                    self.spec_entries().take(i as int),
                    cursor_key(),
                    (cursor_id as int, username@),
                ) == entry_at(
                    self.spec_entries(),
                    cursor_key(),
                    (cursor_id as int, username@),
                ),
            decreases i,
        {
            i = i - 1;
            proof {
                assert(self.spec_entries().take(i + 1).drop_last() =~= self.spec_entries().take(
                    i as int,
                ));
                assert(self.spec_entries().take(i + 1).last() == self.spec_entries()[i as int]);
            }
            if self.entries[i].cursor.cursor_id == cursor_id && self.entries[i].username == u {
                return Some(i);
            }
        }
        proof {
            assert(self.spec_entries().take(0) =~= Seq::<CursorStoreEntry>::empty());
        }
        None
    }

    /// Whether the store holds an entry for this cursor id and owner.
    pub fn contains(&self, cursor_id: i64, username: &str) -> (r: bool)
        requires
            self.wf(),
        ensures
            r == entry_at(
                self.spec_entries(),
                cursor_key(),
                (cursor_id as int, username@),
            ).is_some(),
    {
        matches!(self.find_index(cursor_id, username), Some(_))
    }

    /// Persists a cursor continuation.  A supplied connection is owned by
    /// the entry for the cursor's lifetime; the idle deadline is `now` plus
    /// the timeout the caller selected.  Where an entry for the same key
    /// was present, it is replaced and its owned connection handed back.
    pub fn add_cursor(
        &mut self,
        conn: Option<Connection>,
        cursor: Cursor,
        username: String,
        db: String,
        collection: String,
        timeout_ticks: u64,
        session_id: Option<Vec<u8>>,
        now: u64,
    ) -> (r: Option<Connection>)
        requires
            old(self).wf(),
        ensures
            final(self).wf(),
            forall|k2: (int, Seq<char>)|
                k2 != (cursor.cursor_id as int, username@) ==> entry_at(
                    final(self).spec_entries(),
                    cursor_key(),
                    k2,
                ) == entry_at(old(self).spec_entries(), cursor_key(), k2),
            entry_at(
                final(self).spec_entries(),
                cursor_key(),
                (cursor.cursor_id as int, username@),
            ) matches Some(e2) && e2.conn == conn && e2.cursor == cursor && e2.username@
                == username@ && e2.db@ == db@ && e2.collection@ == collection@ && e2.session_id
                == session_id && e2.cursor_timeout == timeout_ticks && e2.deadline == (if now
                + timeout_ticks <= u64::MAX {
                now + timeout_ticks
            } else {
                u64::MAX as int
            }),
            match entry_at(
                old(self).spec_entries(),
                cursor_key(),
                (cursor.cursor_id as int, username@),
            ) {
                Some(e) => r == e.conn,
                None => r is None,
            },
    {
        let ghost s0 = self.entries@;
        let ghost k = (cursor.cursor_id as int, username@);
        let displaced: Option<Connection> = match self.find_index(cursor.cursor_id, username.as_str()) {
            Some(i) => {
                proof {
                    lemma_entry_at_some(s0, cursor_key(), k);
                }
                let mut e = self.entries.remove(i);
                proof {
                    assert(self.entries@ =~= s0.remove(i as int));
                    lemma_entry_at_remove(s0, cursor_key(), i as int, k);
                    assert forall|k2: (int, Seq<char>)| k2 != k implies entry_at(
                        self.entries@,
                        cursor_key(),
                        k2,
                    ) == entry_at(s0, cursor_key(), k2) by {
                        lemma_entry_at_remove(s0, cursor_key(), i as int, k2);
                    }
                }
                e.conn.take()
            },
            None => None,
        };
        let deadline = if now <= u64::MAX - timeout_ticks {
            now + timeout_ticks
        } else {
            u64::MAX
        };
        let entry = CursorStoreEntry {
            conn,
            cursor,
            username,
            db,
            collection,
            session_id,
            cursor_timeout: timeout_ticks,
            deadline,
        };
        proof {
            lemma_push_unique(self.entries@, cursor_key(), entry);
            lemma_entry_at_push(self.entries@, cursor_key(), entry, k);
            assert forall|k2: (int, Seq<char>)| k2 != k implies entry_at(
                self.entries@.push(entry),
                cursor_key(),
                k2,
            ) == entry_at(self.entries@, cursor_key(), k2) by {
                lemma_entry_at_push(self.entries@, cursor_key(), entry, k2);
            }
        }
        self.entries.push(entry);
        displaced
    }

    /// Takes the cursor's entry out of the store.  Fails with
    /// cursor-not-found where no entry is stored under this id and owner —
    /// an id never added, already removed, or owned by a different user —
    /// or where the entry's idle deadline has passed; an expired entry is
    /// left for the idle sweep to reclaim.
    pub fn get_cursor(&mut self, cursor_id: i64, username: &str, now: u64) -> (r: Result<
        CursorStoreEntry,
        GatewayError,
    >)
        requires
            old(self).wf(),
        ensures
            final(self).wf(),
            forall|k2: (int, Seq<char>)|
                k2 != (cursor_id as int, username@) ==> entry_at(
                    final(self).spec_entries(),
                    cursor_key(),
                    k2,
                ) == entry_at(old(self).spec_entries(), cursor_key(), k2),
            match entry_at(old(self).spec_entries(), cursor_key(), (cursor_id as int, username@)) {
                None => r == Err::<CursorStoreEntry, GatewayError>(GatewayError::CursorNotFound)
                    && final(self).spec_entries() == old(self).spec_entries(),
                Some(e) => if e.deadline < now {
                    r == Err::<CursorStoreEntry, GatewayError>(GatewayError::CursorNotFound)
                        && final(self).spec_entries() == old(self).spec_entries()
                } else {
                    &&& r matches Ok(taken) && taken == e
                    &&& entry_at(
                        final(self).spec_entries(),
                        cursor_key(),
                        (cursor_id as int, username@),
                    ).is_none()
                    &&& final(self).spec_entries().len() == old(self).spec_entries().len() - 1
                },
            },
    {
        let ghost s0 = self.entries@;
        let ghost k = (cursor_id as int, username@);
        match self.find_index(cursor_id, username) {
            None => Err(GatewayError::CursorNotFound),
            Some(i) => {
                proof {
                    lemma_entry_at_some(s0, cursor_key(), k);
                }
                if self.entries[i].deadline < now {
                    Err(GatewayError::CursorNotFound)
                } else {
                    let e = self.entries.remove(i);
                    proof {
                        assert(self.entries@ =~= s0.remove(i as int));
                        lemma_entry_at_remove(s0, cursor_key(), i as int, k);
                        assert forall|k2: (int, Seq<char>)| k2 != k implies entry_at(
                            self.entries@,
                            cursor_key(),
                            k2,
                        ) == entry_at(s0, cursor_key(), k2) by {
                            lemma_entry_at_remove(s0, cursor_key(), i as int, k2);
                        }
                    }
                    Ok(e)
                }
            },
        }
    }

    /// Attempts removal of each listed cursor for this owner, partitioning
    /// the ids into removed and missing — always a best-effort partition,
    /// never one failure for the whole batch.  The connections owned by
    /// removed cursors are handed back for release.
    #[verifier::rlimit(50)]
    pub fn kill_cursors(&mut self, username: &str, cursor_ids: &Vec<i64>) -> (r: (
        Vec<i64>,
        Vec<i64>,
        Vec<Connection>,
    ))
        requires
            old(self).wf(),
        ensures
            final(self).wf(),
            forall|id: i64, u2: Seq<char>|
                entry_at(final(self).spec_entries(), cursor_key(), (id as int, u2)) == (if u2
                    == username@ && cursor_ids@.contains(id) {
                    None::<CursorStoreEntry>
                } else {
                    entry_at(old(self).spec_entries(), cursor_key(), (id as int, u2))
                }),
            r.0@ == kill_removed(old(self).spec_entries(), username@, cursor_ids@),
            r.1@ == kill_missing(old(self).spec_entries(), username@, cursor_ids@),
            r.2@ == kill_freed(old(self).spec_entries(), username@, cursor_ids@),
    {
        let ghost s0 = self.entries@;
        let ghost u = username@;
        let mut removed: Vec<i64> = Vec::new();
        let mut missing: Vec<i64> = Vec::new();
        let mut freed: Vec<Connection> = Vec::new();
        let n = cursor_ids.len();
        let mut t: usize = 0;
        proof {
            assert(cursor_ids@.take(0) =~= Seq::<i64>::empty());
        }
        while t < n
            invariant
                t <= n,
                n == cursor_ids@.len(),
                u == username@,
                self.wf(),
                forall|id2: i64, u2: Seq<char>|
                    entry_at(self.spec_entries(), cursor_key(), (id2 as int, u2)) == (if u2 == u
                        && cursor_ids@.take(t as int).contains(id2) {
                        None::<CursorStoreEntry>
                    } else {
                        entry_at(s0, cursor_key(), (id2 as int, u2))
                    }),
                removed@ == kill_removed(s0, u, cursor_ids@.take(t as int)),
                missing@ == kill_missing(s0, u, cursor_ids@.take(t as int)),
                freed@ == kill_freed(s0, u, cursor_ids@.take(t as int)),
            decreases n - t,
        {
            let id = cursor_ids[t];
            proof {
                assert(cursor_ids@.take(t + 1).drop_last() =~= cursor_ids@.take(t as int));
                assert(cursor_ids@.take(t + 1).last() == id);
            }
            let ghost k = (id as int, u);
            let ghost s_cur = self.entries@;
            match self.find_index(id, username) {
                Some(i) => {
                    proof {
                        lemma_entry_at_some(s_cur, cursor_key(), k);
                        assert(!cursor_ids@.take(t as int).contains(id));
                        assert(entry_at(s0, cursor_key(), k).is_some());
                        assert(entry_at(s_cur, cursor_key(), k) == entry_at(s0, cursor_key(), k));
                    }
                    let mut e = self.entries.remove(i);
                    proof {
                        assert(self.entries@ =~= s_cur.remove(i as int));
                        lemma_entry_at_remove(s_cur, cursor_key(), i as int, k);
                        assert forall|k2: (int, Seq<char>)| k2 != k implies entry_at(
                            self.entries@,
                            cursor_key(),
                            k2,
                        ) == entry_at(s_cur, cursor_key(), k2) by {
                            lemma_entry_at_remove(s_cur, cursor_key(), i as int, k2);
                        }
                    }
                    removed.push(id);
                    match e.conn.take() {
                        Some(c) => {
                            freed.push(c);
                        },
                        None => {},
                    }
                },
                None => {
                    proof {
                        if !cursor_ids@.take(t as int).contains(id) {
                            assert(entry_at(s0, cursor_key(), k).is_none());
                        }
                    }
                    missing.push(id);
                },
            }
            proof {
                assert(cursor_ids@.take(t + 1) =~= cursor_ids@.take(t as int).push(id));
                assert forall|id2: i64, u2: Seq<char>|
                    entry_at(self.spec_entries(), cursor_key(), (id2 as int, u2)) == (if u2 == u
                        && cursor_ids@.take(t + 1).contains(id2) {
                        None::<CursorStoreEntry>
                    } else {
                        entry_at(s0, cursor_key(), (id2 as int, u2))
                    }) by {
                    assert(entry_at(s_cur, cursor_key(), (id2 as int, u2)) == (if u2 == u
                        && cursor_ids@.take(t as int).contains(id2) {
                        None::<CursorStoreEntry>
                    } else {
                        entry_at(s0, cursor_key(), (id2 as int, u2))
                    }));
                    if id2 != id {
                        assert(cursor_ids@.take(t + 1).contains(id2) == cursor_ids@.take(
                            t as int,
                        ).contains(id2)) by {
                            if cursor_ids@.take(t + 1).contains(id2) {
                                let w = choose|w: int|
                                    0 <= w < t + 1 && #[trigger] cursor_ids@.take(t + 1)[w]
                                        == id2;
                                assert(cursor_ids@.take(t as int)[w] == id2);
                            }
                            if cursor_ids@.take(t as int).contains(id2) {
                                let w = choose|w: int|
                                    0 <= w < t && #[trigger] cursor_ids@.take(t as int)[w]
                                        == id2;
                                assert(cursor_ids@.take(t + 1)[w] == id2);
                            }
                        }
                    } else {
                        assert(cursor_ids@.take(t + 1)[t as int] == id);
                        assert(cursor_ids@.take(t + 1).contains(id));
                    }
                }
            }
            t = t + 1;
            proof {
                assert(removed@ =~= kill_removed(s0, u, cursor_ids@.take(t as int)));
                assert(missing@ =~= kill_missing(s0, u, cursor_ids@.take(t as int)));
                assert(freed@ =~= kill_freed(s0, u, cursor_ids@.take(t as int)));
            }
        }
        proof {
            assert(cursor_ids@.take(n as int) =~= cursor_ids@);
        }
        (removed, missing, freed)
    }

    /// Bulk-evicts every cursor scoped to a dropped database, handing back
    /// owned connections, so no continuation is served against server-side
    /// state that no longer exists.
    #[verifier::rlimit(50)]
    pub fn invalidate_cursors_by_database(&mut self, db: &str) -> (r: Vec<Connection>)
        requires
            old(self).wf(),
        ensures
            final(self).wf(),
            final(self).spec_entries() == old(self).spec_entries().filter(db_keep(db@)),
            r@ == owned_connections(
                old(self).spec_entries().filter(|e: CursorStoreEntry| e.db@ == db@),
            ),
    {
        let ghost s = self.entries@;
        let ghost keep = db_keep(db@);
        let ghost gone = |e: CursorStoreEntry| e.db@ == db@;
        let d = String::from_str(db);
        let mut out: Vec<Connection> = Vec::new();
        let n = self.entries.len();
        let mut i: usize = 0;
        let mut j: usize = 0;
        proof {
            reveal(Seq::filter);
            assert(self.entries@ =~= s.take(0).filter(keep) + s.skip(0));
            assert(out@ =~= owned_connections(s.take(0).filter(gone)));
        }
        while j < n
            invariant
                j <= n,
                i <= j,
                n == s.len(),
                s == old(self).spec_entries(),
                d@ == db@,
                keep == db_keep(db@),
                gone == (|e: CursorStoreEntry| e.db@ == db@),
                i as int == s.take(j as int).filter(keep).len(),
                self.entries@ == s.take(j as int).filter(keep) + s.skip(j as int),
                out@ == owned_connections(s.take(j as int).filter(gone)),
            decreases n - j,
        {
            proof {
                reveal(Seq::filter);
                assert(s.take(j + 1).drop_last() =~= s.take(j as int));
                assert(self.entries@[i as int] == s[j as int]);
            }
            let evict = self.entries[i].db == d;
            if evict {
                let mut e = self.entries.remove(i);
                proof {
                    assert(self.entries@ =~= s.take(j + 1).filter(keep) + s.skip(j + 1));
                    assert(s.take(j + 1).filter(gone).drop_last() =~= s.take(j as int).filter(
                        gone,
                    ));
                }
                match e.conn.take() {
                    Some(c) => {
                        out.push(c);
                    },
                    None => {},
                }
                proof {
                    assert(out@ =~= owned_connections(s.take(j + 1).filter(gone)));
                }
            } else {
                i = i + 1;
                proof {
                    assert(self.entries@ =~= s.take(j + 1).filter(keep) + s.skip(j + 1));
                    assert(s.take(j + 1).filter(gone) =~= s.take(j as int).filter(gone));
                }
            }
            j = j + 1;
        }
        proof {
            assert(s.take(n as int) =~= s);
            assert(self.entries@ =~= s.filter(keep));
            assert(out@ =~= owned_connections(s.filter(gone)));
            lemma_filter_unique(s, cursor_key(), keep);
        }
        out
    }

    /// Bulk-evicts every cursor scoped to a dropped collection of a
    /// database, handing back owned connections; cursors on other
    /// collections are untouched.
    #[verifier::rlimit(50)]
    pub fn invalidate_cursors_by_collection(&mut self, db: &str, collection: &str) -> (r: Vec<
        Connection,
    >)
        requires
            old(self).wf(),
        ensures
            final(self).wf(),
            final(self).spec_entries() == old(self).spec_entries().filter(
                collection_keep(db@, collection@),
            ),
            r@ == owned_connections(
                old(self).spec_entries().filter(
                    |e: CursorStoreEntry| e.db@ == db@ && e.collection@ == collection@,
                ),
            ),
    {
        let ghost s = self.entries@;
        let ghost keep = collection_keep(db@, collection@);
        let ghost gone = |e: CursorStoreEntry| e.db@ == db@ && e.collection@ == collection@;
        let d = String::from_str(db);
        let c = String::from_str(collection);
        let mut out: Vec<Connection> = Vec::new();
        let n = self.entries.len();
        let mut i: usize = 0;
        let mut j: usize = 0;
        proof {
            reveal(Seq::filter);
            assert(self.entries@ =~= s.take(0).filter(keep) + s.skip(0));
            assert(out@ =~= owned_connections(s.take(0).filter(gone)));
        }
        while j < n
            invariant
                j <= n,
                i <= j,
                n == s.len(),
                s == old(self).spec_entries(),
                d@ == db@,
                c@ == collection@,
                keep == collection_keep(db@, collection@),
                gone == (|e: CursorStoreEntry| e.db@ == db@ && e.collection@ == collection@),
                i as int == s.take(j as int).filter(keep).len(),
                self.entries@ == s.take(j as int).filter(keep) + s.skip(j as int),
                out@ == owned_connections(s.take(j as int).filter(gone)),
            decreases n - j,
        {
            proof {
                reveal(Seq::filter);
                assert(s.take(j + 1).drop_last() =~= s.take(j as int));
                assert(self.entries@[i as int] == s[j as int]);
            }
            let evict = self.entries[i].db == d && self.entries[i].collection == c;
            if evict {
                let mut e = self.entries.remove(i);
                proof {
                    assert(self.entries@ =~= s.take(j + 1).filter(keep) + s.skip(j + 1));
                    assert(s.take(j + 1).filter(gone).drop_last() =~= s.take(j as int).filter(
                        gone,
                    ));
                }
                match e.conn.take() {
                    Some(c2) => {
                        out.push(c2);
                    },
                    None => {},
                }
                proof {
                    assert(out@ =~= owned_connections(s.take(j + 1).filter(gone)));
                }
            } else {
                i = i + 1;
                proof {
                    assert(self.entries@ =~= s.take(j + 1).filter(keep) + s.skip(j + 1));
                    assert(s.take(j + 1).filter(gone) =~= s.take(j as int).filter(gone));
                }
            }
            j = j + 1;
        }
        proof {
            assert(s.take(n as int) =~= s);
            assert(self.entries@ =~= s.filter(keep));
            assert(out@ =~= owned_connections(s.filter(gone)));
            lemma_filter_unique(s, cursor_key(), keep);
        }
        out
    }

    /// Evicts every cursor past its idle deadline, handing back owned
    /// connections.
    #[verifier::rlimit(50)]
    pub fn expire_cursors(&mut self, now: u64) -> (r: Vec<Connection>)
        requires
            old(self).wf(),
        ensures
            final(self).wf(),
            final(self).spec_entries() == old(self).spec_entries().filter(cursor_keep(now)),
            r@ == owned_connections(
                old(self).spec_entries().filter(|e: CursorStoreEntry| e.deadline < now),
            ),
    {
        let ghost s = self.entries@;
        let ghost keep = cursor_keep(now);
        let ghost gone = |e: CursorStoreEntry| e.deadline < now;
        let mut out: Vec<Connection> = Vec::new();
        let n = self.entries.len();
        let mut i: usize = 0;
        let mut j: usize = 0;
        proof {
            reveal(Seq::filter);
            assert(self.entries@ =~= s.take(0).filter(keep) + s.skip(0));
            assert(out@ =~= owned_connections(s.take(0).filter(gone)));
        }
        while j < n
            invariant
                j <= n,
                i <= j,
                n == s.len(),
                s == old(self).spec_entries(),
                keep == cursor_keep(now),
                gone == (|e: CursorStoreEntry| e.deadline < now),
                i as int == s.take(j as int).filter(keep).len(),
                self.entries@ == s.take(j as int).filter(keep) + s.skip(j as int),
                out@ == owned_connections(s.take(j as int).filter(gone)),
            decreases n - j,
        {
            proof {
                reveal(Seq::filter);
                assert(s.take(j + 1).drop_last() =~= s.take(j as int));
                assert(self.entries@[i as int] == s[j as int]);
            }
            let evict = self.entries[i].deadline < now;
            if evict {
                let mut e = self.entries.remove(i);
                proof {
                    assert(self.entries@ =~= s.take(j + 1).filter(keep) + s.skip(j + 1));
                    assert(s.take(j + 1).filter(gone).drop_last() =~= s.take(j as int).filter(
                        gone,
                    ));
                }
                match e.conn.take() {
                    Some(c) => {
                        out.push(c);
                    },
                    None => {},
                }
                proof {
                    assert(out@ =~= owned_connections(s.take(j + 1).filter(gone)));
                }
            } else {
                i = i + 1;
                proof {
                    assert(self.entries@ =~= s.take(j + 1).filter(keep) + s.skip(j + 1));
                    assert(s.take(j + 1).filter(gone) =~= s.take(j as int).filter(gone));
                }
            }
            j = j + 1;
        }
        proof {
            assert(s.take(n as int) =~= s);
            assert(self.entries@ =~= s.filter(keep));
            assert(out@ =~= owned_connections(s.filter(gone)));
            lemma_filter_unique(s, cursor_key(), keep);
        }
        out
    }
}

/// Dropping a collection removes exactly the cursors scoped to that
/// (database, collection) pair: their keys are gone from the store, and a
/// cursor on any other collection is found unchanged.
pub proof fn lemma_collection_drop_exact(
    s: Seq<CursorStoreEntry>,
    db: Seq<char>,
    collection: Seq<char>,
    k: (int, Seq<char>),
)
    requires
        entries_unique(s, cursor_key()),
    ensures
        entry_at(s.filter(collection_keep(db, collection)), cursor_key(), k) == (match entry_at(
            s,
            cursor_key(),
            k,
        ) {
            Some(e) => if e.db@ == db && e.collection@ == collection {
                None::<CursorStoreEntry>
            } else {
                Some(e)
            },
            None => None::<CursorStoreEntry>,
        }),
{
    lemma_entry_at_filter(s, cursor_key(), collection_keep(db, collection), k);
}

} // verus!
