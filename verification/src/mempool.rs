//! The per-node pending-transaction store, keyed by transaction hash.
//!
//! The store is a vector of records, unique by hash; a lookup takes the
//! first (hence only) record with the given hash. [`pool_add`],
//! [`pool_remove`] and [`pool_pickup`] say what each operation does to the
//! record sequence, and the lemmas relate them to lookups.

use crate::transaction::{Transaction, TxExisting, TxPoolRecord, TxStatus};
use vstd::pervasive::VecAdditionalExecFns;
use vstd::prelude::*;

verus! {

/// The first record in `s` whose transaction hash reads `h`, if any.
pub open spec fn pool_entry(s: Seq<TxPoolRecord>, h: Seq<char>) -> Option<TxPoolRecord>
    decreases s.len(),
{
    if s.len() == 0 {
        None
    } else if s[0].transaction.hash@ == h {
        Some(s[0])
    } else {
        pool_entry(s.drop_first(), h)
    }
}

/// Whether some record in `s` carries hash `h`.
pub open spec fn pool_has(s: Seq<TxPoolRecord>, h: Seq<char>) -> bool {
    pool_entry(s, h) is Some
}

/// Uniqueness by hash: no record's hash recurs later in the sequence.
pub open spec fn pool_wf(s: Seq<TxPoolRecord>) -> bool
    decreases s.len(),
{
    s.len() == 0 || (!pool_has(s.drop_first(), s[0].transaction.hash@) && pool_wf(s.drop_first()))
}

/// `s` after an insert of `tx`: the first record with the same hash is
/// replaced in place, otherwise a new record is appended. The fresh
/// record always re-enters with status RECEIVED.
pub open spec fn pool_add(s: Seq<TxPoolRecord>, tx: Transaction) -> Seq<TxPoolRecord>
    decreases s.len(),
{
    let rec = TxPoolRecord { status: TxStatus::RECEIVED, transaction: tx };
    if s.len() == 0 {
        seq![rec]
    } else if s[0].transaction.hash@ == tx.hash@ {
        seq![rec] + s.drop_first()
    } else {
        seq![s[0]] + pool_add(s.drop_first(), tx)
    }
}

/// The string contents of a vector of hash strings.
pub open spec fn hash_views(hs: Seq<String>) -> Seq<Seq<char>> {
    hs.map_values(|h: String| h@)
}

/// Whether `h` occurs among the hashes `hs`.
pub open spec fn contains_hash(hs: Seq<Seq<char>>, h: Seq<char>) -> bool {
    exists|j: int| 0 <= j < hs.len() && hs[j] == h
}

/// `s` with every record whose hash occurs in `hs` removed.
pub open spec fn pool_remove(s: Seq<TxPoolRecord>, hs: Seq<Seq<char>>) -> Seq<TxPoolRecord>
    decreases s.len(),
{
    if s.len() == 0 {
        s
    } else if contains_hash(hs, s[0].transaction.hash@) {
        pool_remove(s.drop_first(), hs)
    } else {
        seq![s[0]] + pool_remove(s.drop_first(), hs)
    }
}

/// The first `count` transactions of `s` whose status is RECEIVED, in
/// pool order.
pub open spec fn pool_pickup(s: Seq<TxPoolRecord>, count: nat) -> Seq<Transaction>
    decreases s.len(),
{
    if s.len() == 0 || count == 0 {
        Seq::<Transaction>::empty()
    } else if s[0].status is RECEIVED {
        seq![s[0].transaction] + pool_pickup(s.drop_first(), (count - 1) as nat)
    } else {
        pool_pickup(s.drop_first(), count)
    }
}

/// A lookup finds a hash exactly when some record carries it.
pub proof fn lemma_pool_entry_exists(s: Seq<TxPoolRecord>, h: Seq<char>)
    ensures
        pool_has(s, h) <==> exists|i: int| 0 <= i < s.len() && s[i].transaction.hash@ == h,
    decreases s.len(),
{
    if s.len() > 0 {
        lemma_pool_entry_exists(s.drop_first(), h);
        if s[0].transaction.hash@ == h {
            assert(s[0].transaction.hash@ == h);
        } else if pool_has(s.drop_first(), h) {
            let i = choose|i: int|
                0 <= i < s.drop_first().len() && s.drop_first()[i].transaction.hash@ == h;
            assert(s[i + 1].transaction.hash@ == h);
        } else {
            assert forall|i: int| 0 <= i < s.len() implies s[i].transaction.hash@ != h by {
                if i > 0 {
                    assert(s.drop_first()[i - 1] == s[i]);
                }
            }
        }
    }
}

/// After an insert, the inserted hash maps to the fresh RECEIVED record
/// and every other hash maps to what it mapped to before.
pub proof fn lemma_pool_add_entry(s: Seq<TxPoolRecord>, tx: Transaction, h: Seq<char>)
    ensures
        pool_entry(pool_add(s, tx), h) == if h == tx.hash@ {
            Some(TxPoolRecord { status: TxStatus::RECEIVED, transaction: tx })
        } else {
            pool_entry(s, h)
        },
    decreases s.len(),
{
    let rec = TxPoolRecord { status: TxStatus::RECEIVED, transaction: tx };
    assert(pool_entry(Seq::<TxPoolRecord>::empty(), h) is None);
    if s.len() == 0 {
        let t = seq![rec];
        assert(pool_add(s, tx) == t);
        assert(t[0] == rec);
        assert(t.drop_first() =~= Seq::<TxPoolRecord>::empty());
    } else if s[0].transaction.hash@ == tx.hash@ {
        let t = seq![rec] + s.drop_first();
        assert(pool_add(s, tx) == t);
        assert(t[0] == rec);
        assert(t.drop_first() =~= s.drop_first());
    } else {
        let t = seq![s[0]] + pool_add(s.drop_first(), tx);
        assert(pool_add(s, tx) == t);
        assert(t[0] == s[0]);
        assert(t.drop_first() =~= pool_add(s.drop_first(), tx));
        lemma_pool_add_entry(s.drop_first(), tx, h);
    }
}

/// An insert grows the pool only when the hash is new.
pub proof fn lemma_pool_add_len(s: Seq<TxPoolRecord>, tx: Transaction)
    ensures
        pool_add(s, tx).len() == if pool_has(s, tx.hash@) {
            s.len()
        } else {
            s.len() + 1
        },
    decreases s.len(),
{
    if s.len() > 0 && s[0].transaction.hash@ != tx.hash@ {
        lemma_pool_add_len(s.drop_first(), tx);
    }
}

/// An insert keeps the pool unique by hash.
pub proof fn lemma_pool_add_wf(s: Seq<TxPoolRecord>, tx: Transaction)
    requires
        pool_wf(s),
    ensures
        pool_wf(pool_add(s, tx)),
    decreases s.len(),
{
    let rec = TxPoolRecord { status: TxStatus::RECEIVED, transaction: tx };
    assert(pool_entry(Seq::<TxPoolRecord>::empty(), tx.hash@) is None);
    assert(pool_wf(Seq::<TxPoolRecord>::empty()));
    if s.len() == 0 {
        let t = seq![rec];
        assert(t.drop_first() =~= Seq::<TxPoolRecord>::empty());
        assert(pool_wf(t));
    } else if s[0].transaction.hash@ == tx.hash@ {
        let t = seq![rec] + s.drop_first();
        assert(t[0] == rec);
        assert(t.drop_first() =~= s.drop_first());
        assert(pool_wf(t));
    } else {
        let t = seq![s[0]] + pool_add(s.drop_first(), tx);
        assert(t[0] == s[0]);
        assert(t.drop_first() =~= pool_add(s.drop_first(), tx));
        lemma_pool_add_wf(s.drop_first(), tx);
        lemma_pool_add_entry(s.drop_first(), tx, s[0].transaction.hash@);
        assert(!pool_has(pool_add(s.drop_first(), tx), s[0].transaction.hash@));
        assert(pool_wf(t));
    }
}

/// After a removal, every removed hash is gone and every other hash maps
/// to what it mapped to before.
pub proof fn lemma_pool_remove_entry(s: Seq<TxPoolRecord>, hs: Seq<Seq<char>>, h: Seq<char>)
    ensures
        pool_entry(pool_remove(s, hs), h) == if contains_hash(hs, h) {
            None::<TxPoolRecord>
        } else {
            pool_entry(s, h)
        },
    decreases s.len(),
{
    if s.len() == 0 {
    } else if contains_hash(hs, s[0].transaction.hash@) {
        lemma_pool_remove_entry(s.drop_first(), hs, h);
    } else {
        let t = seq![s[0]] + pool_remove(s.drop_first(), hs);
        assert(pool_remove(s, hs) == t);
        assert(t[0] == s[0]);
        assert(t.drop_first() =~= pool_remove(s.drop_first(), hs));
        lemma_pool_remove_entry(s.drop_first(), hs, h);
    }
}

/// A removal keeps the pool unique by hash.
pub proof fn lemma_pool_remove_wf(s: Seq<TxPoolRecord>, hs: Seq<Seq<char>>)
    requires
        pool_wf(s),
    ensures
        pool_wf(pool_remove(s, hs)),
    decreases s.len(),
{
    if s.len() == 0 {
    } else if contains_hash(hs, s[0].transaction.hash@) {
        lemma_pool_remove_wf(s.drop_first(), hs);
    } else {
        let t = seq![s[0]] + pool_remove(s.drop_first(), hs);
        assert(t[0] == s[0]);
        assert(t.drop_first() =~= pool_remove(s.drop_first(), hs));
        lemma_pool_remove_wf(s.drop_first(), hs);
        lemma_pool_remove_entry(s.drop_first(), hs, s[0].transaction.hash@);
        assert(!pool_has(pool_remove(s.drop_first(), hs), s[0].transaction.hash@));
        assert(pool_wf(t));
    }
}

/// At-most-once commit per node: a purge (as a committed block performs
/// on its transactions) leaves no record under any purged hash, and a
/// later arrival of a transaction with such a hash re-enters the pool as
/// a fresh RECEIVED record.
pub proof fn lemma_tx_recommit(s: Seq<TxPoolRecord>, hs: Seq<Seq<char>>, tx: Transaction)
    requires
        contains_hash(hs, tx.hash@),
    ensures
        !pool_has(pool_remove(s, hs), tx.hash@),
        pool_entry(pool_add(pool_remove(s, hs), tx), tx.hash@) == Some(
            TxPoolRecord { status: TxStatus::RECEIVED, transaction: tx },
        ),
{
    lemma_pool_remove_entry(s, hs, tx.hash@);
    lemma_pool_add_entry(pool_remove(s, hs), tx, tx.hash@);
}

/// The per-node pending-transaction store.
#[derive(Debug)]
pub struct MemPool {
    pub txpool: Vec<TxPoolRecord>,
}

impl MemPool {
    /// Uniqueness by hash.
    pub open spec fn wf(self) -> bool {
        pool_wf(self.txpool@)
    }
}

impl Default for MemPool {
    /// The empty pool.
    fn default() -> (r: Self)
        ensures
            r.txpool@ == Seq::<TxPoolRecord>::empty(),
            r.wf(),
    {
        let r = MemPool { txpool: Vec::new() };
        proof {
            assert(r.txpool@ =~= Seq::<TxPoolRecord>::empty());
        }
        r
    }
}

impl MemPool {
    /// Store a transaction under its hash with status RECEIVED; a record
    /// already carrying that hash is overwritten in place.
    #[verifier::loop_isolation(false)]
    pub fn add_transaction(&mut self, tx: Transaction) -> (r: Result<(), String>)
        requires
            old(self).wf(),
        ensures
            final (self).wf(),
            final (self).txpool@ == pool_add(old(self).txpool@, tx),
            r == Ok::<(), String>(()),
    {
        proof {
            lemma_pool_add_wf(self.txpool@, tx);
        }
        let ghost s = self.txpool@;
        let mut i: usize = 0;
        while i < self.txpool.len()
            invariant
                self.txpool@ == s,
                i <= s.len(),
                forall|j: int| 0 <= j < i ==> s[j].transaction.hash@ != tx.hash@,
            decreases s.len() - i,
        {
            if self.txpool[i].transaction.hash == tx.hash {
                let rec = TxPoolRecord { status: TxStatus::RECEIVED, transaction: tx };
                proof {
                    lemma_pool_add_update(s, rec.transaction, i as int);
                }
                self.txpool.set(i, rec);
                return Ok(());
            }
            i = i + 1;
        }
        let rec = TxPoolRecord { status: TxStatus::RECEIVED, transaction: tx };
        proof {
            lemma_pool_add_append(s, rec.transaction);
        }
        self.txpool.push(rec);
        Ok(())
    }

    /// Whether a transaction with the same hash is already stored.
    #[verifier::loop_isolation(false)]
    pub fn existing_transaction(&self, tx: Transaction) -> (r: TxExisting)
        ensures
            r == (if pool_has(self.txpool@, tx.hash@) {
                TxExisting::EXISTING
            } else {
                TxExisting::NONEXISTING
            }),
    {
        proof {
            lemma_pool_entry_exists(self.txpool@, tx.hash@);
        }
        let mut i: usize = 0;
        while i < self.txpool.len()
            invariant
                i <= self.txpool@.len(),
                forall|j: int| 0 <= j < i ==> self.txpool@[j].transaction.hash@ != tx.hash@,
            decreases self.txpool@.len() - i,
        {
            if self.txpool[i].transaction.hash == tx.hash {
                return TxExisting::EXISTING;
            }
            i = i + 1;
        }
        TxExisting::NONEXISTING
    }

    /// The first `count` transactions with status RECEIVED, in pool order.
    /// The pool itself is left as it was.
    #[verifier::loop_isolation(false)]
    pub fn pickup_transaction(&mut self, count: usize) -> (r: Result<Vec<Transaction>, String>)
        ensures
            *final (self) == *old(self),
            r matches Ok(v) && v@ == pool_pickup(old(self).txpool@, count as nat),
    {
        let ghost s = self.txpool@;
        let mut picked: Vec<Transaction> = Vec::new();
        let mut i: usize = 0;
        proof {
            assert(s.skip(0) =~= s);
            assert(picked@ + pool_pickup(s, count as nat) =~= pool_pickup(s, count as nat));
        }
        while i < self.txpool.len() && picked.len() < count
            invariant
                i <= s.len(),
                picked@.len() <= count,
                pool_pickup(s, count as nat) == picked@ + pool_pickup(
                    s.skip(i as int),
                    (count - picked@.len()) as nat,
                ),
            decreases s.len() - i,
        {
            proof {
                assert(s.skip(i as int)[0] == s[i as int]);
                assert(s.skip(i as int).drop_first() =~= s.skip(i as int + 1));
            }
            let rec = &self.txpool[i];
            if matches!(rec.status, TxStatus::RECEIVED) {
                picked.push(rec.transaction.clone());
            }
            i = i + 1;
        }
        proof {
            if picked@.len() < count {
                assert(s.skip(i as int) =~= Seq::<TxPoolRecord>::empty());
            }
            assert(picked@ + pool_pickup(s.skip(i as int), (count - picked@.len()) as nat)
                =~= picked@);
        }
        Ok(picked)
    }

    /// Drop every record whose transaction hash occurs in `hashes`.
    #[verifier::loop_isolation(false)]
    pub fn remove_transactions(&mut self, hashes: Vec<String>) -> (r: Result<(), String>)
        requires
            old(self).wf(),
        ensures
            final (self).wf(),
            final (self).txpool@ == pool_remove(old(self).txpool@, hash_views(hashes@)),
            r == Ok::<(), String>(()),
    {
        proof {
            lemma_pool_remove_wf(self.txpool@, hash_views(hashes@));
        }
        let ghost s = self.txpool@;
        let mut kept: Vec<TxPoolRecord> = Vec::new();
        let mut i: usize = 0;
        proof {
            assert(s.skip(0) =~= s);
            assert(kept@ + pool_remove(s, hash_views(hashes@)) =~= pool_remove(s, hash_views(hashes@)));
        }
        while i < self.txpool.len()
            invariant
                self.txpool@ == s,
                i <= s.len(),
                pool_remove(s, hash_views(hashes@)) == kept@ + pool_remove(s.skip(i as int), hash_views(hashes@)),
            decreases s.len() - i,
        {
            proof {
                assert(s.skip(i as int)[0] == s[i as int]);
                assert(s.skip(i as int).drop_first() =~= s.skip(i as int + 1));
            }
            let rec = &self.txpool[i];
            if !contains_string(&hashes, &rec.transaction.hash) {
                kept.push(rec.clone());
            }
            i = i + 1;
        }
        proof {
            assert(s.skip(i as int) =~= Seq::<TxPoolRecord>::empty());
            assert(kept@ + pool_remove(s.skip(i as int), hash_views(hashes@)) =~= kept@);
        }
        self.txpool = kept;
        Ok(())
    }
}

/// Whether `h` occurs in `hs`, by string contents.
#[verifier::loop_isolation(false)]
pub fn contains_string(hs: &Vec<String>, h: &String) -> (r: bool)
    ensures
        r == contains_hash(hash_views(hs@), h@),
{
    let mut i: usize = 0;
    while i < hs.len()
        invariant
            i <= hs@.len(),
            forall|j: int| 0 <= j < i ==> hash_views(hs@)[j] != h@,
        decreases hs@.len() - i,
    {
        if hs[i] == *h {
            proof {
                assert(hash_views(hs@)[i as int] == hs@[i as int]@);
            }
            return true;
        }
        i = i + 1;
    }
    false
}

/// An insert whose hash already stands at position `i` (and nowhere
/// earlier) overwrites that position.
proof fn lemma_pool_add_update(s: Seq<TxPoolRecord>, tx: Transaction, i: int)
    requires
        0 <= i < s.len(),
        s[i].transaction.hash@ == tx.hash@,
        forall|j: int| 0 <= j < i ==> s[j].transaction.hash@ != tx.hash@,
    ensures
        pool_add(s, tx) == s.update(
            i,
            TxPoolRecord { status: TxStatus::RECEIVED, transaction: tx },
        ),
    decreases s.len(),
{
    let rec = TxPoolRecord { status: TxStatus::RECEIVED, transaction: tx };
    if i == 0 {
        assert(pool_add(s, tx) =~= s.update(0, rec));
    } else {
        assert forall|j: int| 0 <= j < i - 1 implies s.drop_first()[j].transaction.hash@
            != tx.hash@ by {
            assert(s.drop_first()[j] == s[j + 1]);
        }
        assert(s.drop_first()[i - 1] == s[i]);
        lemma_pool_add_update(s.drop_first(), tx, i - 1);
        assert(seq![s[0]] + s.drop_first().update(i - 1, rec) =~= s.update(i, rec));
    }
}

/// An insert of a hash that occurs nowhere in the pool appends.
proof fn lemma_pool_add_append(s: Seq<TxPoolRecord>, tx: Transaction)
    requires
        forall|j: int| 0 <= j < s.len() ==> s[j].transaction.hash@ != tx.hash@,
    ensures
        pool_add(s, tx) == s.push(TxPoolRecord { status: TxStatus::RECEIVED, transaction: tx }),
    decreases s.len(),
{
    let rec = TxPoolRecord { status: TxStatus::RECEIVED, transaction: tx };
    if s.len() == 0 {
        assert(pool_add(s, tx) =~= s.push(rec));
    } else {
        assert forall|j: int| 0 <= j < s.drop_first().len() implies s.drop_first()[j
        ].transaction.hash@ != tx.hash@ by {
            assert(s.drop_first()[j] == s[j + 1]);
        }
        lemma_pool_add_append(s.drop_first(), tx);
        assert(seq![s[0]] + s.drop_first().push(rec) =~= s.push(rec));
    }
}

} // verus!
