//! The mempool: verified transactions waiting for a block, keyed by id, with
//! a fee floor, a per-sender nonce floor and a capacity.

use vstd::prelude::*;
use crate::tx::{fault_view, tx_check, tx_id, tx_id_of, verify_tx_at, SignedTx, TxError, TxFault};
use crate::clock::now_secs;

verus! {

/// Ids in a list of entries are pairwise distinct.
pub open spec fn unique_ids(entries: Seq<(Seq<char>, SignedTx)>) -> bool {
    forall|i: int, j: int| 0 <= i < j < entries.len() ==> entries[i].0 != entries[j].0
}

/// The ids of a list of entries, in order.
pub open spec fn ids_of(entries: Seq<(Seq<char>, SignedTx)>) -> Seq<Seq<char>> {
    entries.map_values(|e: (Seq<char>, SignedTx)| e.0)
}

/// The transactions of a list of entries, in order.
pub open spec fn txs_of(entries: Seq<(Seq<char>, SignedTx)>) -> Seq<SignedTx> {
    entries.map_values(|e: (Seq<char>, SignedTx)| e.1)
}

/// The entries left after making room for one more under `capacity`: the
/// oldest is dropped once the store is full.
pub open spec fn after_eviction(entries: Seq<(Seq<char>, SignedTx)>, capacity: nat) -> Seq<
    (Seq<char>, SignedTx),
> {
    if entries.len() >= capacity && entries.len() > 0 {
        entries.drop_first()
    } else {
        entries
    }
}

/// A sequence of ids with `id` added unless it is already there.
pub open spec fn with_seen(seen: Seq<Seq<char>>, id: Seq<char>) -> Seq<Seq<char>> {
    if seen.contains(id) {
        seen
    } else {
        seen.push(id)
    }
}

/// The most entries a store of this capacity holds (a store of capacity 0
/// still keeps the latest one).
pub open spec fn room_of(capacity: nat) -> nat {
    if capacity == 0 {
        1
    } else {
        capacity
    }
}

/// The (id text, transaction) pairs of a list of entries.
pub open spec fn entry_views(entries: Seq<(String, SignedTx)>) -> Seq<(Seq<char>, SignedTx)> {
    entries.map_values(|e: (String, SignedTx)| (e.0@, e.1))
}

/// The texts of a list of strings.
pub open spec fn string_views(strings: Seq<String>) -> Seq<Seq<char>> {
    strings.map_values(|s: String| s@)
}

/// Admitted ids are listed once.
pub closed spec fn seen_wf(seen: Seq<String>) -> bool {
    forall|i: int, j: int| 0 <= i < j < seen.len() ==> seen[i]@ != seen[j]@
}

/// The nonce table has one row per sender and agrees with the map it stands
/// for.
pub closed spec fn floors_wf(rows: Seq<(String, u64)>, floors: Map<Seq<char>, u64>) -> bool {
    &&& forall|i: int, j: int| 0 <= i < j < rows.len() ==> rows[i].0@ != rows[j].0@
    &&& forall|i: int|
        0 <= i < rows.len() ==> floors.contains_key(#[trigger] rows[i].0@) && floors[rows[i].0@]
            == rows[i].1
    &&& forall|k: Seq<char>|
        #[trigger] floors.contains_key(k) ==> exists|i: int| 0 <= i < rows.len() && rows[i].0@ == k
}

/// The mempool. Entries are kept oldest first.
pub struct TxStore {
    by_id: Vec<(String, SignedTx)>,
    seen: Vec<String>,
    max_seen_nonce: Vec<(String, u64)>,
    floors: Ghost<Map<Seq<char>, u64>>,
    capacity: usize,
    min_fee: u64,
}

impl TxStore {
    /// The stored (id, transaction) pairs, oldest first.
    pub closed spec fn entries(&self) -> Seq<(Seq<char>, SignedTx)> {
        entry_views(self.by_id@)
    }

    /// Every id ever admitted, in order of admission.
    pub closed spec fn seen_ids(&self) -> Seq<Seq<char>> {
        string_views(self.seen@)
    }

    /// The highest nonce admitted so far per sender key (base64).
    pub closed spec fn nonce_floors(&self) -> Map<Seq<char>, u64> {
        self.floors@
    }

    /// How many entries the store holds before it evicts.
    pub closed spec fn capacity_spec(&self) -> nat {
        self.capacity as nat
    }

    /// The lowest fee admitted.
    pub closed spec fn min_fee_spec(&self) -> u64 {
        self.min_fee
    }

    /// The store's invariant: ids are distinct and are the ids of their
    /// transactions, the store is within its room, admitted ids are listed
    /// once, and the nonce table has one row per sender.
    pub closed spec fn wf(&self) -> bool {
        &&& unique_ids(self.entries())
        &&& forall|i: int|
            0 <= i < self.entries().len() ==> #[trigger] self.entries()[i].0 == tx_id_of(
                self.entries()[i].1,
            )
        &&& self.entries().len() <= room_of(self.capacity as nat)
        &&& seen_wf(self.seen@)
        &&& floors_wf(self.max_seen_nonce@, self.floors@)
    }

    /// The ids in the store, oldest first.
    pub open spec fn ids(&self) -> Seq<Seq<char>> {
        ids_of(self.entries())
    }

    /// The highest nonce admitted from a sender, 0 if none.
    pub open spec fn floor_of(&self, sender: Seq<char>) -> u64 {
        if self.nonce_floors().contains_key(sender) {
            self.nonce_floors()[sender]
        } else {
            0
        }
    }

    /// Whether two stores hold the same entries, admitted ids and nonce
    /// table under the same limits.
    pub open spec fn same_contents(&self, other: &TxStore) -> bool {
        &&& self.entries() == other.entries()
        &&& self.seen_ids() == other.seen_ids()
        &&& self.nonce_floors() == other.nonce_floors()
        &&& self.capacity_spec() == other.capacity_spec()
        &&& self.min_fee_spec() == other.min_fee_spec()
    }

    /// An empty store with the given capacity and fee floor.
    pub fn new(capacity: usize, min_fee: u64) -> (store: TxStore)
        ensures
            store.wf(),
            store.entries() == Seq::<(Seq<char>, SignedTx)>::empty(),
            store.seen_ids() == Seq::<Seq<char>>::empty(),
            store.nonce_floors() == Map::<Seq<char>, u64>::empty(),
            store.capacity_spec() == capacity,
            store.min_fee_spec() == min_fee,
    {
        let store = TxStore {
            by_id: Vec::new(),
            seen: Vec::new(),
            max_seen_nonce: Vec::new(),
            floors: Ghost(Map::empty()),
            capacity,
            min_fee,
        };
        assert(store.entries() =~= Seq::<(Seq<char>, SignedTx)>::empty());
        assert(store.seen_ids() =~= Seq::<Seq<char>>::empty());
        store
    }

    /// The number of stored transactions.
    pub fn len(&self) -> (n: usize)
        ensures
            n == self.entries().len(),
    {
        self.by_id.len()
    }

    /// Where `id` stands among the entries, if it does.
    fn position_of(&self, id: &String) -> (pos: Option<usize>)
        requires
            self.wf(),
        ensures
            match pos {
                Some(k) => k < self.entries().len() && self.entries()[k as int].0 == id@,
                None => !self.ids().contains(id@),
            },
    {
        let mut i: usize = 0;
        while i < self.by_id.len()
            invariant
                i <= self.by_id@.len(),
                forall|j: int| 0 <= j < i ==> self.by_id@[j].0@ != id@,
            decreases self.by_id@.len() - i,
        {
            if self.by_id[i].0 == *id {
                return Some(i);
            }
            i = i + 1;
        }
        proof {
            if self.ids().contains(id@) {
                let j = choose|j: int| 0 <= j < self.ids().len() && self.ids()[j] == id@;
                assert(self.by_id@[j].0@ == self.entries()[j].0);
            }
        }
        None
    }

    /// Whether a transaction with this id is stored.
    pub fn contains_id(&self, id: &String) -> (found: bool)
        requires
            self.wf(),
        ensures
            found == self.ids().contains(id@),
    {
        match self.position_of(id) {
            Some(k) => {
                assert(self.ids()[k as int] == id@);
                true
            },
            None => false,
        }
    }

    /// The stored transaction with this id, if any.
    pub fn get(&self, id: &String) -> (found: Option<SignedTx>)
        requires
            self.wf(),
        ensures
            match found {
                Some(tx) => exists|k: int|
                    0 <= k < self.entries().len() && self.entries()[k] == (id@, tx),
                None => !self.ids().contains(id@),
            },
    {
        match self.position_of(id) {
            Some(k) => {
                let tx = self.by_id[k].1.clone();
                assert(self.entries()[k as int] == (id@, tx));
                Some(tx)
            },
            None => None,
        }
    }

    /// Removes the transaction with this id, if stored; reports whether it
    /// was.
    pub fn remove(&mut self, id: &String) -> (removed: bool)
        requires
            old(self).wf(),
        ensures
            final(self).wf(),
            removed == old(self).ids().contains(id@),
            !final(self).ids().contains(id@),
            removed ==> exists|k: int|
                0 <= k < old(self).entries().len() && old(self).entries()[k].0 == id@
                    && final(self).entries() == old(self).entries().remove(k),
            !removed ==> final(self).entries() == old(self).entries(),
            final(self).seen_ids() == old(self).seen_ids(),
            final(self).nonce_floors() == old(self).nonce_floors(),
            final(self).capacity_spec() == old(self).capacity_spec(),
            final(self).min_fee_spec() == old(self).min_fee_spec(),
    {
        match self.position_of(id) {
            Some(k) => {
                let ghost pre = self.entries();
                assert(pre[k as int].0 == id@);
                assert(ids_of(pre)[k as int] == id@);
                self.by_id.remove(k);
                assert(self.entries() =~= pre.remove(k as int));
                proof {
                    assert forall|i: int| 0 <= i < self.entries().len() implies self.entries()[i].0
                        != id@ by {
                        if i < k {
                            assert(self.entries()[i] == pre[i]);
                        } else {
                            assert(self.entries()[i] == pre[i + 1]);
                        }
                    }
                    assert forall|i: int| 0 <= i < self.entries().len() implies #[trigger] self.entries()[i].0
                        == tx_id_of(self.entries()[i].1) by {
                        if i < k {
                            assert(self.entries()[i] == pre[i]);
                        } else {
                            assert(self.entries()[i] == pre[i + 1]);
                        }
                    }
                    assert forall|i: int, j: int| 0 <= i < j < self.entries().len() implies self.entries()[i].0
                        != self.entries()[j].0 by {
                        let ii = if i < k { i } else { i + 1 };
                        let jj = if j < k { j } else { j + 1 };
                        assert(self.entries()[i] == pre[ii]);
                        assert(self.entries()[j] == pre[jj]);
                    }
                    assert(self.entries().len() < pre.len());
                    assert(!self.ids().contains(id@)) by {
                        if self.ids().contains(id@) {
                            let j = choose|j: int| 0 <= j < self.ids().len() && self.ids()[j] == id@;
                            assert(self.entries()[j].0 == id@);
                        }
                    }
                }
                true
            },
            None => false,
        }
    }

    /// The first (oldest) `n` ids.
    pub fn ids_recent(&self, n: usize) -> (ids: Vec<String>)
        requires
            self.wf(),
        ensures
            string_views(ids@) == self.ids().take(
                if n < self.entries().len() { n as int } else { self.entries().len() as int },
            ),
    {
        let count = if n < self.by_id.len() { n } else { self.by_id.len() };
        let mut out: Vec<String> = Vec::new();
        let mut i: usize = 0;
        while i < count
            invariant
                count <= self.by_id@.len(),
                i <= count,
                string_views(out@) == self.ids().take(i as int),
            decreases count - i,
        {
            assert(self.ids()[i as int] == self.by_id@[i as int].0@);
            let ghost before = out@;
            out.push(self.by_id[i].0.clone());
            assert(out@ == before.push(self.by_id@[i as int].0));
            i = i + 1;
            assert(string_views(out@) =~= string_views(before).push(self.ids()[i - 1]));
            assert(self.ids().take(i as int) =~= self.ids().take(i - 1).push(self.ids()[i - 1]));
        }
        out
    }

    /// Where the nonce-table row of a sender stands, if it has one.
    fn floor_row(&self, sender: &String) -> (pos: Option<usize>)
        requires
            self.wf(),
        ensures
            match pos {
                Some(k) => k < self.max_seen_nonce@.len() && self.max_seen_nonce@[k as int].0@
                    == sender@ && self.floors@.contains_key(sender@) && self.floors@[sender@]
                    == self.max_seen_nonce@[k as int].1,
                None => !self.floors@.contains_key(sender@),
            },
    {
        let mut i: usize = 0;
        while i < self.max_seen_nonce.len()
            invariant
                self.wf(),
                i <= self.max_seen_nonce@.len(),
                forall|j: int| 0 <= j < i ==> self.max_seen_nonce@[j].0@ != sender@,
            decreases self.max_seen_nonce@.len() - i,
        {
            if self.max_seen_nonce[i].0 == *sender {
                assert(floors_wf(self.max_seen_nonce@, self.floors@));
                assert(self.floors@.contains_key(self.max_seen_nonce@[i as int].0@));
                return Some(i);
            }
            i = i + 1;
        }
        assert(floors_wf(self.max_seen_nonce@, self.floors@));
        None
    }

    /// Whether `post` is `pre` after admitting `tx` at time `now`, with
    /// `res` as `insert_if_new_at` reports it. The checks, in order: the
    /// transaction must verify (`tx_check`), pay at least the fee floor, be
    /// new (a known id is reported as not inserted, with nothing changed), and
    /// carry a nonce not below its sender's floor. A new transaction raises its
    /// sender's floor to its nonce, is listed as seen, and is appended after
    /// the oldest entry is evicted from a full store.
    pub open spec fn insert_spec(
        pre: TxStore,
        post: TxStore,
        tx: SignedTx,
        now: u64,
        res: Result<(String, bool, String), TxError>,
    ) -> bool {
        let id = tx_id_of(tx);
        let from = tx.from_pubkey_b64@;
        match tx_check(tx, now) {
            Err(e) => fault_view(res) == Err::<(String, bool, String), TxFault>(e)
                && post.same_contents(&pre),
            Ok(_) => if tx.max_fee < pre.min_fee_spec() {
                fault_view(res) == Err::<(String, bool, String), TxFault>(TxFault::FeeTooLow)
                    && post.same_contents(&pre)
            } else if pre.ids().contains(id) {
                &&& res matches Ok(r) && r.0@ == id && !r.1 && r.2@ == from
                &&& post.same_contents(&pre)
            } else if tx.nonce < pre.floor_of(from) {
                fault_view(res) == Err::<(String, bool, String), TxFault>(TxFault::NonceTooLow)
                    && post.same_contents(&pre)
            } else {
                &&& res matches Ok(r) && r.0@ == id && r.1 && r.2@ == from
                &&& post.entries() == after_eviction(pre.entries(), pre.capacity_spec()).push(
                    (id, tx),
                )
                &&& post.seen_ids() == with_seen(pre.seen_ids(), id)
                &&& post.nonce_floors() == pre.nonce_floors().insert(from, tx.nonce)
                &&& post.capacity_spec() == pre.capacity_spec()
                &&& post.min_fee_spec() == pre.min_fee_spec()
            },
        }
    }

    /// Admits a transaction as of time `now` (see `insert_spec`); on success
    /// returns its id, whether it was new, and its sender key.
    pub fn insert_if_new_at(&mut self, tx: SignedTx, now: u64) -> (res: Result<
        (String, bool, String),
        TxError,
    >)
        requires
            old(self).wf(),
        ensures
            final(self).wf(),
            TxStore::insert_spec(*old(self), *final(self), tx, now, res),
    {
        match verify_tx_at(&tx, now) {
            Err(e) => {
                return Err(e);
            },
            Ok(()) => {},
        }
        if tx.max_fee < self.min_fee {
            return Err(TxError::FeeTooLow);
        }
        let id = tx_id(&tx);
        if self.contains_id(&id) {
            return Ok((id, false, tx.from_pubkey_b64.clone()));
        }
        let key = tx.from_pubkey_b64.clone();
        let row = self.floor_row(&key);
        let maxn: u64 = match row {
            Some(k) => self.max_seen_nonce[k].1,
            None => 0,
        };
        assert(maxn == self.floor_of(key@));
        if tx.nonce < maxn {
            return Err(TxError::NonceTooLow);
        }
        let ghost pre = *self;
        // raise the sender's nonce floor
        match row {
            Some(k) => {
                self.max_seen_nonce.set(k, (key.clone(), tx.nonce));
            },
            None => {
                self.max_seen_nonce.push((key.clone(), tx.nonce));
            },
        }
        self.floors = Ghost(self.floors@.insert(key@, tx.nonce));
        proof {
            let rows = self.max_seen_nonce@;
            let old_rows = pre.max_seen_nonce@;
            assert(floors_wf(old_rows, pre.floors@));
            match row {
                Some(k) => {
                    assert forall|i: int| 0 <= i < rows.len() implies rows[i] == (
                        if i == k {
                            (key, tx.nonce)
                        } else {
                            old_rows[i]
                        }
                    ) by {}
                    assert forall|i: int, j: int| 0 <= i < j < rows.len() implies rows[i].0@
                        != rows[j].0@ by {
                        assert(old_rows[i].0@ != old_rows[j].0@);
                    }
                    assert forall|i: int| 0 <= i < rows.len() implies self.floors@.contains_key(
                        #[trigger] rows[i].0@,
                    ) && self.floors@[rows[i].0@] == rows[i].1 by {
                        if i != k {
                            assert(old_rows[i].0@ != old_rows[k as int].0@);
                            assert(pre.floors@.contains_key(old_rows[i].0@));
                        }
                    }
                    assert forall|q: Seq<char>| #[trigger] self.floors@.contains_key(q) implies exists|
                        i: int,
                    | 0 <= i < rows.len() && rows[i].0@ == q by {
                        if q == key@ {
                            assert(rows[k as int].0@ == q);
                        } else {
                            assert(pre.floors@.contains_key(q));
                            let i = choose|i: int| 0 <= i < old_rows.len() && old_rows[i].0@ == q;
                            assert(rows[i].0@ == q);
                        }
                    }
                },
                None => {
                    assert(rows == old_rows.push((key, tx.nonce)));
                    assert forall|i: int, j: int| 0 <= i < j < rows.len() implies rows[i].0@
                        != rows[j].0@ by {
                        if j == old_rows.len() {
                            assert(pre.floors@.contains_key(old_rows[i].0@));
                        } else {
                            assert(old_rows[i].0@ != old_rows[j].0@);
                        }
                    }
                    assert forall|i: int| 0 <= i < rows.len() implies self.floors@.contains_key(
                        #[trigger] rows[i].0@,
                    ) && self.floors@[rows[i].0@] == rows[i].1 by {
                        if i < old_rows.len() {
                            assert(pre.floors@.contains_key(old_rows[i].0@));
                        }
                    }
                    assert forall|q: Seq<char>| #[trigger] self.floors@.contains_key(q) implies exists|
                        i: int,
                    | 0 <= i < rows.len() && rows[i].0@ == q by {
                        if q == key@ {
                            assert(rows[old_rows.len() as int].0@ == q);
                        } else {
                            assert(pre.floors@.contains_key(q));
                            let i = choose|i: int| 0 <= i < old_rows.len() && old_rows[i].0@ == q;
                            assert(rows[i].0@ == q);
                        }
                    }
                },
            }
            assert(floors_wf(rows, self.floors@));
        }
        // make room
        let ghost before_evict = self.entries();
        if self.by_id.len() >= self.capacity && self.by_id.len() > 0 {
            self.by_id.remove(0);
            assert(self.entries() =~= before_evict.drop_first());
        }
        assert(self.entries() == after_eviction(before_evict, self.capacity as nat));
        // record as seen
        let ghost seen_before = self.seen@;
        let mut seen_known = false;
        let mut i: usize = 0;
        while i < self.seen.len()
            invariant
                i <= self.seen@.len(),
                self.seen@ == seen_before,
                seen_known ==> string_views(seen_before).contains(id@),
                !seen_known ==> forall|j: int| 0 <= j < i ==> seen_before[j]@ != id@,
            decreases self.seen@.len() - i,
        {
            if self.seen[i] == id {
                seen_known = true;
                assert(string_views(seen_before)[i as int] == id@);
            }
            i = i + 1;
        }
        if !seen_known {
            self.seen.push(id.clone());
            proof {
                assert(!string_views(seen_before).contains(id@)) by {
                    if string_views(seen_before).contains(id@) {
                        let j = choose|j: int|
                            0 <= j < seen_before.len() && string_views(seen_before)[j] == id@;
                        assert(seen_before[j]@ == id@);
                    }
                }
                assert(string_views(self.seen@) =~= string_views(seen_before).push(id@));
                assert(seen_wf(seen_before));
                assert forall|a: int, b: int| 0 <= a < b < self.seen@.len() implies self.seen@[a]@
                    != self.seen@[b]@ by {
                    if b == seen_before.len() {
                        assert(string_views(seen_before)[a] == seen_before[a]@);
                    }
                }
            }
        }
        assert(self.seen_ids() == with_seen(pre.seen_ids(), id@));
        // store
        let ghost before_push = self.entries();
        self.by_id.push((id.clone(), tx));
        assert(self.entries() =~= before_push.push((id@, tx)));
        proof {
            let e = self.entries();
            assert(forall|j: int| 0 <= j < before_push.len() ==> #[trigger] before_push[j].0 != id@)
                by {
                assert forall|j: int| 0 <= j < before_push.len() implies #[trigger] before_push[j].0
                    != id@ by {
                    if before_evict.len() >= self.capacity && before_evict.len() > 0 {
                        assert(before_push[j] == before_evict[j + 1]);
                        assert(ids_of(before_evict)[j + 1] == before_evict[j + 1].0);
                    } else {
                        assert(ids_of(before_evict)[j] == before_evict[j].0);
                    }
                }
            }
            assert forall|a: int, b: int| 0 <= a < b < e.len() implies e[a].0 != e[b].0 by {
                if b < before_push.len() {
                    if before_evict.len() >= self.capacity && before_evict.len() > 0 {
                        assert(e[a] == before_evict[a + 1]);
                        assert(e[b] == before_evict[b + 1]);
                    }
                }
            }
            assert forall|j: int| 0 <= j < e.len() implies #[trigger] e[j].0 == tx_id_of(e[j].1) by {
                if j < before_push.len() {
                    if before_evict.len() >= self.capacity && before_evict.len() > 0 {
                        assert(e[j] == before_evict[j + 1]);
                    }
                }
            }
        }
        Ok((id, true, key))
    }

    /// Admits a transaction as of the current time (see `insert_spec`);
    /// `None`, with nothing changed, where the clock reads earlier than the
    /// Unix epoch.
    pub fn insert_if_new(&mut self, tx: SignedTx) -> (res: Option<
        Result<(String, bool, String), TxError>,
    >)
        requires
            old(self).wf(),
        ensures
            final(self).wf(),
            match res {
                Some(r) => exists|now: u64| TxStore::insert_spec(*old(self), *final(self), tx, now, r),
                None => *final(self) == *old(self),
            },
    {
        let now = match now_secs() {
            Some(now) => now,
            None => {
                return None;
            },
        };
        let res = self.insert_if_new_at(tx, now);
        assert(TxStore::insert_spec(*old(self), *self, tx, now, res));
        Some(res)
    }

    /// Takes the oldest `max_count` transactions (all of them if fewer) out of
    /// the store, oldest first.
    pub fn drain_block(&mut self, max_count: usize) -> (txs: Vec<SignedTx>)
        requires
            old(self).wf(),
        ensures
            final(self).wf(),
            ({
                let k = if max_count < old(self).entries().len() {
                    max_count as int
                } else {
                    old(self).entries().len() as int
                };
                &&& txs@ == txs_of(old(self).entries().take(k))
                &&& final(self).entries() == old(self).entries().skip(k)
            }),
            final(self).seen_ids() == old(self).seen_ids(),
            final(self).nonce_floors() == old(self).nonce_floors(),
            final(self).capacity_spec() == old(self).capacity_spec(),
            final(self).min_fee_spec() == old(self).min_fee_spec(),
    {
        let ghost pre = self.entries();
        let k = if max_count < self.by_id.len() { max_count } else { self.by_id.len() };
        let mut taken = self.by_id.split_off(k);
        std::mem::swap(&mut taken, &mut self.by_id);
        assert(self.entries() =~= pre.skip(k as int));
        let ghost taken_entries = entry_views(taken@);
        assert(taken_entries =~= pre.take(k as int));
        let mut txs: Vec<SignedTx> = Vec::new();
        let mut i: usize = 0;
        while i < taken.len()
            invariant
                i <= taken@.len(),
                taken@.len() == k,
                taken_entries == entry_views(taken@),
                txs@ == txs_of(taken_entries.take(i as int)),
            decreases taken@.len() - i,
        {
            let tx = taken[i].1.clone();
            let ghost before = txs@;
            txs.push(tx);
            i = i + 1;
            assert(taken_entries[i - 1].1 == tx);
            assert(txs_of(taken_entries.take(i as int)) =~= txs_of(taken_entries.take(i - 1)).push(
                tx,
            ));
        }
        assert(taken_entries.take(k as int) =~= taken_entries);
        proof {
            let e = self.entries();
            assert forall|a: int, b: int| 0 <= a < b < e.len() implies e[a].0 != e[b].0 by {
                assert(e[a] == pre[a + k]);
                assert(e[b] == pre[b + k]);
            }
            assert forall|j: int| 0 <= j < e.len() implies #[trigger] e[j].0 == tx_id_of(e[j].1) by {
                assert(e[j] == pre[j + k]);
            }
        }
        txs
    }

    /// A copy of the stored (id, transaction) pairs, oldest first.
    pub fn listing(&self) -> (items: Vec<(String, SignedTx)>)
        ensures
            entry_views(items@) == self.entries(),
    {
        let mut items: Vec<(String, SignedTx)> = Vec::new();
        let mut i: usize = 0;
        while i < self.by_id.len()
            invariant
                i <= self.by_id@.len(),
                entry_views(items@) == self.entries().take(
                    i as int,
                ),
            decreases self.by_id@.len() - i,
        {
            let item = (self.by_id[i].0.clone(), self.by_id[i].1.clone());
            let ghost before = items@;
            items.push(item);
            i = i + 1;
            assert(entry_views(items@) =~= entry_views(before).push(self.entries()[i - 1]));
            assert(self.entries().take(i as int) =~= self.entries().take(i - 1).push(
                self.entries()[i - 1],
            ));
            assert(entry_views(items@) =~= self.entries().take(
                i as int,
            ));
        }
        assert(self.entries().take(i as int) =~= self.entries());
        items
    }
}

impl Default for TxStore {
    /// An empty store of capacity 50 000 with no fee floor.
    fn default() -> (store: Self)
        ensures
            store.wf(),
            store.entries() == Seq::<(Seq<char>, SignedTx)>::empty(),
            store.seen_ids() == Seq::<Seq<char>>::empty(),
            store.nonce_floors() == Map::<Seq<char>, u64>::empty(),
            store.capacity_spec() == 50_000,
            store.min_fee_spec() == 0,
    {
        TxStore::new(50_000, 0)
    }
}

} // verus!

verus! {

/// The store's invariant, as its users may rely on it: ids are distinct,
/// every entry is keyed by its transaction's id, and a store holds at most
/// its capacity (at least one) of entries.
pub proof fn lemma_store_invariant(store: TxStore)
    requires
        store.wf(),
    ensures
        unique_ids(store.entries()),
        forall|i: int|
            0 <= i < store.entries().len() ==> #[trigger] store.entries()[i].0 == tx_id_of(
                store.entries()[i].1,
            ),
        store.entries().len() <= room_of(store.capacity_spec()),
{
}

/// Submitting the same transaction again at the same time is answered "known,
/// not inserted" and changes nothing, whether the first submission inserted it
/// or found it already there.
pub proof fn lemma_resubmission_changes_nothing(
    pre: TxStore,
    mid: TxStore,
    post: TxStore,
    tx: SignedTx,
    now: u64,
    first: Result<(String, bool, String), TxError>,
    second: Result<(String, bool, String), TxError>,
)
    requires
        TxStore::insert_spec(pre, mid, tx, now, first),
        TxStore::insert_spec(mid, post, tx, now, second),
        first is Ok,
    ensures
        second matches Ok(r) && r.0@ == tx_id_of(tx) && !r.1,
        post.same_contents(&mid),
{
    let id = tx_id_of(tx);
    if !pre.ids().contains(id) {
        let e = mid.entries();
        assert(e[e.len() - 1] == (id, tx));
        assert(ids_of(e)[e.len() - 1] == id);
    }
    assert(mid.ids().contains(id));
}

/// Admitting a transaction never lowers any sender's nonce floor, and a new
/// transaction lifts its sender's floor to its own nonce.
pub proof fn lemma_nonce_floors_never_fall(
    pre: TxStore,
    post: TxStore,
    tx: SignedTx,
    now: u64,
    res: Result<(String, bool, String), TxError>,
)
    requires
        TxStore::insert_spec(pre, post, tx, now, res),
    ensures
        forall|sender: Seq<char>| #[trigger] post.floor_of(sender) >= pre.floor_of(sender),
        res matches Ok(r) && r.1 ==> post.floor_of(tx.from_pubkey_b64@) == tx.nonce,
{
}

/// A transaction is inserted only if it verifies at that time, pays the fee
/// floor and is not below its sender's nonce floor; it becomes the newest
/// entry.
pub proof fn lemma_inserted_tx_was_admissible(
    pre: TxStore,
    post: TxStore,
    tx: SignedTx,
    now: u64,
    res: Result<(String, bool, String), TxError>,
)
    requires
        TxStore::insert_spec(pre, post, tx, now, res),
        res matches Ok(r) && r.1,
    ensures
        tx_check(tx, now) is Ok,
        tx.max_fee >= pre.min_fee_spec(),
        tx.nonce >= pre.floor_of(tx.from_pubkey_b64@),
        !pre.ids().contains(tx_id_of(tx)),
        post.entries().last() == (tx_id_of(tx), tx),
{
}

/// A store never takes in a transaction that has expired at the time of
/// admission: it is refused and the store keeps its contents.
pub proof fn lemma_expired_tx_never_admitted(
    pre: TxStore,
    post: TxStore,
    tx: SignedTx,
    now: u64,
    res: Result<(String, bool, String), TxError>,
)
    requires
        TxStore::insert_spec(pre, post, tx, now, res),
        tx.expiry < now,
    ensures
        res is Err,
        post.same_contents(&pre),
{
}

} // verus!
