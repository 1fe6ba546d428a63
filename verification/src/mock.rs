//! An in-memory transactional key-value store, following TiKV's semantics
//! for optimistic and pessimistic transactions.
//!
//! The store and its transactions are plain values here: each operation of a
//! transaction is given the store it works on.

use vstd::prelude::*;
use vstd::string::*;

use crate::key::Key;
use crate::keymap::{
    items_map, lemma_items_map_index, lemma_items_map_take_step, lemma_take_all, unique_keys,
    KeyMap, KeyView,
};
use crate::kv::{in_range, key_in_range, Bound, KvError, TransactionError};
use crate::value::Value;

verus! {

broadcast use vstd::string::group_string_axioms;

/// The view of a value that may be absent.
pub open spec fn opt_view(v: Option<Value>) -> Option<Seq<u8>> {
    match v {
        Some(x) => Some(x@),
        None => None,
    }
}

/// The views of a list of key-value pairs.
pub open spec fn pairs_view(pairs: Seq<(Key, Value)>) -> Seq<(KeyView, Seq<u8>)> {
    pairs.map_values(|e: (Key, Value)| (e.0@, e.1@))
}

/// The entries of a store, in store order, that lie within a range.
pub open spec fn range_matches(items: Seq<(KeyView, Seq<u8>)>, start: Bound, end: Bound) -> Seq<
    (KeyView, Seq<u8>),
>
    decreases items.len(),
{
    if items.len() == 0 {
        Seq::empty()
    } else {
        let prev = range_matches(items.drop_last(), start, end);
        if in_range(items.last().0, start, end) {
            prev.push(items.last())
        } else {
            prev
        }
    }
}

/// What a scan returns: the entries within the range, in store order, cut
/// to the first `limit` of them when a non-zero limit is given.
pub open spec fn scan_result(
    items: Seq<(KeyView, Seq<u8>)>,
    start: Bound,
    end: Bound,
    limit: Option<u32>,
) -> Seq<(KeyView, Seq<u8>)> {
    let m = range_matches(items, start, end);
    match limit {
        Some(l) => if 0 < l && l < m.len() {
            m.take(l as int)
        } else {
            m
        },
        None => m,
    }
}

/// A read set after recording that each of the entries was seen.
pub open spec fn observe_all(
    read_set: Map<KeyView, Option<Seq<u8>>>,
    entries: Seq<(KeyView, Seq<u8>)>,
) -> Map<KeyView, Option<Seq<u8>>>
    decreases entries.len(),
{
    if entries.len() == 0 {
        read_set
    } else {
        observe_all(read_set, entries.drop_last()).insert(
            entries.last().0,
            Some(entries.last().1),
        )
    }
}

/// Whether everything a transaction read is still what the store holds.
pub open spec fn reads_still_valid(
    read_set: Map<KeyView, Option<Seq<u8>>>,
    data: Map<KeyView, Seq<u8>>,
) -> bool {
    forall|k: KeyView| #[trigger] read_set.contains_key(k) ==> read_set[k] == data.get(k)
}

/// The value a deletion writes: the empty byte string.
pub open spec fn tombstone() -> Seq<u8> {
    Seq::empty()
}

proof fn lemma_range_matches_prefix(items: Seq<(KeyView, Seq<u8>)>, start: Bound, end: Bound, j: int)
    requires
        0 <= j <= items.len(),
    ensures
        range_matches(items.take(j), start, end).len() <= range_matches(items, start, end).len(),
        range_matches(items, start, end).take(range_matches(items.take(j), start, end).len() as int)
            == range_matches(items.take(j), start, end),
    decreases items.len() - j,
{
    let m = range_matches(items, start, end);
    if j == items.len() {
        lemma_take_all(items);
        lemma_take_all(m);
    } else {
        lemma_range_matches_prefix(items, start, end, j + 1);
        assert(items.take(j + 1).drop_last() =~= items.take(j));
        let a = range_matches(items.take(j), start, end);
        let b = range_matches(items.take(j + 1), start, end);
        assert(b.take(a.len() as int) =~= a);
        assert(m.take(a.len() as int) =~= m.take(b.len() as int).take(a.len() as int));
    }
}

/// A key-value entry copied out of the store.
fn copy_value(v: Option<&Value>) -> (r: Option<Value>)
    ensures
        opt_view(r) == match v {
            Some(x) => Some(x@),
            None => None::<Seq<u8>>,
        },
{
    match v {
        Some(x) => Some(x.clone()),
        None => None,
    }
}

/// What a transaction saw under a key: a value, or nothing.
#[derive(Debug)]
pub struct Observed(Option<Value>);

impl View for Observed {
    type V = Option<Seq<u8>>;

    closed spec fn view(&self) -> Option<Seq<u8>> {
        opt_view(self.0)
    }
}

impl Observed {
    fn new(v: Option<Value>) -> (r: Observed)
        ensures
            r@ == opt_view(v),
    {
        Observed(v)
    }

    /// Whether the observation agrees with what the store holds now.
    fn matches(&self, current: Option<&Value>) -> (r: bool)
        ensures
            r == (self@ == match current {
                Some(x) => Some(x@),
                None => None::<Seq<u8>>,
            }),
    {
        match (&self.0, current) {
            (None, None) => true,
            (Some(a), Some(b)) => a.same_as(b),
            _ => false,
        }
    }
}

/// A mock key-value store.
#[derive(Debug)]
pub struct MockStore {
    data: KeyMap<Value>,
    locks: KeyMap<()>,
}

impl MockStore {
    /// The key-value pairs the store holds.
    pub closed spec fn data(&self) -> Map<KeyView, Seq<u8>> {
        self.data@
    }

    /// The store's pairs, in the order a scan visits them.
    pub closed spec fn data_items(&self) -> Seq<(KeyView, Seq<u8>)> {
        self.data.items()
    }

    /// The keys currently locked by pessimistic transactions.
    pub closed spec fn locks(&self) -> Set<KeyView> {
        self.locks@.dom()
    }

    /// Create a new mock store.
    pub fn new() -> (r: MockStore)
        ensures
            r.data() == Map::<KeyView, Seq<u8>>::empty(),
            r.locks() == Set::<KeyView>::empty(),
    {
        let r = MockStore { data: KeyMap::new(), locks: KeyMap::new() };
        assert(r.locks() =~= Set::<KeyView>::empty());
        r
    }

    /// Write straight into the store's data, outside any transaction.
    pub fn screw_with_internal_data(&mut self, key: Key, value: Value)
        ensures
            final(self).data() == old(self).data().insert(key@, value@),
            final(self).locks() == old(self).locks(),
    {
        self.data.insert(key, value);
    }

    /// Read straight from the store's data, outside any transaction.
    pub fn peek(&self, key: &Key) -> (r: Option<Value>)
        ensures
            opt_view(r) == self.data().get(key@),
    {
        copy_value(self.data.get(key))
    }

    /// Begin an optimistic transaction.
    pub fn begin_optimistic_transaction(&self) -> (r: Result<OptimisticTransaction, KvError>)
        ensures
            r matches Ok(t) && t.read_set() == Map::<KeyView, Option<Seq<u8>>>::empty()
                && t.write_set() == Map::<KeyView, Seq<u8>>::empty(),
    {
        Ok(OptimisticTransaction { read_set: KeyMap::new(), write_set: KeyMap::new() })
    }

    /// Begin a pessimistic transaction.
    pub fn begin_pessimistic_transaction(&self) -> (r: Result<PessimisticTransaction, KvError>)
        ensures
            r matches Ok(t) && t.locked() == Set::<KeyView>::empty() && t.write_set() == Map::<
                KeyView,
                Seq<u8>,
            >::empty(),
    {
        let t = PessimisticTransaction { locked_keys: KeyMap::new(), write_set: KeyMap::new() };
        assert(t.locked() =~= Set::<KeyView>::empty());
        Ok(t)
    }

    /// The entries within a range, in store order, cut to the limit.
    fn collect_range(&self, start: &Bound, end: &Bound, limit: Option<u32>) -> (r: Vec<(Key, Value)>)
        ensures
            pairs_view(r@) == scan_result(self.data_items(), *start, *end, limit),
            unique_keys(self.data_items()),
            self.data() == items_map(self.data_items()),
    {
        self.data.check_items();
        let ghost items = self.data.items();
        let n = self.data.len();
        let mut result: Vec<(Key, Value)> = Vec::new();
        let mut i: usize = 0;
        while i < n
            invariant
                items == self.data.items(),
                unique_keys(items),
                self.data@ == items_map(items),
                n == items.len(),
                i <= n,
                pairs_view(result@) == range_matches(items.take(i as int), *start, *end),
                forall|l: u32| limit == Some(l) && l > 0 ==> result@.len() < l,
            decreases n - i,
        {
            let (k, v) = self.data.entry(i);
            proof {
                assert(items.take(i + 1).drop_last() =~= items.take(i as int));
            }
            if key_in_range(k, start, end) {
                result.push((k.clone(), v.clone()));
                assert(pairs_view(result@) =~= range_matches(items.take(i + 1), *start, *end));
                if let Some(l) = limit {
                    if result.len() == l as usize {
                        proof {
                            lemma_range_matches_prefix(items, *start, *end, i + 1);
                        }
                        return result;
                    }
                }
            } else {
                assert(pairs_view(result@) =~= range_matches(items.take(i + 1), *start, *end));
            }
            i += 1;
        }
        proof {
            lemma_take_all(items);
        }
        result
    }
}

/// An optimistic transaction.
#[derive(Debug)]
pub struct OptimisticTransaction {
    read_set: KeyMap<Observed>,
    write_set: KeyMap<Value>,
}

impl OptimisticTransaction {
    /// What the transaction read, key by key.
    pub closed spec fn read_set(&self) -> Map<KeyView, Option<Seq<u8>>> {
        self.read_set@
    }

    /// What the transaction will write when it commits.
    pub closed spec fn write_set(&self) -> Map<KeyView, Seq<u8>> {
        self.write_set@
    }

    /// Whether the transaction has nothing pending: it read and wrote
    /// nothing since it began, committed or rolled back. A transaction must
    /// be finished before it is dropped.
    pub fn is_finished(&self) -> (r: bool)
        ensures
            r <==> self.read_set() == Map::<KeyView, Option<Seq<u8>>>::empty()
                && self.write_set() == Map::<KeyView, Seq<u8>>::empty(),
    {
        self.read_set.is_empty() && self.write_set.is_empty()
    }

    fn observe(&mut self, store: &MockStore, key: &Key) -> (r: Option<Value>)
        ensures
            opt_view(r) == store.data().get(key@),
            final(self).read_set() == old(self).read_set().insert(key@, store.data().get(key@)),
            final(self).write_set() == old(self).write_set(),
    {
        let value = copy_value(store.data.get(key));
        let seen = copy_value(store.data.get(key));
        self.read_set.insert(key.clone(), Observed::new(seen));
        value
    }

    /// Get the value of a key.
    pub fn get(&mut self, store: &MockStore, key: &Key) -> (r: Result<Option<Value>, KvError>)
        ensures
            r matches Ok(v) && opt_view(v) == store.data().get(key@),
            final(self).read_set() == old(self).read_set().insert(key@, store.data().get(key@)),
            final(self).write_set() == old(self).write_set(),
    {
        Ok(self.observe(store, key))
    }

    /// Set the value of a key.
    pub fn put(&mut self, store: &MockStore, key: &Key, value: Value) -> (r: Result<(), KvError>)
        ensures
            r is Ok,
            final(self).read_set() == old(self).read_set().insert(key@, store.data().get(key@)),
            final(self).write_set() == old(self).write_set().insert(key@, value@),
    {
        self.observe(store, key);
        self.write_set.insert(key.clone(), value);
        Ok(())
    }

    /// Set the value of a key, only if it does not exist.
    pub fn insert(&mut self, store: &MockStore, key: &Key, value: Value) -> (r: Result<(), KvError>)
        ensures
            r is Ok <==> !store.data().contains_key(key@),
            r is Ok ==> final(self).read_set() == old(self).read_set().insert(key@, None)
                && final(self).write_set() == old(self).write_set().insert(key@, value@),
            r is Err ==> final(self).read_set() == old(self).read_set() && final(self).write_set()
                == old(self).write_set(),
            r matches Err(e) ==> e matches KvError::PlatformError(TransactionError::Other(msg))
                && msg@ == "Key already exists"@,
    {
        if store.data.contains_key(key) {
            return Err(
                KvError::PlatformError(
                    TransactionError::Other(String::from_str("Key already exists")),
                ),
            );
        }
        self.read_set.insert(key.clone(), Observed::new(None));
        self.write_set.insert(key.clone(), value);
        Ok(())
    }

    /// Scan the keyspace. Every pair returned is recorded as read.
    pub fn scan(&mut self, store: &MockStore, start: Bound, end: Bound, limit: Option<u32>) -> (r:
        Result<Vec<(Key, Value)>, KvError>)
        ensures
            r matches Ok(res) && pairs_view(res@) == scan_result(
                store.data_items(),
                start,
                end,
                limit,
            ),
            unique_keys(store.data_items()),
            store.data() == items_map(store.data_items()),
            final(self).read_set() == observe_all(
                old(self).read_set(),
                scan_result(store.data_items(), start, end, limit),
            ),
            r matches Ok(res) ==> forall|i: int|
                0 <= i < res@.len() ==> final(self).read_set().contains_key(#[trigger] res@[i].0@)
                    && final(self).read_set()[res@[i].0@] == Some(res@[i].1@),
            final(self).write_set() == old(self).write_set(),
    {
        let result = store.collect_range(&start, &end, limit);
        let n = result.len();
        let mut i: usize = 0;
        while i < n
            invariant
                n == result@.len(),
                i <= n,
                self.read_set() == observe_all(
                    old(self).read_set(),
                    pairs_view(result@).take(i as int),
                ),
                self.write_set() == old(self).write_set(),
            decreases n - i,
        {
            let (k, v) = &result[i];
            self.read_set.insert(k.clone(), Observed::new(Some(v.clone())));
            assert(pairs_view(result@).take(i + 1).drop_last() =~= pairs_view(result@).take(
                i as int,
            ));
            i += 1;
        }
        proof {
            lemma_take_all(pairs_view(result@));
            let pv = pairs_view(result@);
            lemma_range_matches_entries(store.data_items(), start, end);
            let m = range_matches(store.data_items(), start, end);
            assert(unique_keys(pv)) by {
                assert forall|a: int, b: int|
                    0 <= a < pv.len() && 0 <= b < pv.len() && a != b implies #[trigger] pv[a].0
                    != #[trigger] pv[b].0 by {
                    assert(pv[a] == m[a] && pv[b] == m[b]);
                }
            }
            law_scan_observes_results(old(self).read_set(), pv);
            assert forall|i: int| 0 <= i < result@.len() implies self.read_set().contains_key(
                #[trigger] result@[i].0@,
            ) && self.read_set()[result@[i].0@] == Some(result@[i].1@) by {
                assert(pv[i] == (result@[i].0@, result@[i].1@));
                assert(pv[i].0 == result@[i].0@);
                assert(self.read_set() == observe_all(old(self).read_set(), pv));
            }
        }
        Ok(result)
    }

    /// Delete a key: the transaction writes the empty value under it.
    pub fn delete(&mut self, store: &MockStore, key: &Key) -> (r: Result<bool, KvError>)
        ensures
            r == Ok::<bool, KvError>(true),
            final(self).read_set() == old(self).read_set().insert(key@, store.data().get(key@)),
            final(self).write_set() == old(self).write_set().insert(key@, tombstone()),
    {
        self.observe(store, key);
        let empty = Value::new(Vec::new());
        assert(empty@ =~= tombstone());
        self.write_set.insert(key.clone(), empty);
        Ok(true)
    }

    /// Commit the transaction: when everything it read is unchanged, its
    /// writes go into the store; otherwise it fails on a conflicting key.
    pub fn commit(&mut self, store: &mut MockStore) -> (r: Result<(), KvError>)
        ensures
            r is Ok <==> reads_still_valid(old(self).read_set(), old(store).data()),
            r is Ok ==> {
                &&& final(store).data() == old(store).data().union_prefer_right(
                    old(self).write_set(),
                )
                &&& final(store).locks() == old(store).locks()
                &&& final(self).read_set() == Map::<KeyView, Option<Seq<u8>>>::empty()
                &&& final(self).write_set() == Map::<KeyView, Seq<u8>>::empty()
            },
            r is Err ==> {
                &&& final(store).data() == old(store).data()
                &&& final(store).locks() == old(store).locks()
                &&& final(self).read_set() == old(self).read_set()
                &&& final(self).write_set() == old(self).write_set()
            },
            r matches Err(e) ==> e matches KvError::PlatformError(TransactionError::KeyConflict(k))
                && old(self).read_set().contains_key(k@) && old(self).read_set()[k@]
                != old(store).data().get(k@),
    {
        self.read_set.check_items();
        self.write_set.check_items();
        let ghost reads = self.read_set.items();
        let n = self.read_set.len();
        let mut i: usize = 0;
        while i < n
            invariant
                reads == self.read_set.items(),
                unique_keys(reads),
                self.read_set@ == items_map(reads),
                n == reads.len(),
                i <= n,
                forall|j: int| 0 <= j < i ==> #[trigger] reads[j].1 == store.data@.get(reads[j].0),
            decreases n - i,
        {
            let (k, seen) = self.read_set.entry(i);
            if !seen.matches(store.data.get(k)) {
                proof {
                    lemma_items_map_index(reads, i as int);
                }
                return Err(KvError::PlatformError(TransactionError::KeyConflict(k.clone())));
            }
            i += 1;
        }
        assert(reads_still_valid(self.read_set@, store.data@)) by {
            assert forall|k: KeyView| #[trigger] self.read_set@.contains_key(k) implies self.read_set@[k]
                == store.data@.get(k) by {
                let j = choose|j: int| 0 <= j < reads.len() && #[trigger] reads[j].0 == k;
                lemma_items_map_index(reads, j);
                assert(reads[j].1 == store.data@.get(reads[j].0));
            }
        }
        let ghost writes = self.write_set.items();
        let ghost before = store.data@;
        let m = self.write_set.len();
        let mut j: usize = 0;
        assert(items_map(writes.take(0)) =~= Map::<KeyView, Seq<u8>>::empty());
        assert(before.union_prefer_right(Map::<KeyView, Seq<u8>>::empty()) =~= before);
        while j < m
            invariant
                writes == self.write_set.items(),
                unique_keys(writes),
                self.write_set@ == items_map(writes),
                m == writes.len(),
                j <= m,
                store.data@ == before.union_prefer_right(items_map(writes.take(j as int))),
                store.locks@ == old(store).locks@,
            decreases m - j,
        {
            let (k, v) = self.write_set.entry(j);
            store.data.insert(k.clone(), v.clone());
            proof {
                lemma_items_map_take_step(writes, j as int);
                assert(store.data@ =~= before.union_prefer_right(items_map(writes.take(j + 1))));
            }
            j += 1;
        }
        proof {
            lemma_take_all(writes);
        }
        self.read_set.clear();
        self.write_set.clear();
        Ok(())
    }

    /// Rollback the transaction.
    pub fn rollback(&mut self) -> (r: Result<(), KvError>)
        ensures
            r is Ok,
            final(self).read_set() == Map::<KeyView, Option<Seq<u8>>>::empty(),
            final(self).write_set() == Map::<KeyView, Seq<u8>>::empty(),
    {
        self.read_set.clear();
        self.write_set.clear();
        Ok(())
    }
}

} // verus!

verus! {

/// A pessimistic transaction.
#[derive(Debug)]
pub struct PessimisticTransaction {
    locked_keys: KeyMap<()>,
    write_set: KeyMap<Value>,
}

/// Whether a transaction holding `locked` may take the lock on `k`, given the
/// keys locked in the store.
pub open spec fn can_lock(locked: Set<KeyView>, locks: Set<KeyView>, k: KeyView) -> bool {
    locked.contains(k) || !locks.contains(k)
}

/// The keys a transaction holds after asking for the lock on `k`.
pub open spec fn locked_after(locked: Set<KeyView>, locks: Set<KeyView>, k: KeyView) -> Set<
    KeyView,
> {
    if can_lock(locked, locks, k) {
        locked.insert(k)
    } else {
        locked
    }
}

/// The keys locked in the store after a transaction holding `locked` asks
/// for the lock on `k`.
pub open spec fn locks_after(locked: Set<KeyView>, locks: Set<KeyView>, k: KeyView) -> Set<
    KeyView,
> {
    if locked.contains(k) || locks.contains(k) {
        locks
    } else {
        locks.insert(k)
    }
}

impl PessimisticTransaction {
    /// The keys this transaction has locked.
    pub closed spec fn locked(&self) -> Set<KeyView> {
        self.locked_keys@.dom()
    }

    /// What the transaction will write when it commits.
    pub closed spec fn write_set(&self) -> Map<KeyView, Seq<u8>> {
        self.write_set@
    }

    /// Whether the transaction has nothing pending: it holds no lock and
    /// has no write. A transaction must be finished before it is dropped.
    pub fn is_finished(&self) -> (r: bool)
        ensures
            r <==> self.locked() == Set::<KeyView>::empty() && self.write_set() == Map::<
                KeyView,
                Seq<u8>,
            >::empty(),
    {
        let r = self.locked_keys.is_empty();
        proof {
            if !r && self.locked() == Set::<KeyView>::empty() {
                assert(self.locked_keys@ =~= Map::<KeyView, ()>::empty());
            } else if r {
                assert(self.locked() =~= Set::<KeyView>::empty());
            }
        }
        r && self.write_set.is_empty()
    }

    /// Takes the lock on a key, unless another transaction holds it.
    fn lock_key(&mut self, store: &mut MockStore, key: &Key) -> (r: Result<(), TransactionError>)
        ensures
            r is Ok <==> can_lock(old(self).locked(), old(store).locks(), key@),
            final(self).locked() == locked_after(old(self).locked(), old(store).locks(), key@),
            final(store).locks() == locks_after(old(self).locked(), old(store).locks(), key@),
            r matches Err(e) ==> e matches TransactionError::KeyLocked(k) && k@ == key@,
            final(store).data() == old(store).data(),
            final(self).write_set() == old(self).write_set(),
    {
        if self.locked_keys.contains_key(key) {
            assert(old(self).locked().insert(key@) =~= old(self).locked());
            return Ok(());
        }
        if store.locks.contains_key(key) {
            return Err(TransactionError::KeyLocked(key.clone()));
        }
        store.locks.insert(key.clone(), ());
        self.locked_keys.insert(key.clone(), ());
        assert(store.locks@.dom() =~= old(store).locks@.dom().insert(key@));
        assert(self.locked_keys@.dom() =~= old(self).locked_keys@.dom().insert(key@));
        Ok(())
    }
}


impl PessimisticTransaction {
    /// Releases every lock this transaction holds in the store.
    fn unlock_keys(&self, store: &mut MockStore)
        ensures
            final(store).locks() == old(store).locks().difference(self.locked()),
            final(store).data() == old(store).data(),
    {
        self.locked_keys.check_items();
        let ghost held = self.locked_keys.items();
        let ghost before = store.locks@.dom();
        let n = self.locked_keys.len();
        let mut j: usize = 0;
        assert(items_map(held.take(0)).dom() =~= Set::<KeyView>::empty());
        assert(before.difference(Set::<KeyView>::empty()) =~= before);
        while j < n
            invariant
                held == self.locked_keys.items(),
                unique_keys(held),
                self.locked_keys@ == items_map(held),
                n == held.len(),
                j <= n,
                store.locks@.dom() == before.difference(items_map(held.take(j as int)).dom()),
                store.data@ == old(store).data@,
            decreases n - j,
        {
            let (k, _) = self.locked_keys.entry(j);
            store.locks.remove(k);
            proof {
                lemma_items_map_take_step(held, j as int);
                assert(store.locks@.dom() =~= before.difference(
                    items_map(held.take(j + 1)).dom(),
                ));
            }
            j += 1;
        }
        proof {
            lemma_take_all(held);
        }
    }

    /// Get the value of a key, locking it first.
    pub fn get(&mut self, store: &mut MockStore, key: &Key) -> (r: Result<Option<Value>, KvError>)
        ensures
            r is Ok <==> can_lock(old(self).locked(), old(store).locks(), key@),
            r matches Ok(v) ==> opt_view(v) == old(store).data().get(key@),
            r matches Err(e) ==> e matches KvError::PlatformError(TransactionError::KeyLocked(k))
                && k@ == key@,
            final(self).locked() == locked_after(old(self).locked(), old(store).locks(), key@),
            final(store).locks() == locks_after(old(self).locked(), old(store).locks(), key@),
            final(store).data() == old(store).data(),
            final(self).write_set() == old(self).write_set(),
    {
        match self.lock_key(store, key) {
            Ok(()) => {},
            Err(e) => {
                return Err(KvError::PlatformError(e));
            },
        }
        Ok(copy_value(store.data.get(key)))
    }

    /// Set the value of a key, locking it first.
    pub fn put(&mut self, store: &mut MockStore, key: &Key, value: Value) -> (r: Result<(), KvError>)
        ensures
            r is Ok <==> can_lock(old(self).locked(), old(store).locks(), key@),
            r matches Err(e) ==> e matches KvError::PlatformError(TransactionError::KeyLocked(k))
                && k@ == key@,
            final(self).locked() == locked_after(old(self).locked(), old(store).locks(), key@),
            final(store).locks() == locks_after(old(self).locked(), old(store).locks(), key@),
            final(store).data() == old(store).data(),
            final(self).write_set() == if r is Ok {
                old(self).write_set().insert(key@, value@)
            } else {
                old(self).write_set()
            },
    {
        match self.lock_key(store, key) {
            Ok(()) => {},
            Err(e) => {
                return Err(KvError::PlatformError(e));
            },
        }
        self.write_set.insert(key.clone(), value);
        Ok(())
    }

    /// Set the value of a key, only if it does not exist, locking it first.
    pub fn insert(&mut self, store: &mut MockStore, key: &Key, value: Value) -> (r: Result<(), KvError>)
        ensures
            r is Ok <==> can_lock(old(self).locked(), old(store).locks(), key@)
                && !old(store).data().contains_key(key@),
            r matches Err(e) ==> if can_lock(old(self).locked(), old(store).locks(), key@) {
                e matches KvError::PlatformError(TransactionError::Other(msg)) && msg@
                    == "Key already exists"@
            } else {
                e matches KvError::PlatformError(TransactionError::KeyLocked(k)) && k@ == key@
            },
            final(self).locked() == locked_after(old(self).locked(), old(store).locks(), key@),
            final(store).locks() == locks_after(old(self).locked(), old(store).locks(), key@),
            final(store).data() == old(store).data(),
            final(self).write_set() == if r is Ok {
                old(self).write_set().insert(key@, value@)
            } else {
                old(self).write_set()
            },
    {
        match self.lock_key(store, key) {
            Ok(()) => {},
            Err(e) => {
                return Err(KvError::PlatformError(e));
            },
        }
        if store.data.contains_key(key) {
            return Err(
                KvError::PlatformError(
                    TransactionError::Other(String::from_str("Key already exists")),
                ),
            );
        }
        self.write_set.insert(key.clone(), value);
        Ok(())
    }

    /// Scan the keyspace. Nothing is locked by a scan.
    pub fn scan(&self, store: &MockStore, start: Bound, end: Bound, limit: Option<u32>) -> (r:
        Result<Vec<(Key, Value)>, KvError>)
        ensures
            r matches Ok(res) && pairs_view(res@) == scan_result(
                store.data_items(),
                start,
                end,
                limit,
            ),
            unique_keys(store.data_items()),
            store.data() == items_map(store.data_items()),
    {
        Ok(store.collect_range(&start, &end, limit))
    }

    /// Delete a key, locking it first: the transaction writes the empty
    /// value under it.
    pub fn delete(&mut self, store: &mut MockStore, key: &Key) -> (r: Result<bool, KvError>)
        ensures
            r is Ok <==> can_lock(old(self).locked(), old(store).locks(), key@),
            r is Ok ==> r == Ok::<bool, KvError>(true),
            r matches Err(e) ==> e matches KvError::PlatformError(TransactionError::KeyLocked(k))
                && k@ == key@,
            final(self).locked() == locked_after(old(self).locked(), old(store).locks(), key@),
            final(store).locks() == locks_after(old(self).locked(), old(store).locks(), key@),
            final(store).data() == old(store).data(),
            final(self).write_set() == if r is Ok {
                old(self).write_set().insert(key@, tombstone())
            } else {
                old(self).write_set()
            },
    {
        match self.lock_key(store, key) {
            Ok(()) => {},
            Err(e) => {
                return Err(KvError::PlatformError(e));
            },
        }
        let empty = Value::new(Vec::new());
        assert(empty@ =~= tombstone());
        self.write_set.insert(key.clone(), empty);
        Ok(true)
    }

    /// Commit the transaction: its writes go into the store and its locks
    /// are released.
    pub fn commit(&mut self, store: &mut MockStore) -> (r: Result<(), KvError>)
        ensures
            r is Ok,
            final(store).data() == old(store).data().union_prefer_right(old(self).write_set()),
            final(store).locks() == old(store).locks().difference(old(self).locked()),
            final(self).locked() == Set::<KeyView>::empty(),
            final(self).write_set() == Map::<KeyView, Seq<u8>>::empty(),
    {
        self.write_set.check_items();
        let ghost writes = self.write_set.items();
        let ghost before = store.data@;
        let m = self.write_set.len();
        let mut j: usize = 0;
        assert(items_map(writes.take(0)) =~= Map::<KeyView, Seq<u8>>::empty());
        assert(before.union_prefer_right(Map::<KeyView, Seq<u8>>::empty()) =~= before);
        while j < m
            invariant
                writes == self.write_set.items(),
                unique_keys(writes),
                self.write_set@ == items_map(writes),
                m == writes.len(),
                j <= m,
                store.data@ == before.union_prefer_right(items_map(writes.take(j as int))),
                store.locks@ == old(store).locks@,
            decreases m - j,
        {
            let (k, v) = self.write_set.entry(j);
            store.data.insert(k.clone(), v.clone());
            proof {
                lemma_items_map_take_step(writes, j as int);
                assert(store.data@ =~= before.union_prefer_right(items_map(writes.take(j + 1))));
            }
            j += 1;
        }
        proof {
            lemma_take_all(writes);
        }
        self.unlock_keys(store);
        self.locked_keys.clear();
        self.write_set.clear();
        assert(self.locked() =~= Set::<KeyView>::empty());
        Ok(())
    }

    /// Rollback the transaction, releasing its locks.
    pub fn rollback(&mut self, store: &mut MockStore) -> (r: Result<(), KvError>)
        ensures
            r is Ok,
            final(store).data() == old(store).data(),
            final(store).locks() == old(store).locks().difference(old(self).locked()),
            final(self).locked() == Set::<KeyView>::empty(),
            final(self).write_set() == Map::<KeyView, Seq<u8>>::empty(),
    {
        self.unlock_keys(store);
        self.locked_keys.clear();
        self.write_set.clear();
        assert(self.locked() =~= Set::<KeyView>::empty());
        Ok(())
    }
}
} // verus!

verus! {

/// An optimistic write is seen after commit: if what the transaction read is
/// still current, reading the key it writes adds no conflict, and once its
/// writes are applied the store holds the written value under the key.
pub proof fn law_optimistic_write_visible_after_commit(
    data: Map<KeyView, Seq<u8>>,
    read_set: Map<KeyView, Option<Seq<u8>>>,
    write_set: Map<KeyView, Seq<u8>>,
    k: KeyView,
    v: Seq<u8>,
)
    requires
        reads_still_valid(read_set, data),
    ensures
        reads_still_valid(read_set.insert(k, data.get(k)), data),
        data.union_prefer_right(write_set.insert(k, v)).get(k) == Some(v),
{
}

/// A commit that changes a key makes every transaction that read the key
/// earlier fail to commit.
pub proof fn law_optimistic_conflict_detected(
    data: Map<KeyView, Seq<u8>>,
    read_set: Map<KeyView, Option<Seq<u8>>>,
    other_writes: Map<KeyView, Seq<u8>>,
    k: KeyView,
)
    requires
        other_writes.contains_key(k),
        Some(other_writes[k]) != data.get(k),
    ensures
        !reads_still_valid(read_set.insert(k, data.get(k)), data.union_prefer_right(other_writes)),
{
    assert(read_set.insert(k, data.get(k)).contains_key(k));
    assert(data.union_prefer_right(other_writes).get(k) == Some(other_writes[k]));
}

/// No key is ever locked by two pessimistic transactions: when two
/// transactions hold disjoint sets of the store's locks, a lock request by
/// either keeps them disjoint and within the store's locks, and a key held
/// by one cannot be taken by the other.
pub proof fn law_locks_stay_exclusive(
    mine: Set<KeyView>,
    theirs: Set<KeyView>,
    locks: Set<KeyView>,
    k: KeyView,
)
    requires
        mine.subset_of(locks),
        theirs.subset_of(locks),
        mine.disjoint(theirs),
    ensures
        locked_after(mine, locks, k).subset_of(locks_after(mine, locks, k)),
        theirs.subset_of(locks_after(mine, locks, k)),
        locked_after(mine, locks, k).disjoint(theirs),
        theirs.contains(k) ==> !can_lock(mine, locks, k),
{
    assert(theirs.contains(k) ==> !mine.contains(k));
}

/// A commit or rollback releases the transaction's locks: another
/// transaction can then lock any key the first one held.
pub proof fn law_release_frees_keys(
    mine: Set<KeyView>,
    theirs: Set<KeyView>,
    locks: Set<KeyView>,
    k: KeyView,
)
    requires
        mine.subset_of(locks),
        theirs.subset_of(locks),
        mine.disjoint(theirs),
        mine.contains(k),
    ensures
        can_lock(theirs, locks.difference(mine), k),
        theirs.subset_of(locks.difference(mine)),
{
}

proof fn lemma_range_matches_entries(items: Seq<(KeyView, Seq<u8>)>, start: Bound, end: Bound)
    requires
        unique_keys(items),
    ensures
        unique_keys(range_matches(items, start, end)),
        forall|i: int|
            0 <= i < range_matches(items, start, end).len() ==> in_range(
                #[trigger] range_matches(items, start, end)[i].0,
                start,
                end,
            ) && items_map(items).contains_key(range_matches(items, start, end)[i].0),
        items_map(range_matches(items, start, end)) == items_map(items).restrict(
            Set::new(|k: KeyView| in_range(k, start, end)),
        ),
    decreases items.len(),
{
    let inside = Set::new(|k: KeyView| in_range(k, start, end));
    if items.len() == 0 {
        assert(items_map(range_matches(items, start, end)) =~= items_map(items).restrict(inside));
    } else {
        let init = items.drop_last();
        let last = items.last();
        let n = items.len() - 1;
        assert(init =~= items.take(n));
        lemma_items_map_take_step(items, n);
        lemma_take_all(items);
        lemma_range_matches_entries(init, start, end);
        let prev = range_matches(init, start, end);
        assert(!items_map(init).contains_key(last.0)) by {
            if items_map(init).contains_key(last.0) {
                let a = choose|a: int| 0 <= a < init.len() && #[trigger] init[a].0 == last.0;
                assert(items[a].0 == items[n].0);
            }
        }
        if in_range(last.0, start, end) {
            assert(!items_map(prev).contains_key(last.0)) by {
                if items_map(prev).contains_key(last.0) {
                    let a = choose|a: int| 0 <= a < prev.len() && #[trigger] prev[a].0 == last.0;
                    assert(items_map(init).contains_key(prev[a].0));
                }
            }
            crate::keymap::lemma_items_map_push(prev, last.0, last.1);
            assert(items_map(prev.push(last)) =~= items_map(items).restrict(inside));
            assert forall|i: int| 0 <= i < prev.push(last).len() implies in_range(
                #[trigger] prev.push(last)[i].0,
                start,
                end,
            ) && items_map(items).contains_key(prev.push(last)[i].0) by {
                if i < prev.len() {
                    assert(prev.push(last)[i] == prev[i]);
                }
            }
        } else {
            assert(items_map(prev) =~= items_map(items).restrict(inside));
        }
    }
}

/// An unlimited scan returns exactly the store's pairs whose keys lie in the
/// range, each key once.
pub proof fn law_scan_returns_range(items: Seq<(KeyView, Seq<u8>)>, start: Bound, end: Bound)
    requires
        unique_keys(items),
    ensures
        unique_keys(scan_result(items, start, end, None)),
        items_map(scan_result(items, start, end, None)) == items_map(items).restrict(
            Set::new(|k: KeyView| in_range(k, start, end)),
        ),
{
    lemma_range_matches_entries(items, start, end);
}

/// A limited scan returns at most `limit` pairs, the first ones of the
/// unlimited scan.
pub proof fn law_scan_limit(items: Seq<(KeyView, Seq<u8>)>, start: Bound, end: Bound, limit: u32)
    requires
        limit > 0,
    ensures
        scan_result(items, start, end, Some(limit)).len() <= limit,
        scan_result(items, start, end, None).take(
            scan_result(items, start, end, Some(limit)).len() as int,
        ) == scan_result(items, start, end, Some(limit)),
{
    let m = range_matches(items, start, end);
    if !(limit < m.len()) {
        lemma_take_all(m);
    }
}

/// Recording what a scan returned: every returned pair is then in the read
/// set with the value that was returned, and keys the scan did not return
/// keep what the read set held before.
pub proof fn law_scan_observes_results(
    read_set: Map<KeyView, Option<Seq<u8>>>,
    entries: Seq<(KeyView, Seq<u8>)>,
)
    requires
        unique_keys(entries),
    ensures
        forall|i: int|
            0 <= i < entries.len() ==> observe_all(read_set, entries).contains_key(
                #[trigger] entries[i].0,
            ) && observe_all(read_set, entries)[entries[i].0] == Some(entries[i].1),
        forall|k: KeyView|
            (forall|i: int| 0 <= i < entries.len() ==> #[trigger] entries[i].0 != k)
                ==> observe_all(read_set, entries).get(k) == read_set.get(k),
    decreases entries.len(),
{
    if entries.len() > 0 {
        let init = entries.drop_last();
        let n = entries.len() - 1;
        assert forall|a: int, b: int|
            0 <= a < init.len() && 0 <= b < init.len() && a != b implies #[trigger] init[a].0
            != #[trigger] init[b].0 by {
            assert(init[a] == entries[a] && init[b] == entries[b]);
        }
        law_scan_observes_results(read_set, init);
        assert forall|i: int| 0 <= i < entries.len() implies observe_all(
            read_set,
            entries,
        ).contains_key(#[trigger] entries[i].0) && observe_all(read_set, entries)[entries[i].0]
            == Some(entries[i].1) by {
            if i < n {
                assert(init[i] == entries[i]);
                assert(entries[i].0 != entries[n].0);
            }
        }
        assert forall|k: KeyView|
            (forall|i: int| 0 <= i < entries.len() ==> #[trigger] entries[i].0 != k) implies observe_all(
            read_set,
            entries,
        ).get(k) == read_set.get(k) by {
            assert(entries[n].0 != k);
            assert forall|i: int| 0 <= i < init.len() implies #[trigger] init[i].0 != k by {
                assert(init[i] == entries[i]);
            }
        }
    }
}

/// A scanned value that changes before the commit makes the commit fail:
/// once the scan's pairs are recorded, a store whose value under one of the
/// scanned keys differs from what the scan returned no longer matches the
/// read set.
pub proof fn law_scanned_change_conflicts(
    read_set: Map<KeyView, Option<Seq<u8>>>,
    entries: Seq<(KeyView, Seq<u8>)>,
    data: Map<KeyView, Seq<u8>>,
    i: int,
)
    requires
        unique_keys(entries),
        0 <= i < entries.len(),
        data.get(entries[i].0) != Some(entries[i].1),
    ensures
        !reads_still_valid(observe_all(read_set, entries), data),
{
    law_scan_observes_results(read_set, entries);
    assert(observe_all(read_set, entries).contains_key(entries[i].0));
}

} // verus!
