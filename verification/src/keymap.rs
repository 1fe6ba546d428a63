//! A small map from [`Key`]s to values, kept as a list of entries in
//! insertion order with no key occurring twice.

use vstd::prelude::*;

use crate::key::Key;

verus! {

/// The view of a key: its segment texts.
pub type KeyView = Seq<Seq<char>>;

/// No key occurs twice among the entries.
pub open spec fn unique_keys<W>(items: Seq<(KeyView, W)>) -> bool {
    forall|i: int, j: int|
        0 <= i < items.len() && 0 <= j < items.len() && i != j ==> #[trigger] items[i].0
            != #[trigger] items[j].0
}

/// The map that a list of entries with unique keys stands for.
pub open spec fn items_map<W>(items: Seq<(KeyView, W)>) -> Map<KeyView, W> {
    Map::new(
        |k: KeyView| exists|i: int| 0 <= i < items.len() && #[trigger] items[i].0 == k,
        |k: KeyView| items[choose|i: int| 0 <= i < items.len() && #[trigger] items[i].0 == k].1,
    )
}

/// The entries after storing `w` under `k`: in place when `k` is present,
/// at the end otherwise.
pub open spec fn items_insert<W>(items: Seq<(KeyView, W)>, k: KeyView, w: W) -> Seq<
    (KeyView, W),
> {
    if exists|i: int| 0 <= i < items.len() && #[trigger] items[i].0 == k {
        items.update(choose|i: int| 0 <= i < items.len() && #[trigger] items[i].0 == k, (k, w))
    } else {
        items.push((k, w))
    }
}

pub proof fn lemma_items_map_index<W>(items: Seq<(KeyView, W)>, i: int)
    requires
        unique_keys(items),
        0 <= i < items.len(),
    ensures
        items_map(items).contains_key(items[i].0),
        items_map(items)[items[i].0] == items[i].1,
{
    let k = items[i].0;
    assert(items_map(items).dom().contains(k));
    let j = choose|j: int| 0 <= j < items.len() && #[trigger] items[j].0 == k;
    assert(j == i);
}

pub proof fn lemma_items_map_update<W>(items: Seq<(KeyView, W)>, i: int, w: W)
    requires
        unique_keys(items),
        0 <= i < items.len(),
    ensures
        unique_keys(items.update(i, (items[i].0, w))),
        items_map(items.update(i, (items[i].0, w))) == items_map(items).insert(items[i].0, w),
{
    let k = items[i].0;
    let n = items.update(i, (k, w));
    assert forall|a: int, b: int|
        0 <= a < n.len() && 0 <= b < n.len() && a != b implies #[trigger] n[a].0 != #[trigger] n[b].0 by {
        assert(n[a].0 == items[a].0);
        assert(n[b].0 == items[b].0);
    }
    let m1 = items_map(n);
    let m2 = items_map(items).insert(k, w);
    assert forall|key: KeyView| m1.contains_key(key) == m2.contains_key(key) by {
        if m1.contains_key(key) {
            let j = choose|j: int| 0 <= j < n.len() && #[trigger] n[j].0 == key;
            assert(items[j].0 == key);
        }
        if m2.contains_key(key) && key != k {
            let j = choose|j: int| 0 <= j < items.len() && #[trigger] items[j].0 == key;
            assert(n[j].0 == key);
        }
        if key == k {
            assert(n[i].0 == key);
        }
    }
    assert forall|key: KeyView| m1.contains_key(key) implies m1[key] == m2[key] by {
        let j = choose|j: int| 0 <= j < n.len() && #[trigger] n[j].0 == key;
        lemma_items_map_index(n, j);
        if key == k {
            assert(j == i);
        } else {
            assert(items[j].0 == key);
            lemma_items_map_index(items, j);
        }
    }
    assert(m1 =~= m2);
}

pub proof fn lemma_items_map_push<W>(items: Seq<(KeyView, W)>, k: KeyView, w: W)
    requires
        unique_keys(items),
        !items_map(items).contains_key(k),
    ensures
        unique_keys(items.push((k, w))),
        items_map(items.push((k, w))) == items_map(items).insert(k, w),
{
    let n = items.push((k, w));
    assert forall|a: int, b: int|
        0 <= a < n.len() && 0 <= b < n.len() && a != b implies #[trigger] n[a].0 != #[trigger] n[b].0 by {
        if a < items.len() && b < items.len() {
            assert(n[a] == items[a]);
            assert(n[b] == items[b]);
        } else if a < items.len() {
            assert(n[a] == items[a]);
            assert(items_map(items).dom().contains(items[a].0) ==> items[a].0 != k);
        } else {
            assert(n[b] == items[b]);
            assert(items_map(items).dom().contains(items[b].0) ==> items[b].0 != k);
        }
    }
    let m1 = items_map(n);
    let m2 = items_map(items).insert(k, w);
    assert forall|key: KeyView| m1.contains_key(key) == m2.contains_key(key) by {
        if m1.contains_key(key) && key != k {
            let j = choose|j: int| 0 <= j < n.len() && #[trigger] n[j].0 == key;
            assert(j < items.len());
            assert(items[j].0 == key);
        }
        if m2.contains_key(key) && key != k {
            let j = choose|j: int| 0 <= j < items.len() && #[trigger] items[j].0 == key;
            assert(n[j].0 == key);
        }
        if key == k {
            assert(n[items.len() as int].0 == key);
        }
    }
    assert forall|key: KeyView| m1.contains_key(key) implies m1[key] == m2[key] by {
        let j = choose|j: int| 0 <= j < n.len() && #[trigger] n[j].0 == key;
        lemma_items_map_index(n, j);
        if key != k {
            assert(j < items.len());
            assert(items[j].0 == key);
            lemma_items_map_index(items, j);
        } else {
            assert(j == items.len());
        }
    }
    assert(m1 =~= m2);
}

pub proof fn lemma_items_map_remove<W>(items: Seq<(KeyView, W)>, i: int)
    requires
        unique_keys(items),
        0 <= i < items.len(),
    ensures
        unique_keys(items.remove(i)),
        items_map(items.remove(i)) == items_map(items).remove(items[i].0),
{
    let k = items[i].0;
    let n = items.remove(i);
    assert forall|a: int, b: int|
        0 <= a < n.len() && 0 <= b < n.len() && a != b implies #[trigger] n[a].0 != #[trigger] n[b].0 by {
        let ia = if a < i { a } else { a + 1 };
        let ib = if b < i { b } else { b + 1 };
        assert(n[a] == items[ia]);
        assert(n[b] == items[ib]);
    }
    let m1 = items_map(n);
    let m2 = items_map(items).remove(k);
    assert forall|key: KeyView| m1.contains_key(key) == m2.contains_key(key) by {
        if m1.contains_key(key) {
            let j = choose|j: int| 0 <= j < n.len() && #[trigger] n[j].0 == key;
            let ij = if j < i { j } else { j + 1 };
            assert(items[ij].0 == key);
            assert(ij != i);
        }
        if m2.contains_key(key) {
            let j = choose|j: int| 0 <= j < items.len() && #[trigger] items[j].0 == key;
            assert(j != i);
            let nj = if j < i { j } else { j - 1 };
            assert(n[nj].0 == key);
        }
    }
    assert forall|key: KeyView| m1.contains_key(key) implies m1[key] == m2[key] by {
        let j = choose|j: int| 0 <= j < n.len() && #[trigger] n[j].0 == key;
        lemma_items_map_index(n, j);
        let ij = if j < i { j } else { j + 1 };
        assert(items[ij] == n[j]);
        lemma_items_map_index(items, ij);
    }
    assert(m1 =~= m2);
}

/// A map from keys to values.
#[derive(Debug)]
pub struct KeyMap<V: View> {
    entries: Vec<(Key, V)>,
}

impl<V: View> View for KeyMap<V> {
    type V = Map<KeyView, V::V>;

    closed spec fn view(&self) -> Map<KeyView, V::V> {
        items_map(self.items())
    }
}

impl<V: View> KeyMap<V> {
    /// The entries, in insertion order.
    pub closed spec fn items(&self) -> Seq<(KeyView, V::V)> {
        Self::entries_items(self.entries@)
    }

    spec fn entries_items(entries: Seq<(Key, V)>) -> Seq<(KeyView, V::V)> {
        entries.map_values(|e: (Key, V)| (e.0@, e.1@))
    }

    #[verifier::type_invariant]
    spec fn keys_unique(self) -> bool {
        unique_keys(self.items())
    }

    /// An empty map.
    pub fn new() -> (r: Self)
        ensures
            r.items() == Seq::<(KeyView, V::V)>::empty(),
            r@ == Map::<KeyView, V::V>::empty(),
    {
        let r = KeyMap { entries: Vec::new() };
        assert(r.items() =~= Seq::<(KeyView, V::V)>::empty());
        assert(r@ =~= Map::<KeyView, V::V>::empty());
        r
    }

    /// The entries have unique keys and stand for the map.
    pub fn check_items(&self)
        ensures
            unique_keys(self.items()),
            self@ == items_map(self.items()),
    {
        proof {
            use_type_invariant(self);
        }
    }

    /// The number of entries.
    pub fn len(&self) -> (r: usize)
        ensures
            r == self.items().len(),
    {
        self.entries.len()
    }

    /// Whether the map holds no entry.
    pub fn is_empty(&self) -> (r: bool)
        ensures
            r <==> self@ == Map::<KeyView, V::V>::empty(),
    {
        proof {
            use_type_invariant(self);
        }
        if self.entries.len() == 0 {
            assert(self@ =~= Map::<KeyView, V::V>::empty());
            true
        } else {
            proof {
                lemma_items_map_index(self.items(), 0);
            }
            assert(!Map::<KeyView, V::V>::empty().contains_key(self.items()[0].0));
            false
        }
    }

    /// The entry at an index.
    pub fn entry(&self, i: usize) -> (r: (&Key, &V))
        requires
            i < self.items().len(),
        ensures
            (r.0@, r.1@) == self.items()[i as int],
    {
        let e = &self.entries[i];
        (&e.0, &e.1)
    }

    /// The index of the entry for a key, if there is one.
    pub fn find(&self, k: &Key) -> (r: Option<usize>)
        ensures
            match r {
                Some(i) => i < self.items().len() && self.items()[i as int].0 == k@,
                None => !self@.contains_key(k@),
            },
    {
        proof {
            use_type_invariant(self);
        }
        let n = self.entries.len();
        let mut i: usize = 0;
        while i < n
            invariant
                n == self.items().len(),
                i <= n,
                forall|j: int| 0 <= j < i ==> self.items()[j].0 != k@,
            decreases n - i,
        {
            if self.entries[i].0.same_as(k) {
                return Some(i);
            }
            i += 1;
        }
        assert(!self@.contains_key(k@)) by {
            if self@.contains_key(k@) {
                let j = choose|j: int| 0 <= j < self.items().len() && #[trigger] self.items()[j].0
                    == k@;
                assert(self.items()[j].0 == k@);
            }
        }
        None
    }

    /// The value stored under a key, if any.
    pub fn get(&self, k: &Key) -> (r: Option<&V>)
        ensures
            match r {
                Some(v) => self@.contains_key(k@) && v@ == self@[k@],
                None => !self@.contains_key(k@),
            },
    {
        proof {
            use_type_invariant(self);
        }
        match self.find(k) {
            Some(i) => {
                proof {
                    lemma_items_map_index(self.items(), i as int);
                }
                Some(&self.entries[i].1)
            },
            None => None,
        }
    }

    /// Whether a value is stored under a key.
    pub fn contains_key(&self, k: &Key) -> (r: bool)
        ensures
            r == self@.contains_key(k@),
    {
        proof {
            use_type_invariant(self);
        }
        match self.find(k) {
            Some(i) => {
                proof {
                    lemma_items_map_index(self.items(), i as int);
                }
                true
            },
            None => false,
        }
    }

    /// Stores a value under a key, replacing any value stored there.
    pub fn insert(&mut self, k: Key, v: V)
        ensures
            final(self)@ == old(self)@.insert(k@, v@),
            final(self).items() == items_insert(old(self).items(), k@, v@),
    {
        proof {
            use_type_invariant(&*self);
        }
        let ghost old_items = self.items();
        match self.find(&k) {
            Some(i) => {
                proof {
                    lemma_items_map_update(old_items, i as int, v@);
                    let j = choose|j: int| 0 <= j < old_items.len() && #[trigger] old_items[j].0
                        == k@;
                    assert(old_items[i as int].0 == k@);
                    assert(j == i);
                }
                let mut entries = Vec::new();
                std::mem::swap(&mut entries, &mut self.entries);
                entries.set(i, (k, v));
                assert(Self::entries_items(entries@) =~= old_items.update(i as int, (k@, v@)));
                self.entries = entries;
            },
            None => {
                proof {
                    lemma_items_map_push(old_items, k@, v@);
                }
                let mut entries = Vec::new();
                std::mem::swap(&mut entries, &mut self.entries);
                entries.push((k, v));
                assert(Self::entries_items(entries@) =~= old_items.push((k@, v@)));
                self.entries = entries;
            },
        }
    }

    /// Removes whatever is stored under a key.
    pub fn remove(&mut self, k: &Key)
        ensures
            final(self)@ == old(self)@.remove(k@),
    {
        proof {
            use_type_invariant(&*self);
        }
        let ghost old_items = self.items();
        match self.find(k) {
            Some(i) => {
                proof {
                    lemma_items_map_remove(old_items, i as int);
                }
                let mut entries = Vec::new();
                std::mem::swap(&mut entries, &mut self.entries);
                entries.remove(i);
                assert(Self::entries_items(entries@) =~= old_items.remove(i as int));
                self.entries = entries;
            },
            None => {
                assert(old(self)@.remove(k@) =~= old(self)@);
            },
        }
    }

    /// Removes every entry.
    pub fn clear(&mut self)
        ensures
            final(self)@ == Map::<KeyView, V::V>::empty(),
            final(self).items() == Seq::<(KeyView, V::V)>::empty(),
    {
        self.entries = Vec::new();
        assert(self.items() =~= Seq::<(KeyView, V::V)>::empty());
        assert(self@ =~= Map::<KeyView, V::V>::empty());
    }
}

} // verus!

verus! {

/// Growing a prefix of a list with unique keys by one entry inserts that entry.
pub proof fn lemma_items_map_take_step<W>(items: Seq<(KeyView, W)>, j: int)
    requires
        unique_keys(items),
        0 <= j < items.len(),
    ensures
        unique_keys(items.take(j)),
        items_map(items.take(j + 1)) == items_map(items.take(j)).insert(items[j].0, items[j].1),
{
    let p = items.take(j);
    assert forall|a: int, b: int|
        0 <= a < p.len() && 0 <= b < p.len() && a != b implies #[trigger] p[a].0 != #[trigger] p[b].0 by {
        assert(p[a] == items[a]);
        assert(p[b] == items[b]);
    }
    assert(!items_map(p).contains_key(items[j].0)) by {
        if items_map(p).contains_key(items[j].0) {
            let a = choose|a: int| 0 <= a < p.len() && #[trigger] p[a].0 == items[j].0;
            assert(items[a].0 == items[j].0);
        }
    }
    lemma_items_map_push(p, items[j].0, items[j].1);
    assert(p.push(items[j]) =~= items.take(j + 1));
}

/// The whole list is the last of its prefixes.
pub proof fn lemma_take_all<W>(items: Seq<W>)
    ensures
        items.take(items.len() as int) == items,
{
    assert(items.take(items.len() as int) =~= items);
}

} // verus!
