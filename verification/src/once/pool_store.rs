//! Storage for the events of a pool, found by the keys of a `pinned_pool::PinnedPool`.
use pinned_pool::{Key, PinnedPool};
use vstd::prelude::*;
use vstd::relations::injective_on;
use vstd::set_lib::{lemma_int_range, lemma_len_subset, lemma_map_size, set_int_range};

verus! {

/// `pinned_pool::PinnedPool`, an object pool that hands out a key for each item.
#[verifier::external_type_specification]
#[verifier::external_body]
#[verifier::reject_recursive_types(T)]
pub struct ExPinnedPool<T>(pinned_pool::PinnedPool<T>);

/// `pinned_pool::Key`, by which an item of a pool is found again.
#[verifier::external_type_specification]
#[verifier::external_body]
pub struct ExKey(pinned_pool::Key);

/// The items in a pool, each under its key.
pub uninterp spec fn pool_contents(pool: PinnedPool<u64>) -> Map<Key, u64>;

/// What a pool holds that is empty.
pub open spec fn no_items() -> Map<Key, u64> {
    Map::empty()
}

/// Calls `PinnedPool::new`: the pool starts empty.
#[verifier::external_body]
fn pool_new() -> (r: PinnedPool<u64>)
    ensures
        pool_contents(r) == no_items(),
{
    PinnedPool::new()
}

/// Calls `PinnedPool::insert`: the item is added under a key that was not in use.
#[verifier::external_body]
fn pool_insert(pool: &mut PinnedPool<u64>, value: u64) -> (r: Key)
    ensures
        !pool_contents(*old(pool)).contains_key(r),
        pool_contents(*final(pool)) == pool_contents(*old(pool)).insert(r, value),
{
    pool.insert(value)
}

/// Calls `PinnedPool::get`, which panics if the key is not associated with an item, and copies
/// the item.
#[verifier::external_body]
fn pool_get(pool: &PinnedPool<u64>, key: Key) -> (r: u64)
    requires
        pool_contents(*pool).contains_key(key),
    ensures
        r == pool_contents(*pool)[key],
{
    *pool.get(key)
}

/// Calls `PinnedPool::remove`, which panics if the key is not associated with an item: the item
/// is removed and all others stay.
#[verifier::external_body]
fn pool_remove(pool: &mut PinnedPool<u64>, key: Key)
    requires
        pool_contents(*old(pool)).contains_key(key),
    ensures
        pool_contents(*final(pool)) == pool_contents(*old(pool)).remove(key),
{
    pool.remove(key);
}

/// Calls `PinnedPool::len`: the number of items in the pool.
#[verifier::external_body]
fn pool_len(pool: &PinnedPool<u64>) -> (r: usize)
    ensures
        r == pool_contents(*pool).dom().len(),
{
    pool.len()
}

/// Calls `PinnedPool::is_empty`: whether the pool holds no item.
#[verifier::external_body]
fn pool_is_empty(pool: &PinnedPool<u64>) -> (r: bool)
    ensures
        r == (pool_contents(*pool).dom().len() == 0),
{
    pool.is_empty()
}

/// Calls `PinnedPool::shrink_to_fit`, which releases unused capacity and keeps every item.
#[verifier::external_body]
fn pool_shrink_to_fit(pool: &mut PinnedPool<u64>)
    ensures
        pool_contents(*final(pool)) == pool_contents(*old(pool)),
{
    pool.shrink_to_fit();
}

/// Calls `PinnedPool::capacity`: the pool has room for at least the items in it. How much more room
/// it has is not stated here.
#[verifier::external_body]
fn pool_capacity(pool: &PinnedPool<u64>) -> (r: usize)
    ensures
        r >= pool_contents(*pool).dom().len(),
{
    pool.capacity()
}

/// `items` are the items of a pool, each of them once.
pub open spec fn lists_items(items: Seq<u64>, contents: Map<Key, u64>) -> bool {
    exists|keys: Seq<Key>|
        {
            &&& #[trigger] keys.no_duplicates()
            &&& forall|key: Key| keys.contains(key) <==> #[trigger] contents.contains_key(key)
            &&& items == keys.map_values(|key: Key| contents[key])
        }
}

/// Calls `PinnedPool::iter` and copies what it walks: every item once, in an order that is not
/// stated here.
#[verifier::external_body]
fn pool_items(pool: &PinnedPool<u64>) -> (r: Vec<u64>)
    ensures
        lists_items(r@, pool_contents(*pool)),
{
    pool.iter().map(|item| *item.get_ref()).collect()
}

/// Values that are each found by a key.
///
/// The pool says under which key which place of `items` is found, and which keys are free.
pub struct PoolStore<V> {
    pool: PinnedPool<u64>,
    items: Vec<Option<V>>,
}

impl<V> View for PoolStore<V> {
    type V = Map<Key, V>;

    closed spec fn view(&self) -> Map<Key, V> {
        Map::new(
            |key: Key| pool_contents(self.pool).contains_key(key),
            |key: Key| self.items@[pool_contents(self.pool)[key] as int]->0,
        )
    }
}

impl<V> PoolStore<V> {
    /// How many places for values the store keeps, filled or vacant.
    pub closed spec fn room(self) -> nat {
        self.items@.len()
    }

    /// The place of the value under a key in use, counted from 0.
    pub closed spec fn place(self, key: Key) -> nat {
        pool_contents(self.pool)[key] as nat
    }

    /// The store keeps no vacant places behind the last that is filled.
    pub open spec fn is_compact(self) -> bool {
        self.room() > 0 ==> exists|key: Key|
            self@.contains_key(key) && #[trigger] self.place(key) == self.room() - 1
    }

    /// Each key in use leads to a filled place of its own, and each filled place has its key.
    pub closed spec fn wf(self) -> bool {
        let contents = pool_contents(self.pool);
        &&& contents.dom().finite()
        &&& forall|key: Key| #[trigger]
            contents.contains_key(key) ==> contents[key] < self.items.len()
                && self.items@[contents[key] as int] is Some
        &&& forall|a: Key, b: Key|
            contents.contains_key(a) && contents.contains_key(b) && a != b
                ==> #[trigger] contents[a] != #[trigger] contents[b]
        &&& forall|i: int|
            0 <= i < self.items.len() && #[trigger] self.items@[i] is Some ==> exists|key: Key|
                contents.contains_key(key) && #[trigger] contents[key] == i
    }

    /// Each value has a place of its own among those that the store keeps.
    pub proof fn law_places_are_distinct(&self, a: Key, b: Key)
        requires
            self.wf(),
            self@.contains_key(a),
            self@.contains_key(b),
        ensures
            self.place(a) < self.room(),
            a != b ==> self.place(a) != self.place(b),
    {
        assert(pool_contents(self.pool).contains_key(a));
        assert(pool_contents(self.pool).contains_key(b));
    }

    /// An empty store.
    pub fn new() -> (r: Self)
        ensures
            r.wf(),
            r@ == Map::<Key, V>::empty(),
            r.room() == 0,
    {
        let r = PoolStore { pool: pool_new(), items: Vec::new() };
        proof {
            assert(r@ =~= Map::<Key, V>::empty());
        }
        r
    }

    /// The values fill the places that are not vacant, each its own: there is a vacant place if
    /// and only if there are more places than values.
    proof fn lemma_room(&self)
        requires
            self.wf(),
        ensures
            self@.dom().finite(),
            self@.dom().len() <= self.room(),
            forall|i: int|
                0 <= i < self.items.len() && #[trigger] self.items@[i] is None ==> self@.dom().len()
                    < self.room(),
            (forall|i: int| 0 <= i < self.items.len() ==> #[trigger] self.items@[i] is Some)
                ==> self@.dom().len() == self.room(),
    {
        let contents = pool_contents(self.pool);
        let f = |key: Key| contents[key] as int;
        let all = set_int_range(0, self.items.len() as int);
        let filled = contents.dom().map(f);
        assert(self@.dom() =~= contents.dom());
        lemma_int_range(0, self.items.len() as int);
        assert(injective_on(f, contents.dom()));
        lemma_map_size(contents.dom(), filled, f);
        assert forall|i: int| filled.contains(i) implies all.contains(i)
            && self.items@[i] is Some by {
            let key = choose|key: Key| contents.dom().contains(key) && f(key) == i;
            assert(contents.contains_key(key));
        }
        lemma_len_subset(filled, all);
        assert forall|i: int|
            0 <= i < self.items.len() && #[trigger] self.items@[i] is None implies self@.dom().len()
            < self.room() by {
            filled.lemma_subset_not_in_lt(all, i);
        }
        if forall|i: int| 0 <= i < self.items.len() ==> #[trigger] self.items@[i] is Some {
            assert forall|i: int| all.contains(i) implies filled.contains(i) by {
                assert(self.items@[i] is Some);
                let key = choose|key: Key|
                    contents.contains_key(key) && #[trigger] contents[key] == i;
                assert(contents.dom().contains(key) && f(key) == i);
            }
            assert(filled =~= all);
        }
    }

    fn find_free(&self) -> (r: usize)
        ensures
            r <= self.items.len(),
            r < self.items.len() ==> self.items@[r as int] is None,
            forall|i: int| 0 <= i < r ==> #[trigger] self.items@[i] is Some,
    {
        let mut i: usize = 0;
        while i < self.items.len()
            invariant
                i <= self.items.len(),
                forall|j: int| 0 <= j < i ==> #[trigger] self.items@[j] is Some,
            decreases self.items.len() - i,
        {
            if self.items[i].is_none() {
                return i;
            }
            i += 1;
        }
        i
    }

    /// Adds a value under a fresh key. It goes to a vacant place; only if there is none, the store
    /// grows by one.
    pub fn insert(&mut self, value: V) -> (r: Key)
        requires
            old(self).wf(),
        ensures
            final(self).wf(),
            !old(self)@.contains_key(r),
            final(self)@ == old(self)@.insert(r, value),
            forall|key: Key| #[trigger]
                old(self)@.contains_key(key) ==> final(self).place(key) == old(self).place(key),
            final(self).room() == if old(self).room() > old(self)@.dom().len() {
                old(self).room()
            } else {
                old(self).room() + 1
            },
    {
        let ghost pre = *self;
        proof {
            self.lemma_room();
        }
        let at: usize = self.find_free();
        if at == self.items.len() {
            self.items.push(Some(value));
        } else {
            self.items[at] = Some(value);
        }
        let key = pool_insert(&mut self.pool, at as u64);
        proof {
            let contents = pool_contents(self.pool);
            let before = pool_contents(pre.pool);
            assert(contents.dom() =~= before.dom().insert(key));
            assert forall|k: Key| #[trigger] contents.contains_key(k) implies contents[k]
                < self.items.len() && self.items@[contents[k] as int] is Some && (k != key
                ==> before.contains_key(k) && contents[k] == before[k] && before[k] != at
                && self.items@[before[k] as int] == pre.items@[before[k] as int]) by {
                if k != key {
                    assert(before.contains_key(k));
                }
            }
            assert forall|i: int|
                0 <= i < self.items.len() && #[trigger] self.items@[i] is Some implies exists|
                k: Key|
                contents.contains_key(k) && #[trigger] contents[k] == i by {
                if i == at {
                    assert(contents.contains_key(key) && contents[key] == i);
                } else {
                    assert(pre.items@[i] is Some);
                    let k = choose|k: Key|
                        before.contains_key(k) && #[trigger] before[k] == i;
                    assert(contents.contains_key(k) && contents[k] == i);
                }
            }
            assert(self@ =~= pre@.insert(key, value));
        }
        key
    }

    /// The value under a key.
    pub fn get(&self, key: Key) -> (r: &V)
        requires
            self.wf(),
            self@.contains_key(key),
        ensures
            *r == self@[key],
    {
        let at: u64 = pool_get(&self.pool, key);
        match &self.items[at as usize] {
            Some(value) => value,
            None => vstd::pervasive::unreached(),
        }
    }

    /// The value under a key, to be changed.
    pub fn get_mut(&mut self, key: Key) -> (r: &mut V)
        requires
            old(self).wf(),
            old(self)@.contains_key(key),
        ensures
            *r == old(self)@[key],
            final(self).wf(),
            final(self)@ == old(self)@.insert(key, *final(r)),
            final(self).room() == old(self).room(),
            forall|other: Key| #[trigger]
                old(self)@.contains_key(other) ==> final(self).place(other) == old(self).place(
                    other,
                ),
    {
        let at: u64 = pool_get(&self.pool, key);
        match &mut self.items[at as usize] {
            Some(value) => value,
            None => vstd::pervasive::unreached(),
        }
    }

    /// Removes a key and hands out the value under it.
    pub fn remove(&mut self, key: Key) -> (r: V)
        requires
            old(self).wf(),
            old(self)@.contains_key(key),
        ensures
            final(self).wf(),
            r == old(self)@[key],
            final(self)@ == old(self)@.remove(key),
            final(self).room() == old(self).room(),
            forall|other: Key| #[trigger]
                final(self)@.contains_key(other) ==> final(self).place(other) == old(self).place(
                    other,
                ),
    {
        let ghost pre = *self;
        let at: u64 = pool_get(&self.pool, key);
        pool_remove(&mut self.pool, key);
        let mut value: Option<V> = None;
        core::mem::swap(&mut self.items[at as usize], &mut value);
        proof {
            let contents = pool_contents(self.pool);
            let before = pool_contents(pre.pool);
            assert(contents.dom() =~= before.dom().remove(key));
            assert forall|k: Key| #[trigger] contents.contains_key(k) implies contents[k]
                < self.items.len() && self.items@[contents[k] as int] is Some
                && before.contains_key(k) && contents[k] == before[k]
                && self.items@[before[k] as int] == pre.items@[before[k] as int] by {
                assert(before.contains_key(k) && k != key);
                assert(before[k] != before[key]);
            }
            assert forall|i: int|
                0 <= i < self.items.len() && #[trigger] self.items@[i] is Some implies exists|
                k: Key|
                contents.contains_key(k) && #[trigger] contents[k] == i by {
                assert(i != at);
                assert(pre.items@[i] is Some);
                let k = choose|k: Key| before.contains_key(k) && #[trigger] before[k] == i;
                assert(contents.contains_key(k) && contents[k] == i);
            }
            assert(self@ =~= pre@.remove(key));
        }
        match value {
            Some(value) => value,
            None => vstd::pervasive::unreached(),
        }
    }

    /// How many values there are.
    pub fn len(&self) -> (r: usize)
        requires
            self.wf(),
        ensures
            self@.dom().finite(),
            r == self@.dom().len(),
    {
        proof {
            assert(self@.dom() =~= pool_contents(self.pool).dom());
        }
        pool_len(&self.pool)
    }

    /// Whether there are no values.
    pub fn is_empty(&self) -> (r: bool)
        requires
            self.wf(),
        ensures
            r == (self@ == Map::<Key, V>::empty()),
    {
        proof {
            assert(self@.dom() =~= pool_contents(self.pool).dom());
            if self@.dom().len() == 0 {
                assert(self@ =~= Map::<Key, V>::empty());
            }
        }
        pool_is_empty(&self.pool)
    }

    /// How many values there is room for. More room than for the values that are there is not
    /// promised.
    pub fn capacity(&self) -> (r: usize)
        requires
            self.wf(),
        ensures
            r >= self@.dom().len(),
    {
        proof {
            assert(self@.dom() =~= pool_contents(self.pool).dom());
        }
        pool_capacity(&self.pool)
    }

    /// Releases unused storage: the places behind the last that is filled are given up. Every
    /// value stays under its key and in its place.
    pub fn shrink_to_fit(&mut self)
        requires
            old(self).wf(),
        ensures
            final(self).wf(),
            final(self)@ == old(self)@,
            forall|key: Key| #[trigger]
                final(self)@.contains_key(key) ==> final(self).place(key) == old(self).place(key),
            final(self).room() <= old(self).room(),
            final(self).is_compact(),
    {
        let ghost pre = *self;
        while self.items.len() > 0 && self.items[self.items.len() - 1].is_none()
            invariant
                self.wf(),
                self.pool == pre.pool,
                self.items.len() <= pre.items.len(),
                self.items@ == pre.items@.subrange(0, self.items.len() as int),
                self@ == pre@,
            decreases self.items.len(),
        {
            let ghost before = *self;
            self.items.pop();
            proof {
                let contents = pool_contents(self.pool);
                assert forall|key: Key| #[trigger] contents.contains_key(key) implies contents[key]
                    < self.items.len() && self.items@[contents[key] as int]
                    == before.items@[contents[key] as int] by {
                    assert(before.items@[contents[key] as int] is Some);
                }
                assert forall|i: int|
                    0 <= i < self.items.len() && #[trigger] self.items@[i] is Some implies exists|
                    key: Key|
                    contents.contains_key(key) && #[trigger] contents[key] == i by {
                    assert(before.items@[i] is Some);
                }
                assert(self@ =~= before@);
                assert(self.items@ =~= pre.items@.subrange(0, self.items.len() as int));
            }
        }
        let ghost trimmed = *self;
        // Popping keeps what was allocated: the places move to storage of their size.
        let len: usize = self.items.len();
        let mut kept: Vec<Option<V>> = Vec::with_capacity(len);
        let mut i: usize = 0;
        while i < len
            invariant
                i <= len,
                len == trimmed.items@.len(),
                self.pool == trimmed.pool,
                self.items@.len() == len,
                kept@ == trimmed.items@.subrange(0, i as int),
                forall|j: int| i <= j < len ==> #[trigger] self.items@[j] == trimmed.items@[j],
            decreases len - i,
        {
            let item = self.items[i].take();
            kept.push(item);
            i += 1;
            proof {
                assert(kept@ =~= trimmed.items@.subrange(0, i as int));
            }
        }
        self.items = kept;
        proof {
            assert(self.items@ =~= trimmed.items@);
            assert(self@ =~= trimmed@);
        }
        pool_shrink_to_fit(&mut self.pool);
        proof {
            assert(self@ =~= trimmed@);
            if self.room() > 0 {
                let contents = pool_contents(self.pool);
                let last = self.items@.len() - 1;
                assert(trimmed.items@[last] is Some);
                let key = choose|key: Key|
                    contents.contains_key(key) && #[trigger] contents[key] == last;
                assert(self@.contains_key(key) && self.place(key) == self.room() - 1);
            }
        }
    }

    /// All values, each of them once.
    pub fn values<'a>(&'a self) -> (r: Vec<&'a V>)
        requires
            self.wf(),
        ensures
            lists_values(r@, self@),
    {
        let places = pool_items(&self.pool);
        let ghost contents = pool_contents(self.pool);
        let ghost keys = choose|keys: Seq<Key>|
            {
                &&& #[trigger] keys.no_duplicates()
                &&& forall|key: Key| keys.contains(key) <==> #[trigger] contents.contains_key(key)
                &&& places@ == keys.map_values(|key: Key| contents[key])
            };
        let mut values: Vec<&'a V> = Vec::new();
        let mut i: usize = 0;
        while i < places.len()
            invariant
                self.wf(),
                contents == pool_contents(self.pool),
                i <= places.len(),
                values@.len() == i,
                keys.no_duplicates(),
                forall|key: Key| keys.contains(key) <==> #[trigger] contents.contains_key(key),
                places@ == keys.map_values(|key: Key| contents[key]),
                forall|j: int| 0 <= j < i ==> *(#[trigger] values@[j]) == self@[keys[j]],
            decreases places.len() - i,
        {
            proof {
                assert(keys.contains(keys[i as int]));
                assert(contents.contains_key(keys[i as int]));
                assert(places@[i as int] == contents[keys[i as int]]);
            }
            match &self.items[places[i] as usize] {
                Some(value) => values.push(value),
                None => {},
            }
            i += 1;
        }
        proof {
            assert forall|key: Key| keys.contains(key) <==> #[trigger] self@.contains_key(key) by {
                assert(keys.contains(key) <==> contents.contains_key(key));
            }
        }
        values
    }
}

/// `values` are the values of a store, each of them once.
pub open spec fn lists_values<V>(values: Seq<&V>, store: Map<Key, V>) -> bool {
    exists|keys: Seq<Key>|
        {
            &&& #[trigger] keys.no_duplicates()
            &&& forall|key: Key| keys.contains(key) <==> #[trigger] store.contains_key(key)
            &&& values.len() == keys.len()
            &&& forall|i: int| 0 <= i < keys.len() ==> *(#[trigger] values[i]) == store[keys[i]]
        }
}

/// What is listed is the value under each key in use, once, and nothing else: the keys can be put in
/// the order of the list.
pub proof fn law_listed_values_are_those_stored<V>(values: Seq<&V>, store: Map<Key, V>) -> (keys: Seq<
    Key,
>)
    requires
        lists_values(values, store),
    ensures
        keys.len() == values.len(),
        forall|i: int, j: int|
            0 <= i < j < keys.len() ==> #[trigger] keys[i] != #[trigger] keys[j],
        forall|i: int|
            0 <= i < keys.len() ==> store.contains_key(#[trigger] keys[i]) && *values[i]
                == store[keys[i]],
        forall|key: Key| #[trigger]
            store.contains_key(key) ==> exists|i: int| 0 <= i < keys.len() && keys[i] == key,
{
    let keys = choose|keys: Seq<Key>|
        {
            &&& #[trigger] keys.no_duplicates()
            &&& forall|key: Key| keys.contains(key) <==> #[trigger] store.contains_key(key)
            &&& values.len() == keys.len()
            &&& forall|i: int| 0 <= i < keys.len() ==> *(#[trigger] values[i]) == store[keys[i]]
        };
    assert forall|i: int| 0 <= i < keys.len() implies store.contains_key(#[trigger] keys[i])
        && *values[i] == store[keys[i]] by {
        assert(keys.contains(keys[i]));
        assert(*values[i] == store[keys[i]]);
    }
    assert forall|key: Key| #[trigger] store.contains_key(key) implies exists|i: int|
        0 <= i < keys.len() && keys[i] == key by {
        assert(keys.contains(key));
    }
    keys
}

/// A compact store has a value in its last place, so that an empty one keeps no place.
pub proof fn law_compact_store_ends_with_a_value<V>(store: PoolStore<V>)
    requires
        store.is_compact(),
    ensures
        store.room() > 0 ==> exists|key: Key| #[trigger]
            store@.contains_key(key) && store.place(key) + 1 == store.room(),
        store@ == Map::<Key, V>::empty() ==> store.room() == 0,
{
    if store.room() > 0 {
        let key = choose|key: Key|
            store@.contains_key(key) && #[trigger] store.place(key) == store.room() - 1;
        assert(store@.contains_key(key) && store.place(key) + 1 == store.room());
    }
}

} // verus!
