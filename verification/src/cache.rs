use vstd::prelude::*;
use std::collections::HashMap;
use vstd::std_specs::hash::obeys_key_model;

verus! {

broadcast use vstd::std_specs::hash::group_hash_axioms;

/// A memoizing cache around a computation function.
///
/// The cache owns the function handed to [`Cacher::new`] and a map from keys
/// to the values already computed.  Each distinct key is handed to the
/// function at most once over the cache's lifetime; later queries for the
/// same key return the stored value unchanged.  Entries are never evicted.
pub struct Cacher<T, Key, Value> where Key: Eq + std::hash::Hash + Copy, Value: Copy {
    calculation: T,
    value: HashMap<Key, Value>,
}

impl<T, Key, Value> Cacher<T, Key, Value> where Key: Eq + std::hash::Hash + Copy, Value: Copy {
    /// The mapping of keys to stored values, as a mathematical map.
    pub closed spec fn view(&self) -> Map<Key, Value> {
        self.value@
    }

    /// The computation function the cache was constructed around.
    pub closed spec fn func(&self) -> T {
        self.calculation
    }
}

impl<T, Key, Value> Cacher<T, Key, Value> where
    T: Fn(Key) -> Value,
    Key: Eq + std::hash::Hash + Copy,
    Value: Copy,
 {
    /// Every stored value is one the computation function can return for its
    /// key: the invariant that [`Cacher::value`] maintains.
    pub closed spec fn wf(&self) -> bool {
        &&& obeys_key_model::<Key>()
        &&& forall|k: Key| #[trigger]
            self@.contains_key(k) ==> call_ensures(self.calculation, (k,), self@[k])
    }

    /// Builds an empty cache around `calculation`.
    pub fn new(calculation: T) -> (r: Cacher<T, Key, Value>)
        requires
            obeys_key_model::<Key>(),
        ensures
            r.wf(),
            r@ == Map::<Key, Value>::empty(),
            r.func() == calculation,
    {
        Cacher { calculation, value: HashMap::new() }
    }

    /// Looks `arg` up; on a miss, computes the value once and stores it.
    ///
    /// On a hit the map is left exactly as it was and the stored value is
    /// returned, so the computation runs at most once per distinct key.
    pub fn value(&mut self, arg: Key) -> (result: Value)
        requires
            old(self).wf(),
            call_requires(old(self).func(), (arg,)),
        ensures
            final(self).wf(),
            final(self).func() == old(self).func(),
            call_ensures(old(self).func(), (arg,), result),
            old(self)@.contains_key(arg) ==> final(self)@ == old(self)@ && result == old(
                self,
            )@[arg],
            !old(self)@.contains_key(arg) ==> final(self)@ == old(self)@.insert(arg, result),
    {
        match self.value.get(&arg) {
            Some(v) => {
                proof {
                    assert(old(self)@.contains_key(arg));
                }
                *v
            },
            None => {
                let v = (self.calculation)(arg);
                self.value.insert(arg, v);
                proof {
                    assert(self@ == old(self)@.insert(arg, v));
                    assert(forall|k: Key| #[trigger]
                        self@.contains_key(k) && k != arg ==> old(self)@.contains_key(k) && self@[k]
                            == old(self)@[k]);
                }
                v
            },
        }
    }
}

/// Every stored value is one the computation function can return wrapped in
/// `Ok` for its key: the invariant that [`try_value`] maintains.
pub closed spec fn fallible_wf<T, Key, Value, E>(c: &Cacher<T, Key, Value>) -> bool where
    T: Fn(Key) -> Result<Value, E>,
    Key: Eq + std::hash::Hash + Copy,
    Value: Copy,
 {
    &&& obeys_key_model::<Key>()
    &&& forall|k: Key| #[trigger]
        c@.contains_key(k) ==> call_ensures(c.func(), (k,), Ok::<Value, E>(c@[k]))
}

/// Builds an empty cache around a computation that can fail.
pub fn new_fallible<T, Key, Value, E>(calculation: T) -> (r: Cacher<T, Key, Value>) where
    T: Fn(Key) -> Result<Value, E>,
    Key: Eq + std::hash::Hash + Copy,
    Value: Copy,

    requires
        obeys_key_model::<Key>(),
    ensures
        fallible_wf(&r),
        r@ == Map::<Key, Value>::empty(),
        r.func() == calculation,
{
    Cacher { calculation, value: HashMap::new() }
}

/// Looks `arg` up in a cache around a fallible computation; on a miss, runs
/// the computation once and stores the value only when it succeeds.
///
/// A failure propagates unchanged and leaves the map exactly as it was, so
/// no entry is ever stored for a key whose computation failed, and a later
/// query for that key runs the computation again.
pub fn try_value<T, Key, Value, E>(c: &mut Cacher<T, Key, Value>, arg: Key) -> (result: Result<
    Value,
    E,
>) where T: Fn(Key) -> Result<Value, E>, Key: Eq + std::hash::Hash + Copy, Value: Copy
    requires
        fallible_wf(old(c)),
        call_requires(old(c).func(), (arg,)),
    ensures
        fallible_wf(final(c)),
        final(c).func() == old(c).func(),
        old(c)@.contains_key(arg) ==> (result matches Ok(v) && v == old(c)@[arg] && final(c)@
            == old(c)@),
        !old(c)@.contains_key(arg) ==> (result matches Ok(v) ==> final(c)@ == old(c)@.insert(
            arg,
            v,
        ) && call_ensures(old(c).func(), (arg,), Ok::<Value, E>(v))),
        result matches Err(e) ==> final(c)@ == old(c)@ && !old(c)@.contains_key(arg)
            && call_ensures(old(c).func(), (arg,), Err::<Value, E>(e)),
{
    match c.value.get(&arg) {
        Some(v) => {
            proof {
                assert(old(c)@.contains_key(arg));
            }
            Ok(*v)
        },
        None => {
            match (c.calculation)(arg) {
                Ok(v) => {
                    c.value.insert(arg, v);
                    proof {
                        assert(c@ == old(c)@.insert(arg, v));
                        assert(forall|k: Key| #[trigger]
                            c@.contains_key(k) && k != arg ==> old(c)@.contains_key(k) && c@[k]
                                == old(c)@[k]);
                    }
                    Ok(v)
                },
                Err(e) => Err(e),
            }
        },
    }
}

/// Memoization: once a missed query for `k` has stored its computed value
/// `v`, the map contains `k`, so a later query for `k` is a hit, which by
/// the contract of `value` returns exactly `v` and does not run the
/// computation again.
pub proof fn lemma_memoized_query_returns_first_value<Key, Value>(
    m: Map<Key, Value>,
    k: Key,
    v: Value,
)
    ensures
        m.insert(k, v).contains_key(k),
        m.insert(k, v)[k] == v,
{
}

/// Distinct keys are independent: storing a computed value under `k1`
/// neither creates nor changes an entry for a different key `k2`.  A
/// following query for `k2` therefore still misses (and runs the
/// computation on `k2`) or still returns the value stored for `k2`.
pub proof fn lemma_distinct_keys_independent<Key, Value>(
    m: Map<Key, Value>,
    k1: Key,
    k2: Key,
    v1: Value,
)
    requires
        k1 != k2,
    ensures
        m.insert(k1, v1).contains_key(k2) == m.contains_key(k2),
        m.contains_key(k2) ==> m.insert(k1, v1)[k2] == m[k2],
{
}

/// The map after storing every entry of `entries`, in order.
pub open spec fn insert_all<Key, Value>(m: Map<Key, Value>, entries: Seq<(Key, Value)>) -> Map<
    Key,
    Value,
>
    decreases entries.len(),
{
    if entries.len() == 0 {
        m
    } else {
        insert_all(m, entries.drop_last()).insert(entries.last().0, entries.last().1)
    }
}

/// No eviction: an entry, once stored, survives any number of later
/// queries.  Storing computed values for any sequence of keys other than
/// `k0` leaves the entry for `k0` present and unchanged, so re-querying
/// `k0` afterwards still hits and returns its originally computed value.
pub proof fn lemma_no_eviction<Key, Value>(m: Map<Key, Value>, k0: Key, entries: Seq<(Key, Value)>)
    requires
        m.contains_key(k0),
        forall|i: int| 0 <= i < entries.len() ==> (#[trigger] entries[i]).0 != k0,
    ensures
        insert_all(m, entries).contains_key(k0),
        insert_all(m, entries)[k0] == m[k0],
    decreases entries.len(),
{
    if entries.len() > 0 {
        assert(forall|i: int|
            0 <= i < entries.len() - 1 ==> (#[trigger] entries.drop_last()[i]).0 != k0);
        lemma_no_eviction(m, k0, entries.drop_last());
    }
}

} // verus!
