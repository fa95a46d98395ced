//! A generation-tagged resource cache.
//!
//! [`GenerationalCache`] maps a cache key to a backend-owned resource
//! together with the generation at which the entry was last touched. The
//! generation clock advances once per rendered frame; an eviction pass run
//! at that moment removes every entry whose age — measured in wrapping
//! arithmetic, so the clock may wrap indefinitely — has reached the cache's
//! age limit. A cache with age limit zero is a per-frame scratch cache:
//! every entry is dropped by the pass that ends the frame it was touched in.

use vstd::prelude::*;

use crate::keys::CacheKey;
use crate::keys::Equivalent;
use crate::num::wrap_inc_spec;
use crate::num::wrap_sub_spec;
use crate::num::wrap_add_int;
use crate::num::lemma_wrap_round_trip;

verus! {

/// One cached resource and the generation at which it was last touched.
pub struct CacheEntry<T> {
    pub resource: T,
    pub last_touched_generation: u64,
}

struct Slot<K, T> {
    key: K,
    entry: CacheEntry<T>,
}

/// A cache from keys of type `K` to resources of type `T`, aged once per
/// frame by [`GenerationalCache::advance_generation`].
pub struct GenerationalCache<K: CacheKey, T> {
    slots: Vec<Slot<K, T>>,
    current_generation: u64,
    max_age: u64,
}

impl<K: CacheKey, T> GenerationalCache<K, T> {
    /// The abstract keys of a sequence of slots, in storage order.
    spec fn abs_of_seq(s: Seq<Slot<K, T>>) -> Seq<K::Abs> {
        s.map_values(|slot: Slot<K, T>| slot.key.abs())
    }

    /// The abstract key of each stored slot, in storage order.
    spec fn abs_seq(self) -> Seq<K::Abs> {
        Self::abs_of_seq(self.slots@)
    }

    /// Every stored key denotes a distinct abstract key.
    pub closed spec fn wf(self) -> bool {
        self.abs_seq().no_duplicates()
    }

    /// Whether some stored slot has abstract key `a`.
    spec fn has_key(self, a: K::Abs) -> bool {
        exists|i: int|
            0 <= i < self.slots@.len() && #[trigger] self.slots@[i].key.abs() == a
    }

    /// The index of the slot with abstract key `a`, when there is one.
    spec fn key_index(self, a: K::Abs) -> int {
        choose|i: int|
            0 <= i < self.slots@.len() && #[trigger] self.slots@[i].key.abs() == a
    }

    /// The entries of the cache, as a map from abstract keys.
    pub closed spec fn entries(self) -> Map<K::Abs, CacheEntry<T>> {
        Map::new(
            |a: K::Abs| self.has_key(a),
            |a: K::Abs| self.slots@[self.key_index(a)].entry,
        )
    }

    /// The generation clock: advanced once per rendered frame, wrapping.
    pub closed spec fn generation(self) -> u64 {
        self.current_generation
    }

    /// The age at which an untouched entry is evicted.
    pub closed spec fn age_limit(self) -> u64 {
        self.max_age
    }

    /// The resource stored under abstract key `a`, if any.
    pub open spec fn lookup(self, a: K::Abs) -> Option<T> {
        if self.entries().contains_key(a) {
            Some(self.entries()[a].resource)
        } else {
            None
        }
    }

    /// In a well-formed cache, the slot index holding a given abstract key
    /// is unique, so `key_index` returns exactly the index of any matching
    /// slot.
    proof fn lemma_key_index(self, i: int)
        requires
            self.wf(),
            0 <= i < self.slots@.len(),
        ensures
            self.has_key(self.slots@[i].key.abs()),
            self.key_index(self.slots@[i].key.abs()) == i,
    {
        let a = self.slots@[i].key.abs();
        assert(self.has_key(a));
        let j = self.key_index(a);
        assert(self.abs_seq()[i] == a);
        assert(self.abs_seq()[j] == a);
        if i != j {
            assert(false);
        }
    }

    /// Creates an empty cache whose untouched entries survive `max_age`
    /// eviction passes, with the generation clock at zero.
    pub fn new(max_age: u64) -> (r: Self)
        ensures
            r.wf(),
            r.entries() =~= Map::<K::Abs, CacheEntry<T>>::empty(),
            r.generation() == 0,
            r.age_limit() == max_age,
    {
        GenerationalCache { slots: Vec::new(), current_generation: 0, max_age }
    }

    /// Creates an empty cache whose generation clock starts at `generation`
    /// rather than zero, for callers that keep their own frame counter.
    pub fn with_generation(max_age: u64, generation: u64) -> (r: Self)
        ensures
            r.wf(),
            r.entries() =~= Map::<K::Abs, CacheEntry<T>>::empty(),
            r.generation() == generation,
            r.age_limit() == max_age,
    {
        GenerationalCache { slots: Vec::new(), current_generation: generation, max_age }
    }

    /// The number of live entries.
    pub fn len(&self) -> (r: usize)
        requires
            self.wf(),
        ensures
            self.entries().dom().finite(),
            r == self.entries().len(),
    {
        proof {
            self.lemma_entry_count();
        }
        self.slots.len()
    }

    /// Whether the cache holds no entries.
    pub fn is_empty(&self) -> (r: bool)
        requires
            self.wf(),
        ensures
            r <==> self.entries() =~= Map::<K::Abs, CacheEntry<T>>::empty(),
    {
        proof {
            if self.slots@.len() == 0 {
                assert(self.entries() =~= Map::<K::Abs, CacheEntry<T>>::empty());
            } else {
                assert(self.slots@[0].key.abs() == self.slots@[0].key.abs());
                assert(self.has_key(self.slots@[0].key.abs()));
                assert(self.entries().contains_key(self.slots@[0].key.abs()));
            }
        }
        self.slots.len() == 0
    }

    /// The entry map of a well-formed cache is finite and holds one entry
    /// per stored slot.
    proof fn lemma_entry_count(self)
        requires
            self.wf(),
        ensures
            self.entries().dom().finite(),
            self.entries().len() == self.slots@.len(),
    {
        assert(self.entries().dom() =~= self.abs_seq().to_set()) by {
            assert forall|a: K::Abs| self.has_key(a) implies self.abs_seq().to_set().contains(a) by {
                let i = choose|i: int|
                    0 <= i < self.slots@.len() && #[trigger] self.slots@[i].key.abs() == a;
                assert(self.abs_seq()[i] == a);
            };
            assert forall|a: K::Abs| self.abs_seq().to_set().contains(a) implies self.has_key(a) by {
                let i = choose|i: int| 0 <= i < self.abs_seq().len() && self.abs_seq()[i] == a;
                assert(self.slots@[i].key.abs() == a);
            };
        }
        self.abs_seq().unique_seq_to_set();
    }

    /// Finds the index of the slot matching `key`, scanning in storage
    /// order.
    fn find_index<Q: Equivalent<K>>(&self, key: &Q) -> (r: Option<usize>)
        ensures
            match r {
                Some(i) => 0 <= i < self.slots@.len() && self.slots@[i as int].key.abs()
                    == key.probe_abs(),
                None => !self.has_key(key.probe_abs()),
            },
    {
        let n = self.slots.len();
        let mut i: usize = 0;
        while i < n
            invariant
                n == self.slots@.len(),
                0 <= i <= n,
                forall|j: int| 0 <= j < i ==> #[trigger] self.slots@[j].key.abs()
                    != key.probe_abs(),
            decreases n - i,
        {
            if key.equivalent(&self.slots[i].key) {
                return Some(i);
            }
            i += 1;
        }
        None
    }

    /// Whether an entry for `key` is present. Does not touch generation
    /// bookkeeping.
    pub fn contains_key<Q: Equivalent<K>>(&self, key: &Q) -> (r: bool)
        requires
            self.wf(),
        ensures
            r == self.entries().contains_key(key.probe_abs()),
    {
        self.find_index(key).is_some()
    }

    /// Looks up `key`. On a hit, stamps the entry as touched at the current
    /// generation — so it survives the next eviction pass — and returns the
    /// stored resource; on a miss returns `None` and changes nothing.
    pub fn hit<'a, Q: Equivalent<K>>(&'a mut self, key: &Q) -> (r: Option<&'a T>)
        requires
            old(self).wf(),
        ensures
            final(self).wf(),
            final(self).generation() == old(self).generation(),
            final(self).age_limit() == old(self).age_limit(),
            match r {
                Some(resource) => {
                    &&& old(self).lookup(key.probe_abs()) == Some(*resource)
                    &&& final(self).entries() =~= old(self).entries().insert(
                        key.probe_abs(),
                        (CacheEntry {
                            resource: *resource,
                            last_touched_generation: old(self).generation(),
                        }),
                    )
                },
                None => {
                    &&& old(self).lookup(key.probe_abs()) is None
                    &&& *final(self) == *old(self)
                },
            },
    {
        let a = Ghost(key.probe_abs());
        match self.find_index(key) {
            Some(i) => {
                proof {
                    self.lemma_key_index(i as int);
                }
                let generation = self.current_generation;
                let mut slot = self.slots.remove(i);
                slot.entry.last_touched_generation = generation;
                self.slots.insert(i, slot);
                proof {
                    let pre = *old(self);
                    let post = *self;
                    assert(post.abs_seq() =~= pre.abs_seq());
                    assert forall|b: K::Abs| post.has_key(b) implies pre.has_key(b) by {
                        let j = choose|j: int|
                            0 <= j < post.slots@.len() && #[trigger] post.slots@[j].key.abs() == b;
                        assert(pre.slots@[j].key.abs() == b);
                    };
                    assert forall|b: K::Abs| pre.has_key(b) implies post.has_key(b) by {
                        let j = choose|j: int|
                            0 <= j < pre.slots@.len() && #[trigger] pre.slots@[j].key.abs() == b;
                        assert(post.slots@[j].key.abs() == b);
                    };
                    assert(post.entries() =~= pre.entries().insert(
                        a@,
                        (CacheEntry {
                            resource: post.slots@[i as int].entry.resource,
                            last_touched_generation: pre.current_generation,
                        }),
                    )) by {
                        assert forall|b: K::Abs| #[trigger] post.entries().contains_key(b) && b
                            != a@ implies post.entries()[b] == pre.entries()[b] by {
                            let j = post.key_index(b);
                            assert(post.slots@[j].key.abs() == b);
                            assert(j != i);
                            assert(pre.slots@[j].key.abs() == b);
                            pre.lemma_key_index(j);
                            post.lemma_key_index(j);
                        };
                        post.lemma_key_index(i as int);
                        pre.lemma_key_index(i as int);
                    }
                }
                let s: &Slot<K, T> = &self.slots[i];
                Some(&s.entry.resource)
            },
            None => {
                proof {
                    assert(!self.entries().contains_key(a@));
                }
                None
            },
        }
    }

    /// Stores `resource` under `key`, stamped as touched at the current
    /// generation. Overwrites any existing entry for that key.
    pub fn insert(&mut self, key: K, resource: T)
        requires
            old(self).wf(),
        ensures
            final(self).wf(),
            final(self).generation() == old(self).generation(),
            final(self).age_limit() == old(self).age_limit(),
            final(self).entries() =~= old(self).entries().insert(
                key.abs(),
                (CacheEntry { resource, last_touched_generation: old(self).generation() }),
            ),
    {
        let a = Ghost(key.abs());
        let generation = self.current_generation;
        let entry = CacheEntry { resource, last_touched_generation: generation };
        match self.find_index(&key) {
            Some(i) => {
                proof {
                    self.lemma_key_index(i as int);
                }
                self.slots.remove(i);
                self.slots.insert(i, Slot { key, entry });
                proof {
                    let pre = *old(self);
                    let post = *self;
                    assert(post.abs_seq() =~= pre.abs_seq());
                    assert forall|b: K::Abs| post.has_key(b) implies pre.has_key(b) by {
                        let j = choose|j: int|
                            0 <= j < post.slots@.len() && #[trigger] post.slots@[j].key.abs() == b;
                        assert(pre.slots@[j].key.abs() == b);
                    };
                    assert forall|b: K::Abs| pre.has_key(b) implies post.has_key(b) by {
                        let j = choose|j: int|
                            0 <= j < pre.slots@.len() && #[trigger] pre.slots@[j].key.abs() == b;
                        assert(post.slots@[j].key.abs() == b);
                    };
                    assert forall|b: K::Abs| #[trigger] post.entries().contains_key(b) && b != a@
                        implies post.entries()[b] == pre.entries()[b] by {
                        let j = post.key_index(b);
                        assert(post.slots@[j].key.abs() == b);
                        assert(j != i);
                        assert(pre.slots@[j].key.abs() == b);
                        pre.lemma_key_index(j);
                        post.lemma_key_index(j);
                    };
                    post.lemma_key_index(i as int);
                }
            },
            None => {
                proof {
                    assert(!self.has_key(a@));
                }
                self.slots.push(Slot { key, entry });
                proof {
                    let pre = *old(self);
                    let post = *self;
                    let n = pre.slots@.len() as int;
                    assert(post.abs_seq() =~= pre.abs_seq().push(a@));
                    assert(post.wf()) by {
                        assert forall|p: int, q: int|
                            0 <= p < q < post.abs_seq().len() implies post.abs_seq()[p]
                            != post.abs_seq()[q] by {
                            if q < n {
                                assert(pre.abs_seq()[p] != pre.abs_seq()[q]);
                            } else {
                                assert(post.abs_seq()[q] == a@);
                                assert(pre.slots@[p].key.abs() == post.abs_seq()[p]);
                                assert(post.abs_seq()[p] != a@);
                            }
                        };
                    }
                    assert forall|b: K::Abs| #[trigger] post.has_key(b) && b != a@
                        implies pre.has_key(b) by {
                        let j = choose|j: int|
                            0 <= j < post.slots@.len() && #[trigger] post.slots@[j].key.abs() == b;
                        assert(j != n);
                        assert(pre.slots@[j].key.abs() == b);
                    };
                    assert forall|b: K::Abs| pre.has_key(b) implies post.has_key(b) by {
                        let j = choose|j: int|
                            0 <= j < pre.slots@.len() && #[trigger] pre.slots@[j].key.abs() == b;
                        assert(post.slots@[j].key.abs() == b);
                    };
                    assert(post.slots@[n].key.abs() == a@);
                    assert(post.has_key(a@));
                    assert forall|b: K::Abs| #[trigger] post.entries().contains_key(b) && b != a@
                        implies post.entries()[b] == pre.entries()[b] by {
                        let j = post.key_index(b);
                        assert(post.slots@[j].key.abs() == b);
                        assert(j != n);
                        assert(pre.slots@[j].key.abs() == b);
                        pre.lemma_key_index(j);
                        post.lemma_key_index(j);
                    };
                    post.lemma_key_index(n);
                }
            },
        }
    }

    /// Whether an entry last touched at `stamp` survives the eviction pass
    /// run while the clock reads `generation`, in a cache with the given age
    /// limit.
    pub open spec fn survives(stamp: u64, generation: u64, max_age: u64) -> bool {
        wrap_sub_spec(generation, stamp) < max_age
    }

    /// How one eviction pass transforms the cache: the clock ticks once, and
    /// exactly the entries that had not yet reached the age limit remain,
    /// untouched.
    pub open spec fn advanced_from(post: Self, pre: Self) -> bool {
        &&& post.wf()
        &&& post.age_limit() == pre.age_limit()
        &&& post.generation() == wrap_inc_spec(pre.generation())
        &&& forall|a: K::Abs| #[trigger] post.entries().contains_key(a) <==> (
            pre.entries().contains_key(a) && Self::survives(
                pre.entries()[a].last_touched_generation,
                pre.generation(),
                pre.age_limit(),
            ))
        &&& forall|a: K::Abs| #[trigger] post.entries().contains_key(a) ==> post.entries()[a]
            == pre.entries()[a]
    }

    /// Runs one eviction pass: removes every entry whose age has reached the
    /// age limit — in wrapping arithmetic, so the clock may wrap freely —
    /// then ticks the generation clock. With an age limit of zero the pass
    /// clears the cache.
    pub fn advance_generation(&mut self)
        requires
            old(self).wf(),
        ensures
            Self::advanced_from(*final(self), *old(self)),
            old(self).age_limit() == 0 ==> final(self).entries() =~= Map::<
                K::Abs,
                CacheEntry<T>,
            >::empty(),
    {
        let generation = self.current_generation;
        let max_age = self.max_age;
        let mut pending: Vec<Slot<K, T>> = Vec::new();
        core::mem::swap(&mut self.slots, &mut pending);
        let ghost orig: Seq<Slot<K, T>> = pending@;
        let mut kept: Vec<Slot<K, T>> = Vec::new();
        let ghost mut idx: Seq<int> = Seq::empty();
        while pending.len() > 0
            invariant
                Self::abs_of_seq(orig).no_duplicates(),
                pending@ =~= orig.subrange(0, pending@.len() as int),
                pending@.len() <= orig.len(),
                Self::step_inv(orig, kept@, idx, pending@.len() as int, generation, max_age),
            decreases pending@.len(),
        {
            let ghost m: int = pending@.len() as int;
            let ghost kept0: Seq<Slot<K, T>> = kept@;
            let slot = pending.pop().unwrap();
            proof {
                assert(slot == orig[m - 1]);
                assert(pending@ =~= orig.subrange(0, m - 1));
            }
            let age = crate::num::wrap_sub_u64(generation, slot.entry.last_touched_generation);
            if age < max_age {
                kept.push(slot);
                proof {
                    Self::lemma_keep_step(orig, kept0, idx, m, generation, max_age);
                    idx = idx.push(m - 1);
                    assert(kept@ == kept0.push(orig[m - 1]));
                }
            } else {
                proof {
                    Self::lemma_drop_step(orig, kept0, idx, m, generation, max_age);
                }
            }
        }
        self.slots = kept;
        self.current_generation = crate::num::wrap_add_u64(generation, 1);
        proof {
            Self::lemma_rebuilt(*old(self), *self, orig, idx, generation, max_age);
        }
    }

    /// The invariant of the eviction pass: `kept` holds exactly the
    /// survivors of the already-processed suffix `orig[m ..]`, with no
    /// duplicated abstract keys; `idx` names, for each kept slot, the
    /// position in `orig` it was taken from.
    spec fn step_inv(
        orig: Seq<Slot<K, T>>,
        kept: Seq<Slot<K, T>>,
        idx: Seq<int>,
        m: int,
        generation: u64,
        max_age: u64,
    ) -> bool {
        &&& Self::abs_of_seq(kept).no_duplicates()
        &&& idx.len() == kept.len()
        &&& (forall|p: int| #![trigger idx[p]]
            0 <= p < kept.len() ==> m <= idx[p] < orig.len() && kept[p] == orig[idx[p]]
                && Self::survives(
                orig[idx[p]].entry.last_touched_generation,
                generation,
                max_age,
            ))
        &&& (forall|q: int| #![trigger orig[q]]
            m <= q < orig.len() && Self::survives(
                orig[q].entry.last_touched_generation,
                generation,
                max_age,
            ) ==> exists|p: int| #![trigger kept[p]] 0 <= p < kept.len() && kept[p] == orig[q])
    }

    /// One step of the eviction pass where the slot `orig[m - 1]` is still
    /// young and is carried over.
    proof fn lemma_keep_step(
        orig: Seq<Slot<K, T>>,
        kept0: Seq<Slot<K, T>>,
        idx0: Seq<int>,
        m: int,
        generation: u64,
        max_age: u64,
    )
        requires
            Self::abs_of_seq(orig).no_duplicates(),
            1 <= m <= orig.len(),
            Self::survives(orig[m - 1].entry.last_touched_generation, generation, max_age),
            Self::step_inv(orig, kept0, idx0, m, generation, max_age),
        ensures
            Self::step_inv(
                orig,
                kept0.push(orig[m - 1]),
                idx0.push(m - 1),
                m - 1,
                generation,
                max_age,
            ),
    {
        let slot = orig[m - 1];
        let kept1 = kept0.push(slot);
        let idx1 = idx0.push(m - 1);
        assert(Self::abs_of_seq(kept1).no_duplicates()) by {
            assert forall|p: int, r: int|
                0 <= p < r < Self::abs_of_seq(kept1).len() implies Self::abs_of_seq(kept1)[p]
                != Self::abs_of_seq(kept1)[r] by {
                assert(Self::abs_of_seq(kept1)[p] == kept1[p].key.abs());
                assert(Self::abs_of_seq(kept1)[r] == kept1[r].key.abs());
                if r < kept0.len() {
                    assert(Self::abs_of_seq(kept0)[p] == kept0[p].key.abs());
                    assert(Self::abs_of_seq(kept0)[r] == kept0[r].key.abs());
                } else {
                    assert(kept1[r] == slot);
                    let q = idx0[p];
                    assert(kept0[p] == orig[q]);
                    assert(Self::abs_of_seq(orig)[q] == orig[q].key.abs());
                    assert(Self::abs_of_seq(orig)[m - 1] == orig[m - 1].key.abs());
                }
            };
        }
        assert forall|p: int| #![trigger idx1[p]]
            0 <= p < kept1.len() implies m - 1 <= idx1[p] < orig.len() && kept1[p]
            == orig[idx1[p]] && Self::survives(
            orig[idx1[p]].entry.last_touched_generation,
            generation,
            max_age,
        ) by {
            if p < kept0.len() {
                assert(idx1[p] == idx0[p]);
                assert(kept1[p] == kept0[p]);
            } else {
                assert(idx1[p] == m - 1);
                assert(kept1[p] == slot);
            }
        };
        assert forall|q: int| #![trigger orig[q]]
            m - 1 <= q < orig.len() && Self::survives(
                orig[q].entry.last_touched_generation,
                generation,
                max_age,
            ) implies exists|p: int| #![trigger kept1[p]]
            0 <= p < kept1.len() && kept1[p] == orig[q] by {
            if q == m - 1 {
                assert(kept1[kept1.len() - 1] == orig[q]);
            } else {
                let p = choose|p: int| #![trigger kept0[p]] 0 <= p < kept0.len() && kept0[p]
                    == orig[q];
                assert(kept1[p] == orig[q]);
            }
        };
    }

    /// One step of the eviction pass where the slot `orig[m - 1]` has aged
    /// out and is dropped.
    proof fn lemma_drop_step(
        orig: Seq<Slot<K, T>>,
        kept0: Seq<Slot<K, T>>,
        idx0: Seq<int>,
        m: int,
        generation: u64,
        max_age: u64,
    )
        requires
            1 <= m <= orig.len(),
            !Self::survives(orig[m - 1].entry.last_touched_generation, generation, max_age),
            Self::step_inv(orig, kept0, idx0, m, generation, max_age),
        ensures
            Self::step_inv(orig, kept0, idx0, m - 1, generation, max_age),
    {
        assert forall|q: int| #![trigger orig[q]]
            m - 1 <= q < orig.len() && Self::survives(
                orig[q].entry.last_touched_generation,
                generation,
                max_age,
            ) implies exists|p: int| #![trigger kept0[p]]
            0 <= p < kept0.len() && kept0[p] == orig[q] by {
            assert(q != m - 1);
        };
    }

    /// Relates a cache rebuilt from the surviving slots of `orig` to the
    /// cache that held `orig`: the rebuilt entries are exactly the live
    /// entries of the original.
    proof fn lemma_rebuilt(
        pre: Self,
        post: Self,
        orig: Seq<Slot<K, T>>,
        idx: Seq<int>,
        generation: u64,
        max_age: u64,
    )
        requires
            pre.wf(),
            pre.slots@ == orig,
            pre.current_generation == generation,
            pre.max_age == max_age,
            post.current_generation == wrap_inc_spec(generation),
            post.max_age == max_age,
            Self::step_inv(orig, post.slots@, idx, 0, generation, max_age),
        ensures
            Self::advanced_from(post, pre),
            max_age == 0 ==> post.entries() =~= Map::<K::Abs, CacheEntry<T>>::empty(),
    {
        assert forall|a: K::Abs| #[trigger] post.entries().contains_key(a) implies (
            pre.entries().contains_key(a) && Self::survives(
                pre.entries()[a].last_touched_generation,
                pre.generation(),
                pre.age_limit(),
            ) && post.entries()[a] == pre.entries()[a]) by {
            let p = post.key_index(a);
            assert(post.slots@[p].key.abs() == a);
            let q = idx[p];
            assert(post.slots@[p] == orig[q]);
            assert(pre.slots@[q].key.abs() == a);
            pre.lemma_key_index(q);
            post.lemma_key_index(p);
        };
        assert forall|a: K::Abs| pre.entries().contains_key(a) && Self::survives(
            pre.entries()[a].last_touched_generation,
            pre.generation(),
            pre.age_limit(),
        ) implies #[trigger] post.entries().contains_key(a) by {
            let q = pre.key_index(a);
            assert(pre.slots@[q].key.abs() == a);
            pre.lemma_key_index(q);
            let p = choose|p: int|
                #![trigger post.slots@[p]]
                0 <= p < post.slots@.len() && post.slots@[p] == orig[q];
            assert(post.slots@[p].key.abs() == a);
        };
        if max_age == 0 {
            assert(post.entries() =~= Map::<K::Abs, CacheEntry<T>>::empty());
        }
    }

    /// A run of eviction passes: each state of the chain is one pass after
    /// the previous one.
    pub open spec fn aging_chain(chain: Seq<Self>) -> bool {
        forall|i: int|
            0 < i < chain.len() ==> #[trigger] Self::advanced_from(chain[i], chain[i - 1])
    }

    /// Law of untouched entries, lower half: through the first `age_limit`
    /// eviction passes after its stamp, the entry is still present and
    /// unchanged, and the clock reads `stamp + i` ticks in wrapping
    /// arithmetic.
    proof fn lemma_lifetime_present(chain: Seq<Self>, a: K::Abs, i: int)
        requires
            Self::aging_chain(chain),
            0 < chain.len(),
            chain[0].entries().contains_key(a),
            chain[0].entries()[a].last_touched_generation == chain[0].generation(),
            0 <= i < chain.len(),
            i <= chain[0].age_limit(),
        ensures
            chain[i].age_limit() == chain[0].age_limit(),
            chain[i].generation() == wrap_add_int(chain[0].generation(), i),
            chain[i].entries().contains_key(a),
            chain[i].entries()[a] == chain[0].entries()[a],
        decreases i,
    {
        let g = chain[0].generation();
        if i == 0 {
            assert(chain[0].generation() == wrap_add_int(g, 0)) by {
                crate::num::lemma_wrap_add_step(g, 0);
            }
        } else {
            Self::lemma_lifetime_present(chain, a, i - 1);
            assert(Self::advanced_from(chain[i], chain[i - 1]));
            assert(Self::survives(
                chain[i - 1].entries()[a].last_touched_generation,
                chain[i - 1].generation(),
                chain[i - 1].age_limit(),
            )) by {
                lemma_wrap_round_trip(g, i - 1);
            }
            crate::num::lemma_wrap_add_step(g, i - 1);
            assert(chain[i].entries().contains_key(a));
            assert(chain[i].entries()[a] == chain[i - 1].entries()[a]);
        }
    }

    /// Law of untouched entries, upper half: from the pass after the age
    /// limit on, the entry is gone.
    proof fn lemma_lifetime_absent(chain: Seq<Self>, a: K::Abs, i: int)
        requires
            Self::aging_chain(chain),
            0 < chain.len(),
            chain[0].entries().contains_key(a),
            chain[0].entries()[a].last_touched_generation == chain[0].generation(),
            chain[0].age_limit() < i < chain.len(),
        ensures
            !chain[i].entries().contains_key(a),
        decreases i,
    {
        let g = chain[0].generation();
        let limit = chain[0].age_limit() as int;
        if i == limit + 1 {
            Self::lemma_lifetime_present(chain, a, limit);
            assert(Self::advanced_from(chain[i], chain[i - 1]));
            assert(!Self::survives(
                chain[i - 1].entries()[a].last_touched_generation,
                chain[i - 1].generation(),
                chain[i - 1].age_limit(),
            )) by {
                lemma_wrap_round_trip(g, limit);
            }
        } else {
            Self::lemma_lifetime_absent(chain, a, i - 1);
            assert(Self::advanced_from(chain[i], chain[i - 1]));
        }
    }

    /// Law of untouched entries. Take a cache state where the entry under
    /// `a` is stamped with the current generation — as a fresh `insert` or
    /// `hit` leaves it — and run eviction passes without touching the entry
    /// again. With age limit `N`, the entry is present and unchanged through
    /// the first `N` passes — the eviction rule compares age to the limit
    /// with a strict `<`, so the pass run when the entry's age is exactly
    /// `N` is the one that removes it — and absent from every pass after
    /// that. The clock wraps: the law holds for every starting generation,
    /// including those next to `u64::MAX`.
    pub proof fn lemma_untouched_entry_lifetime(chain: Seq<Self>, a: K::Abs)
        requires
            Self::aging_chain(chain),
            0 < chain.len(),
            chain[0].entries().contains_key(a),
            chain[0].entries()[a].last_touched_generation == chain[0].generation(),
        ensures
            forall|i: int|
                0 <= i < chain.len() && i <= chain[0].age_limit()
                    ==> #[trigger] chain[i].entries().contains_key(a) && chain[i].entries()[a]
                    == chain[0].entries()[a],
            forall|i: int|
                chain[0].age_limit() < i < chain.len()
                    ==> !(#[trigger] chain[i].entries().contains_key(a)),
    {
        assert forall|i: int|
            0 <= i < chain.len() && i <= chain[0].age_limit() implies #[trigger] chain[i].entries().contains_key(a)
            && chain[i].entries()[a] == chain[0].entries()[a] by {
            Self::lemma_lifetime_present(chain, a, i);
        };
        assert forall|i: int| chain[0].age_limit() < i < chain.len()
            implies !(#[trigger] chain[i].entries().contains_key(a)) by {
            Self::lemma_lifetime_absent(chain, a, i);
        };
    }

    /// A hit through a borrowed key and a hit through the equivalent owned
    /// key find the same stored resource: what a probe finds depends only
    /// on the abstract key value, which the two forms share.
    pub proof fn lemma_probe_forms_agree<Q: Equivalent<K>>(self, q: Q, key: K)
        requires
            q.probe_abs() == key.abs(),
        ensures
            self.lookup(q.probe_abs()) == self.lookup(Equivalent::<K>::probe_abs(&key)),
    {
    }
}

impl<K: CacheKey, T> Default for GenerationalCache<K, T> {
    /// An empty cache whose untouched entries survive two eviction passes.
    fn default() -> (r: Self)
        ensures
            r.wf(),
            r.entries() =~= Map::<K::Abs, CacheEntry<T>>::empty(),
            r.generation() == 0,
            r.age_limit() == 2,
    {
        GenerationalCache::new(2)
    }
}

} // verus!
