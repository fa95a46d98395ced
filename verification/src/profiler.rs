//! Per-operation timing totals.
//!
//! [`ProfilingLayer`] is an explicit profiling context: the embedder's
//! tracing hook measures how long each traced operation ran and feeds the
//! duration here under the operation's name. The layer accumulates one
//! total per name; a summary sorted by total time can be taken at any
//! point. Keeping the state in a value passed around, rather than in a
//! process-wide table, keeps the totals per run and deterministic.

use vstd::multiset::Multiset;
use vstd::prelude::*;

verus! {

/// The accumulated time of one operation, in nanoseconds.
pub struct DurationEntry {
    /// The operation's name.
    pub name: String,
    /// Total time spent in the operation, in nanoseconds; additions
    /// saturate rather than wrap.
    pub total_nanos: u64,
}

/// Addition that stops at `u64::MAX` instead of overflowing.
pub open spec fn sat_add_u64(a: u64, b: u64) -> u64 {
    if a + b > u64::MAX {
        u64::MAX
    } else {
        (a + b) as u64
    }
}

/// The record of one entry, as the pair of its name and its total.
pub open spec fn record_of(e: DurationEntry) -> (Seq<char>, u64) {
    (e.name@, e.total_nanos)
}

/// The records of a sequence of entries, in order.
pub open spec fn records_of(s: Seq<DurationEntry>) -> Seq<(Seq<char>, u64)> {
    s.map_values(|e: DurationEntry| record_of(e))
}

/// Accumulates, per operation name, the total time spent in it.
pub struct ProfilingLayer {
    entries: Vec<DurationEntry>,
}

impl ProfilingLayer {
    /// The `(name, total)` records in storage order.
    pub closed spec fn records(self) -> Seq<(Seq<char>, u64)> {
        records_of(self.entries@)
    }

    /// The names in storage order.
    spec fn names(self) -> Seq<Seq<char>> {
        self.entries@.map_values(|e: DurationEntry| e.name@)
    }

    /// Every record is under a distinct name.
    pub closed spec fn wf(self) -> bool {
        self.names().no_duplicates()
    }

    /// Whether a total is recorded under `n`.
    spec fn has_name(self, n: Seq<char>) -> bool {
        exists|i: int| 0 <= i < self.entries@.len() && #[trigger] self.entries@[i].name@ == n
    }

    /// The index of the record named `n`, when there is one.
    spec fn name_index(self, n: Seq<char>) -> int {
        choose|i: int| 0 <= i < self.entries@.len() && #[trigger] self.entries@[i].name@ == n
    }

    /// The accumulated totals, as a map from names.
    pub closed spec fn totals(self) -> Map<Seq<char>, u64> {
        Map::new(
            |n: Seq<char>| self.has_name(n),
            |n: Seq<char>| self.entries@[self.name_index(n)].total_nanos,
        )
    }

    /// In a well-formed layer the record holding a given name is unique.
    proof fn lemma_name_index(self, i: int)
        requires
            self.wf(),
            0 <= i < self.entries@.len(),
        ensures
            self.has_name(self.entries@[i].name@),
            self.name_index(self.entries@[i].name@) == i,
    {
        let n = self.entries@[i].name@;
        assert(self.has_name(n));
        let j = self.name_index(n);
        assert(self.names()[i] == n);
        assert(self.names()[j] == n);
        if i != j {
            assert(false);
        }
    }

    /// A layer with no totals recorded.
    pub fn new() -> (r: Self)
        ensures
            r.wf(),
            r.totals() =~= Map::<Seq<char>, u64>::empty(),
            r.records() =~= Seq::<(Seq<char>, u64)>::empty(),
    {
        ProfilingLayer { entries: Vec::new() }
    }

    /// The number of distinct operation names recorded.
    pub fn len(&self) -> (r: usize)
        requires
            self.wf(),
        ensures
            r == self.records().len(),
    {
        self.entries.len()
    }

    /// Finds the record named `name`, scanning in storage order.
    fn find_index(&self, name: &String) -> (r: Option<usize>)
        ensures
            match r {
                Some(i) => 0 <= i < self.entries@.len() && self.entries@[i as int].name@
                    == name@,
                None => !self.has_name(name@),
            },
    {
        let n = self.entries.len();
        let mut i: usize = 0;
        while i < n
            invariant
                n == self.entries@.len(),
                0 <= i <= n,
                forall|j: int| 0 <= j < i ==> #[trigger] self.entries@[j].name@ != name@,
            decreases n - i,
        {
            if self.entries[i].name == *name {
                return Some(i);
            }
            i += 1;
        }
        None
    }

    /// The total recorded under `name`, if any.
    pub fn total_for(&self, name: &str) -> (r: Option<u64>)
        requires
            self.wf(),
        ensures
            match r {
                Some(t) => self.totals().contains_key(name@) && t == self.totals()[name@],
                None => !self.totals().contains_key(name@),
            },
    {
        let probe = name.to_string();
        match self.find_index(&probe) {
            Some(i) => {
                proof {
                    self.lemma_name_index(i as int);
                }
                Some(self.entries[i].total_nanos)
            },
            None => None,
        }
    }

    /// The recorded totals, ordered from the most expensive operation
    /// down: the records of the result are exactly the records of the
    /// layer, sorted by total time, largest first.
    pub fn sorted_totals(&self) -> (r: Vec<DurationEntry>)
        requires
            self.wf(),
        ensures
            records_of(r@).to_multiset() == self.records().to_multiset(),
            forall|i: int, j: int|
                0 <= i < j < r@.len()
                    ==> #[trigger] r@[i].total_nanos >= #[trigger] r@[j].total_nanos,
    {
        broadcast use vstd::seq_lib::group_to_multiset_ensures;

        let n = self.entries.len();
        let mut tmp: Vec<DurationEntry> = Vec::new();
        let mut i: usize = 0;
        while i < n
            invariant
                n == self.entries@.len(),
                0 <= i <= n,
                tmp@ =~= self.entries@.subrange(0, i as int),
            decreases n - i,
        {
            let e = &self.entries[i];
            tmp.push(DurationEntry { name: e.name.clone(), total_nanos: e.total_nanos });
            proof {
                assert(tmp@ =~= self.entries@.subrange(0, i as int + 1));
            }
            i += 1;
        }
        proof {
            assert(self.entries@.subrange(0, n as int) =~= self.entries@);
            assert(tmp@ == self.entries@);
        }
        let mut out: Vec<DurationEntry> = Vec::new();
        while tmp.len() > 0
            invariant
                records_of(out@).to_multiset().add(records_of(tmp@).to_multiset())
                    =~= self.records().to_multiset(),
                forall|p: int, q: int|
                    0 <= p < q < out@.len() ==> #[trigger] out@[p].total_nanos
                        >= #[trigger] out@[q].total_nanos,
                forall|p: int, q: int|
                    0 <= p < out@.len() && 0 <= q < tmp@.len()
                        ==> #[trigger] out@[p].total_nanos >= #[trigger] tmp@[q].total_nanos,
            decreases tmp@.len(),
        {
            let m = tmp.len();
            let mut best: usize = 0;
            let mut k: usize = 1;
            while k < m
                invariant
                    m == tmp@.len(),
                    0 <= best < m,
                    1 <= k <= m,
                    forall|j: int| 0 <= j < k ==> tmp@[best as int].total_nanos
                        >= #[trigger] tmp@[j].total_nanos,
                decreases m - k,
            {
                if tmp[k].total_nanos > tmp[best].total_nanos {
                    best = k;
                }
                k += 1;
            }
            let ghost tmp0 = tmp@;
            let ghost out0 = out@;
            let e = tmp.remove(best);
            proof {
                assert(records_of(tmp@) =~= records_of(tmp0).remove(best as int));
                assert(records_of(tmp0)[best as int] == record_of(e));
            }
            out.push(e);
            proof {
                records_of(tmp0).to_multiset_ensures();
                records_of(out0).to_multiset_ensures();
                assert(records_of(out@) =~= records_of(out0).push(record_of(e)));
                assert(records_of(out0).push(record_of(e)).to_multiset() =~= records_of(
                    out0,
                ).to_multiset().insert(record_of(e)));
                assert(records_of(out@).to_multiset() =~= records_of(out0).to_multiset().insert(
                    record_of(e),
                ));
                assert(records_of(tmp0).remove(best as int).to_multiset() =~= records_of(
                    tmp0,
                ).to_multiset().remove(records_of(tmp0)[best as int]));
                assert(records_of(tmp@).to_multiset() =~= records_of(tmp0).to_multiset().remove(
                    record_of(e),
                ));
                assert(records_of(tmp0).to_multiset().count(record_of(e)) > 0) by {
                    assert(records_of(tmp0).contains(record_of(e)));
                }
                assert(records_of(out@).to_multiset().add(records_of(tmp@).to_multiset())
                    =~= records_of(out0).to_multiset().add(records_of(tmp0).to_multiset()));
                assert forall|p: int, q: int|
                    0 <= p < out@.len() && 0 <= q < tmp@.len()
                    implies #[trigger] out@[p].total_nanos >= #[trigger] tmp@[q].total_nanos by {
                    if q < best {
                        assert(tmp@[q] == tmp0[q]);
                    } else {
                        assert(tmp@[q] == tmp0[q + 1]);
                    }
                    if p < out0.len() {
                        assert(out@[p] == out0[p]);
                    } else {
                        assert(out@[p] == e);
                        assert(e == tmp0[best as int]);
                    }
                };
            }
        }
        proof {
            assert(records_of(tmp@).to_multiset() =~= Multiset::<(Seq<char>, u64)>::empty());
        }
        out
    }
}

/// Adds `duration_nanos` to the running total of the operation `name`,
/// starting a total of zero for a name not seen before. The sum saturates
/// at `u64::MAX` rather than overflowing.
pub fn record_duration(layer: &mut ProfilingLayer, name: &str, duration_nanos: u64)
    requires
        old(layer).wf(),
    ensures
        final(layer).wf(),
        final(layer).totals() =~= old(layer).totals().insert(
            name@,
            sat_add_u64(
                if old(layer).totals().contains_key(name@) {
                    old(layer).totals()[name@]
                } else {
                    0
                },
                duration_nanos,
            ),
        ),
{
    let owned = name.to_string();
    match layer.find_index(&owned) {
        Some(i) => {
            proof {
                layer.lemma_name_index(i as int);
            }
            let mut entry = layer.entries.remove(i);
            entry.total_nanos = entry.total_nanos.saturating_add(duration_nanos);
            layer.entries.insert(i, entry);
            proof {
                let pre = *old(layer);
                let post = *layer;
                assert(post.names() =~= pre.names());
                assert forall|b: Seq<char>| post.has_name(b) implies pre.has_name(b) by {
                    let j = choose|j: int|
                        0 <= j < post.entries@.len() && #[trigger] post.entries@[j].name@ == b;
                    assert(pre.entries@[j].name@ == b);
                };
                assert forall|b: Seq<char>| pre.has_name(b) implies post.has_name(b) by {
                    let j = choose|j: int|
                        0 <= j < pre.entries@.len() && #[trigger] pre.entries@[j].name@ == b;
                    assert(post.entries@[j].name@ == b);
                };
                assert forall|b: Seq<char>| #[trigger] post.totals().contains_key(b) && b
                    != name@ implies post.totals()[b] == pre.totals()[b] by {
                    let j = post.name_index(b);
                    assert(post.entries@[j].name@ == b);
                    assert(j != i);
                    assert(pre.entries@[j].name@ == b);
                    pre.lemma_name_index(j);
                    post.lemma_name_index(j);
                };
                post.lemma_name_index(i as int);
                pre.lemma_name_index(i as int);
            }
        },
        None => {
            let ghost pre = *old(layer);
            layer.entries.push(DurationEntry { name: owned, total_nanos: duration_nanos });
            proof {
                let post = *layer;
                let n = pre.entries@.len() as int;
                assert(post.names() =~= pre.names().push(name@));
                assert(post.wf()) by {
                    assert forall|p: int, q: int|
                        0 <= p < q < post.names().len() implies post.names()[p]
                        != post.names()[q] by {
                        if q < n {
                            assert(pre.names()[p] != pre.names()[q]);
                        } else {
                            assert(post.names()[q] == name@);
                            assert(pre.entries@[p].name@ == post.names()[p]);
                            assert(post.names()[p] != name@);
                        }
                    };
                }
                assert forall|b: Seq<char>| #[trigger] post.has_name(b) && b != name@
                    implies pre.has_name(b) by {
                    let j = choose|j: int|
                        0 <= j < post.entries@.len() && #[trigger] post.entries@[j].name@ == b;
                    assert(j != n);
                    assert(pre.entries@[j].name@ == b);
                };
                assert forall|b: Seq<char>| pre.has_name(b) implies post.has_name(b) by {
                    let j = choose|j: int|
                        0 <= j < pre.entries@.len() && #[trigger] pre.entries@[j].name@ == b;
                    assert(post.entries@[j].name@ == b);
                };
                assert(post.entries@[n].name@ == name@);
                assert(post.has_name(name@));
                assert forall|b: Seq<char>| #[trigger] post.totals().contains_key(b) && b
                    != name@ implies post.totals()[b] == pre.totals()[b] by {
                    let j = post.name_index(b);
                    assert(post.entries@[j].name@ == b);
                    assert(j != n);
                    assert(pre.entries@[j].name@ == b);
                    pre.lemma_name_index(j);
                    post.lemma_name_index(j);
                };
                post.lemma_name_index(n);
            }
        },
    }
}

} // verus!
