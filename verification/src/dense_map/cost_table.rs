//! A table from points to costs that is walked in the order of the points.

use crate::point::Point;
use vstd::prelude::*;

verus! {

/// Whether `p` is the first key of `m` in the order of points.
pub open spec fn is_first(m: Map<Point, u64>, p: Point) -> bool {
    &&& m.contains_key(p)
    &&& forall|q: Point| m.contains_key(q) ==> p.not_after(q)
}

/// Whether `s` lists the entries of `m`, each as a pair of cost and point:
/// every pair is an entry, every entry has its pair, and no point comes
/// twice.
pub open spec fn lists(s: Seq<(u64, Point)>, m: Map<Point, u64>) -> bool {
    &&& forall|i: int| 0 <= i < s.len() ==> m.contains_key((#[trigger] s[i]).1) && m[s[i].1] == s[i].0
    &&& forall|p: Point| m.contains_key(p) ==> exists|i: int| 0 <= i < s.len() && (#[trigger] s[i]).1 == p
    &&& forall|i: int, j: int| 0 <= i < j < s.len() ==> (#[trigger] s[i]).1 != (#[trigger] s[j]).1
}

/// A sequence that holds the same pairs as a listing, each the same number of
/// times, is a listing of the same entries.
pub proof fn listing_survives_reordering(a: Seq<(u64, Point)>, b: Seq<(u64, Point)>, m: Map<Point, u64>)
    requires
        lists(a, m),
        a.to_multiset() == b.to_multiset(),
    ensures
        lists(b, m),
        a.len() == b.len(),
{
    a.to_multiset_ensures();
    b.to_multiset_ensures();
    assert forall|i: int| 0 <= i < b.len() implies m.contains_key((#[trigger] b[i]).1) && m[b[i].1]
        == b[i].0 by {
        assert(b.to_multiset().count(b[i]) > 0);
    }
    assert forall|p: Point| m.contains_key(p) implies exists|i: int|
        0 <= i < b.len() && (#[trigger] b[i]).1 == p by {
        let j = choose|j: int| 0 <= j < a.len() && (#[trigger] a[j]).1 == p;
        assert(a.to_multiset().count(a[j]) > 0);
    }
    a.lemma_multiset_has_no_duplicates();
    b.lemma_multiset_has_no_duplicates_conv();
}

/// A map from points to costs, kept in the order of the points.
pub struct CostTable {
    entries: Vec<(Point, u64)>,
    model: Ghost<Map<Point, u64>>,
}

impl View for CostTable {
    type V = Map<Point, u64>;

    closed spec fn view(&self) -> Map<Point, u64> {
        self.model@
    }
}

impl CostTable {
    /// The invariant of the table: the entries stand in strictly ascending
    /// order of their points, and they are exactly what the map holds.
    pub closed spec fn wf(&self) -> bool {
        &&& self.model@.dom().finite()
        &&& forall|i: int, j: int|
            0 <= i < j < self.entries@.len() ==> (#[trigger] self.entries@[i]).0.before(
                (#[trigger] self.entries@[j]).0,
            )
        &&& forall|i: int|
            0 <= i < self.entries@.len() ==> self.model@.contains_key((#[trigger] self.entries@[i]).0)
                && self.model@[self.entries@[i].0] == self.entries@[i].1
        &&& forall|p: Point|
            self.model@.contains_key(p) ==> exists|i: int|
                0 <= i < self.entries@.len() && (#[trigger] self.entries@[i]).0 == p
    }

    /// An empty table.
    pub fn new() -> (t: Self)
        ensures
            t.wf(),
            t@ == Map::<Point, u64>::empty(),
    {
        CostTable { entries: Vec::new(), model: Ghost(Map::empty()) }
    }

    /// The place of `key` among the entries: the index of the first entry
    /// whose point does not come before `key`.
    fn place(&self, key: &Point) -> (i: usize)
        requires
            self.wf(),
        ensures
            i <= self.entries@.len(),
            forall|k: int| 0 <= k < i ==> (#[trigger] self.entries@[k]).0.before(*key),
            i < self.entries@.len() ==> !self.entries@[i as int].0.before(*key),
    {
        let mut i: usize = 0;
        while i < self.entries.len() && self.entries[i].0.precedes(key)
            invariant
                i <= self.entries@.len(),
                forall|k: int| 0 <= k < i ==> (#[trigger] self.entries@[k]).0.before(*key),
            decreases self.entries@.len() - i,
        {
            i += 1;
        }
        i
    }

    /// Whether the table has an entry for `key`.
    pub fn contains_key(&self, key: &Point) -> (r: bool)
        requires
            self.wf(),
        ensures
            r == self@.contains_key(*key),
    {
        let i = self.place(key);
        if i < self.entries.len() {
            let found = self.entries[i].0;
            found.x == key.x && found.y == key.y
        } else {
            false
        }
    }

    /// Sets the cost of `key`, whether or not the table had an entry for it.
    pub fn insert(&mut self, key: Point, cost: u64)
        requires
            old(self).wf(),
        ensures
            final(self).wf(),
            final(self)@ == old(self)@.insert(key, cost),
    {
        let i = self.place(&key);
        let ghost before = self.entries@;
        let replace = i < self.entries.len() && {
            let found = self.entries[i].0;
            found.x == key.x && found.y == key.y
        };
        if replace {
            self.entries[i] = (key, cost);
        } else {
            self.entries.insert(i, (key, cost));
        }
        self.model = Ghost(self.model@.insert(key, cost));
        proof {
            let after = self.entries@;
            if replace {
                assert forall|p: Point| self.model@.contains_key(p) implies exists|k: int|
                    0 <= k < after.len() && (#[trigger] after[k]).0 == p by {
                    if p != key {
                        let k = choose|k: int| 0 <= k < before.len() && (#[trigger] before[k]).0 == p;
                        assert(after[k].0 == p);
                    }
                }
            } else {
                assert forall|p: Point| self.model@.contains_key(p) implies exists|k: int|
                    0 <= k < after.len() && (#[trigger] after[k]).0 == p by {
                    if p == key {
                        assert(after[i as int].0 == p);
                    } else {
                        let k = choose|k: int| 0 <= k < before.len() && (#[trigger] before[k]).0 == p;
                        let k1 = if k < i { k } else { k + 1 };
                        assert(after[k1].0 == p);
                    }
                }
            }
        }
    }

    /// Takes the entry with the first point out of the table; `None` where
    /// the table is empty.
    pub fn pop_first(&mut self) -> (r: Option<(Point, u64)>)
        requires
            old(self).wf(),
        ensures
            final(self).wf(),
            match r {
                Some((p, c)) => is_first(old(self)@, p) && old(self)@[p] == c && final(self)@ == old(
                    self,
                )@.remove(p),
                None => old(self)@ == Map::<Point, u64>::empty() && final(self)@ == old(self)@,
            },
    {
        if self.entries.len() == 0 {
            return None;
        }
        let ghost before = self.entries@;
        let first = self.entries.remove(0);
        self.model = Ghost(self.model@.remove(first.0));
        proof {
            let after = self.entries@;
            assert forall|p: Point| self.model@.contains_key(p) implies exists|k: int|
                0 <= k < after.len() && (#[trigger] after[k]).0 == p by {
                let k = choose|k: int| 0 <= k < before.len() && (#[trigger] before[k]).0 == p;
                assert(after[k - 1].0 == p);
            }
        }
        Some(first)
    }

    /// The entries of the table as pairs of cost and point, in ascending
    /// order of the points.
    pub fn listing(&self) -> (r: Vec<(u64, Point)>)
        requires
            self.wf(),
        ensures
            lists(r@, self@),
            forall|i: int, j: int|
                0 <= i < j < r@.len() ==> (#[trigger] r@[i]).1.before((#[trigger] r@[j]).1),
    {
        let mut out: Vec<(u64, Point)> = Vec::new();
        let mut i: usize = 0;
        while i < self.entries.len()
            invariant
                i <= self.entries@.len(),
                out@.len() == i,
                forall|k: int|
                    0 <= k < i ==> (#[trigger] out@[k]) == (self.entries@[k].1, self.entries@[k].0),
            decreases self.entries@.len() - i,
        {
            let entry = self.entries[i];
            out.push((entry.1, entry.0));
            i += 1;
        }
        proof {
            assert forall|p: Point| self@.contains_key(p) implies exists|k: int|
                0 <= k < out@.len() && (#[trigger] out@[k]).1 == p by {
                let k = choose|k: int|
                    0 <= k < self.entries@.len() && (#[trigger] self.entries@[k]).0 == p;
                assert(out@[k].1 == p);
            }
        }
        out
    }
}

} // verus!
