//! Occurrence counts keyed by text, kept in order of first insertion.
use vstd::prelude::*;
use crate::order::{lemma_lex_irreflexive, lemma_lex_total, lemma_lex_transitive, lex_less, lex_lt};

verus! {

/// `n + m`, staying at `usize::MAX` once it is reached.
pub open spec fn add_sat(n: usize, m: usize) -> usize {
    if n + m > usize::MAX {
        usize::MAX
    } else {
        (n + m) as usize
    }
}

/// Key `k` occurs in `e`.
pub open spec fn has_key(e: Seq<(Seq<char>, usize)>, k: Seq<char>) -> bool {
    exists|i: int| 0 <= i < e.len() && (#[trigger] e[i]).0 == k
}

/// No key occurs twice.
pub open spec fn unique_keys(e: Seq<(Seq<char>, usize)>) -> bool {
    forall|i: int, j: int| 0 <= i < j < e.len() ==> (#[trigger] e[i]).0 != (#[trigger] e[j]).0
}

/// `n` more occurrences of `k`: its count goes up by `n`, or it is
/// appended with count `n`.
pub open spec fn add_count(e: Seq<(Seq<char>, usize)>, k: Seq<char>, n: usize) -> Seq<(Seq<char>, usize)> {
    if has_key(e, k) {
        let i = choose|i: int| 0 <= i < e.len() && (#[trigger] e[i]).0 == k;
        e.update(i, (k, add_sat(e[i].1, n)))
    } else {
        e.push((k, n))
    }
}

/// One more occurrence of `k`.
pub open spec fn bump(e: Seq<(Seq<char>, usize)>, k: Seq<char>) -> Seq<(Seq<char>, usize)> {
    add_count(e, k, 1)
}

/// All counts of `f` added into `e`, in order.
pub open spec fn add_all(e: Seq<(Seq<char>, usize)>, f: Seq<(Seq<char>, usize)>) -> Seq<(Seq<char>, usize)>
    decreases f.len(),
{
    if f.len() == 0 {
        e
    } else {
        add_count(add_all(e, f.drop_last()), f.last().0, f.last().1)
    }
}

/// One more occurrence of each of `ks`, in order.
pub open spec fn bump_all(e: Seq<(Seq<char>, usize)>, ks: Seq<Seq<char>>) -> Seq<(Seq<char>, usize)>
    decreases ks.len(),
{
    if ks.len() == 0 {
        e
    } else {
        bump(bump_all(e, ks.drop_last()), ks.last())
    }
}

pub proof fn lemma_add_unique(e: Seq<(Seq<char>, usize)>, k: Seq<char>, n: usize)
    requires
        unique_keys(e),
    ensures
        unique_keys(add_count(e, k, n)),
        add_count(e, k, n).len() == e.len() + if has_key(e, k) {
            0int
        } else {
            1int
        },
{
    if !has_key(e, k) {
        let r = e.push((k, n));
        assert forall|i: int, j: int| 0 <= i < j < r.len() implies (#[trigger] r[i]).0 != (
        #[trigger] r[j]).0 by {
            if j == e.len() {
                assert(r[i] == e[i]);
            }
        }
    }
}


/// The views of counted entries.
pub open spec fn entry_views(v: Seq<(String, usize)>) -> Seq<(Seq<char>, usize)> {
    v.map_values(|e: (String, usize)| (e.0@, e.1))
}

/// Counts of text keys. Each key occurs once; keys keep the order in which
/// they were first counted. A second list holds the positions of the
/// entries sorted by key, so that a key is found by binary search.
pub struct CountMap {
    entries: Vec<(String, usize)>,
    order: Vec<usize>,
}

impl View for CountMap {
    type V = Seq<(Seq<char>, usize)>;

    closed spec fn view(&self) -> Seq<(Seq<char>, usize)> {
        entry_views(self.entries@)
    }
}

impl CountMap {
    /// The key of the entry at sorted position `i`.
    closed spec fn okey(&self, i: int) -> Seq<char> {
        self.entries@[self.order@[i] as int].0@
    }

    /// `order` lists every entry once, ascending by key.
    closed spec fn index_ok(&self) -> bool {
        &&& self.order@.len() == self.entries@.len()
        &&& forall|i: int| 0 <= i < self.order@.len() ==> (#[trigger] self.order@[i]) < self.entries@.len()
        &&& forall|i: int, j: int|
            0 <= i < j < self.order@.len() ==> lex_lt(#[trigger] self.okey(i), #[trigger] self.okey(j))
        &&& forall|k: int| 0 <= k < self.entries@.len() ==> #[trigger] self.listed(k)
    }

    /// Entry `k` has a sorted position.
    closed spec fn listed(&self, k: int) -> bool {
        exists|i: int| 0 <= i < self.order@.len() && self.order@[i] == k
    }

    /// Each key occurs once, and the sorted positions are in order.
    pub closed spec fn wf(&self) -> bool {
        &&& unique_keys(self@)
        &&& self.index_ok()
    }

    pub proof fn lemma_wf_unique(&self)
        requires
            self.wf(),
        ensures
            unique_keys(self@),
    {
    }

    pub fn new() -> (r: CountMap)
        ensures
            r.wf(),
            r@ == Seq::<(Seq<char>, usize)>::empty(),
    {
        let r = CountMap { entries: Vec::new(), order: Vec::new() };
        assert(r@ =~= Seq::<(Seq<char>, usize)>::empty());
        r
    }

    /// Number of distinct keys.
    pub fn len(&self) -> (r: usize)
        ensures
            r == self@.len(),
    {
        self.entries.len()
    }

    pub fn is_empty(&self) -> (r: bool)
        ensures
            r == (self@.len() == 0),
    {
        self.entries.len() == 0
    }

    /// The entry of `key`, if it was counted, and where `key` stands among
    /// the sorted keys.
    fn find(&self, key: &String) -> (r: (Option<usize>, usize))
        requires
            self.wf(),
        ensures
            r.1 <= self.order@.len(),
            match r.0 {
                Some(k) => k < self@.len() && self@[k as int].0 == key@,
                None => !has_key(self@, key@),
            },
            r.0 is None ==> forall|i: int| 0 <= i < r.1 ==> lex_lt(#[trigger] self.okey(i), key@),
            r.0 is None ==> forall|i: int| r.1 <= i < self.order@.len() ==> lex_lt(key@, #[trigger] self.okey(i)),
    {
        let mut lo: usize = 0;
        let mut hi: usize = self.order.len();
        while lo < hi
            invariant
                self.wf(),
                lo <= hi <= self.order@.len(),
                forall|i: int| 0 <= i < lo ==> lex_lt(#[trigger] self.okey(i), key@),
                forall|i: int| hi <= i < self.order@.len() ==> lex_lt(key@, #[trigger] self.okey(i)),
            decreases hi - lo,
        {
            let mid = lo + (hi - lo) / 2;
            let k = self.order[mid];
            assert(k < self.entries@.len());
            let ek = &self.entries[k].0;
            assert(ek@ == self.okey(mid as int));
            if *ek == *key {
                return (Some(k), mid);
            }
            if lex_less(ek, key) {
                assert forall|i: int| 0 <= i < mid + 1 implies lex_lt(#[trigger] self.okey(i), key@) by {
                    if i < mid {
                        lemma_lex_transitive(self.okey(i), self.okey(mid as int), key@);
                    }
                }
                lo = mid + 1;
            } else {
                proof {
                    lemma_lex_total(ek@, key@);
                }
                assert forall|i: int| mid <= i < self.order@.len() implies lex_lt(key@, #[trigger] self.okey(i)) by {
                    if i > mid {
                        lemma_lex_transitive(key@, self.okey(mid as int), self.okey(i));
                    }
                }
                hi = mid;
            }
        }
        proof {
            if has_key(self@, key@) {
                let k = choose|k: int| 0 <= k < self@.len() && (#[trigger] self@[k]).0 == key@;
                assert(self.listed(k));
                let i = choose|i: int| 0 <= i < self.order@.len() && self.order@[i] == k;
                assert(self.okey(i) == key@);
                lemma_lex_irreflexive(key@);
            }
        }
        (None, lo)
    }

    /// The count of `key`, zero if it was never counted.
    pub fn get(&self, key: &String) -> (r: usize)
        requires
            self.wf(),
        ensures
            has_key(self@, key@) ==> exists|i: int|
                0 <= i < self@.len() && (#[trigger] self@[i]).0 == key@ && self@[i].1 == r,
            !has_key(self@, key@) ==> r == 0,
    {
        match self.find(key).0 {
            Some(i) => self.entries[i].1,
            None => 0,
        }
    }

    /// Counts `n` more occurrences of `key`.
    pub fn add(&mut self, key: String, n: usize)
        requires
            old(self).wf(),
        ensures
            final(self).wf(),
            final(self)@ == add_count(old(self)@, key@, n),
    {
        let ghost e = self@;
        let ghost before = *self;
        let (found, at) = self.find(&key);
        match found {
            Some(i) => {
                let c = self.entries[i].1;
                let c2 = if c > usize::MAX - n {
                    usize::MAX
                } else {
                    c + n
                };
                self.entries.set(i, (key, c2));
                proof {
                    let j = choose|j: int| 0 <= j < e.len() && (#[trigger] e[j]).0 == key@;
                    assert(j == i as int);
                    assert(self@ =~= e.update(i as int, (key@, add_sat(e[i as int].1, n))));
                    assert forall|p: int| 0 <= p < self.order@.len() implies #[trigger] self.okey(p) == before.okey(p) by {
                        assert(self.order@[p] < self.entries@.len());
                    }
                    assert forall|k: int| 0 <= k < self.entries@.len() implies #[trigger] self.listed(k) by {
                        assert(before.listed(k));
                    }
                    assert(self.index_ok());
                }
            },
            None => {
                let len = self.entries.len();
                self.entries.push((key, n));
                self.order.insert(at, len);
                proof {
                    assert(self@ =~= e.push((key@, n)));
                    let ord = self.order@;
                    let old_ord = before.order@;
                    assert(ord =~= old_ord.insert(at as int, len));
                    assert forall|p: int| 0 <= p < ord.len() implies #[trigger] ord[p] < self.entries@.len() by {
                        if p < at {
                            assert(ord[p] == old_ord[p]);
                        } else if p > at {
                            assert(ord[p] == old_ord[p - 1]);
                        }
                    }
                    assert forall|p: int| 0 <= p < ord.len() implies #[trigger] self.okey(p) == if p < at {
                        before.okey(p)
                    } else if p == at {
                        key@
                    } else {
                        before.okey(p - 1)
                    } by {
                        if p < at {
                            assert(ord[p] == old_ord[p]);
                            assert(old_ord[p] < len);
                            assert(self.entries@[ord[p] as int] == before.entries@[ord[p] as int]);
                        } else if p > at {
                            assert(ord[p] == old_ord[p - 1]);
                            assert(old_ord[p - 1] < len);
                            assert(self.entries@[ord[p] as int] == before.entries@[ord[p] as int]);
                        }
                    }
                    assert forall|p: int, q: int| 0 <= p < q < ord.len() implies lex_lt(
                        #[trigger] self.okey(p),
                        #[trigger] self.okey(q),
                    ) by {
                        if q < at {
                            assert(lex_lt(before.okey(p), before.okey(q)));
                        } else if q == at {
                        } else if p < at {
                            lemma_lex_transitive(before.okey(p), key@, before.okey(q - 1));
                        } else if p == at {
                        } else {
                            assert(lex_lt(before.okey(p - 1), before.okey(q - 1)));
                        }
                    }
                    assert forall|k: int| 0 <= k < self.entries@.len() implies #[trigger] self.listed(k) by {
                        if k == len {
                            assert(ord[at as int] == k);
                        } else {
                            assert(before.listed(k));
                            let p = choose|p: int| 0 <= p < old_ord.len() && old_ord[p] == k;
                            if p < at {
                                assert(ord[p] == k);
                            } else {
                                assert(ord[p + 1] == k);
                            }
                        }
                    }
                    assert(self.index_ok());
                }
            },
        }
        proof {
            lemma_add_unique(e, key@, n);
        }
    }

    /// Counts one more occurrence of `key`.
    pub fn increment(&mut self, key: String)
        requires
            old(self).wf(),
        ensures
            final(self).wf(),
            final(self)@ == bump(old(self)@, key@),
    {
        self.add(key, 1);
    }

    /// Adds every count of `other` into this map.
    pub fn merge(&mut self, other: &CountMap)
        requires
            old(self).wf(),
        ensures
            final(self).wf(),
            final(self)@ == add_all(old(self)@, other@),
    {
        let mut i: usize = 0;
        while i < other.entries.len()
            invariant
                i <= other.entries.len(),
                other@.len() == other.entries.len(),
                self.wf(),
                self@ == add_all(old(self)@, other@.subrange(0, i as int)),
            decreases other.entries.len() - i,
        {
            assert(other@.subrange(0, i + 1).drop_last() =~= other@.subrange(0, i as int));
            let k = other.entries[i].0.clone();
            self.add(k, other.entries[i].1);
            i = i + 1;
        }
        assert(other@.subrange(0, i as int) =~= other@);
    }

    /// The counted keys with their counts, in order of first insertion.
    pub fn entries(&self) -> (r: Vec<(String, usize)>)
        ensures
            entry_views(r@) == self@,
    {
        let mut r: Vec<(String, usize)> = Vec::new();
        let mut i: usize = 0;
        while i < self.entries.len()
            invariant
                i <= self.entries.len(),
                self@.len() == self.entries.len(),
                r@.len() == i,
                entry_views(r@) == self@.subrange(0, i as int),
            decreases self.entries.len() - i,
        {
            let ghost before = r@;
            let k = self.entries[i].0.clone();
            r.push((k, self.entries[i].1));
            assert(r@ == before.push((k, self.entries@[i as int].1)));
            assert(k@ == self@[i as int].0);
            i = i + 1;
            assert(entry_views(r@) =~= self@.subrange(0, i as int)) by {
                assert(entry_views(before) == self@.subrange(0, i - 1));
                assert forall|m: int| 0 <= m < i implies entry_views(r@)[m] == self@.subrange(
                    0,
                    i as int,
                )[m] by {
                    if m < i - 1 {
                        assert(entry_views(before)[m] == self@.subrange(0, i - 1)[m]);
                    }
                }
            }
        }
        assert(self@.subrange(0, i as int) =~= self@);
        r
    }
}

} // verus!
