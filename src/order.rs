//! Lexicographic order on texts (by code point, as `String`'s `Ord`) and
//! keeping a list of categories sorted by it.
use vstd::prelude::*;
use crate::search_result::Category;
use crate::text::chars_of;

verus! {

/// `a` sorts strictly before `b`.
pub open spec fn lex_lt(a: Seq<char>, b: Seq<char>) -> bool
    decreases a.len(),
{
    if a.len() == 0 {
        b.len() > 0
    } else if b.len() == 0 {
        false
    } else if a[0] != b[0] {
        a[0] < b[0]
    } else {
        lex_lt(a.drop_first(), b.drop_first())
    }
}


pub proof fn lemma_lex_irreflexive(a: Seq<char>)
    ensures
        !lex_lt(a, a),
    decreases a.len(),
{
    if a.len() > 0 {
        lemma_lex_irreflexive(a.drop_first());
    }
}

pub proof fn lemma_lex_total(a: Seq<char>, b: Seq<char>)
    ensures
        a == b || lex_lt(a, b) || lex_lt(b, a),
    decreases a.len(),
{
    if a.len() > 0 && b.len() > 0 && a[0] == b[0] {
        lemma_lex_total(a.drop_first(), b.drop_first());
        if a.drop_first() == b.drop_first() {
            assert(a =~= seq![a[0]] + a.drop_first());
            assert(b =~= seq![b[0]] + b.drop_first());
        }
    }
}


pub proof fn lemma_lex_transitive(a: Seq<char>, b: Seq<char>, c: Seq<char>)
    requires
        lex_lt(a, b),
        lex_lt(b, c),
    ensures
        lex_lt(a, c),
    decreases a.len(),
{
    if a.len() > 0 && b.len() > 0 && c.len() > 0 {
        if a[0] == b[0] && b[0] == c[0] {
            lemma_lex_transitive(a.drop_first(), b.drop_first(), c.drop_first());
        }
    }
}

/// Compares two texts.
pub fn lex_less(a: &String, b: &String) -> (r: bool)
    ensures
        r == lex_lt(a@, b@),
{
    let x = chars_of(a.as_str());
    let y = chars_of(b.as_str());
    let mut i: usize = 0;
    assert(x@.subrange(0, x@.len() as int) =~= x@);
    assert(y@.subrange(0, y@.len() as int) =~= y@);
    while i < x.len() && i < y.len() && x[i] == y[i]
        invariant
            i <= x.len(),
            i <= y.len(),
            lex_lt(x@, y@) == lex_lt(x@.subrange(i as int, x@.len() as int), y@.subrange(i as int, y@.len() as int)),
        decreases x.len() - i,
    {
        let ghost xs = x@.subrange(i as int, x@.len() as int);
        let ghost ys = y@.subrange(i as int, y@.len() as int);
        assert(xs.drop_first() =~= x@.subrange(i + 1, x@.len() as int));
        assert(ys.drop_first() =~= y@.subrange(i + 1, y@.len() as int));
        i = i + 1;
    }
    let ghost xs = x@.subrange(i as int, x@.len() as int);
    let ghost ys = y@.subrange(i as int, y@.len() as int);
    if i == x.len() {
        assert(xs.len() == 0);
        i < y.len()
    } else if i == y.len() {
        false
    } else {
        assert(xs[0] == x@[i as int] && ys[0] == y@[i as int]);
        x[i] < y[i]
    }
}

pub open spec fn cat_view(c: Category) -> (Seq<char>, usize) {
    (c.prefix@, c.count)
}

/// The (prefix, count) pairs of categories.
pub open spec fn cat_views(v: Seq<Category>) -> Seq<(Seq<char>, usize)> {
    v.map_values(|c: Category| cat_view(c))
}

/// Prefixes in strictly ascending order.
pub open spec fn sorted_by_prefix(v: Seq<(Seq<char>, usize)>) -> bool {
    forall|i: int, j: int| 0 <= i < j < v.len() ==> lex_lt((#[trigger] v[i]).0, (#[trigger] v[j]).0)
}

/// Puts `c` into the sorted list `v` where its prefix belongs.
pub fn insert_sorted(v: &mut Vec<Category>, c: Category)
    requires
        sorted_by_prefix(cat_views(old(v)@)),
        forall|i: int| 0 <= i < old(v)@.len() ==> (#[trigger] old(v)@[i]).prefix@ != c.prefix@,
    ensures
        sorted_by_prefix(cat_views(final(v)@)),
        forall|x: (Seq<char>, usize)| #[trigger] cat_views(final(v)@).contains(x) <==> (cat_views(old(v)@).contains(x) || x == cat_view(c)),
        final(v)@.len() == old(v)@.len() + 1,
{
    let ghost old_v = cat_views(v@);
    let mut i: usize = 0;
    while i < v.len() && !lex_less(&c.prefix, &v[i].prefix)
        invariant
            i <= v.len(),
            v@ == old(v)@,
            old_v == cat_views(v@),
            forall|k: int| 0 <= k < i ==> lex_lt((#[trigger] v@[k]).prefix@, c.prefix@),
            forall|k: int| 0 <= k < v@.len() ==> (#[trigger] v@[k]).prefix@ != c.prefix@,
        decreases v.len() - i,
    {
        proof {
            lemma_lex_total(c.prefix@, v@[i as int].prefix@);
        }
        i = i + 1;
    }
    let ghost cv = cat_view(c);
    v.insert(i, c);
    proof {
        let nv = cat_views(v@);
        assert(nv =~= old_v.insert(i as int, cv));
        assert forall|a: int, b: int| 0 <= a < b < nv.len() implies lex_lt(
            (#[trigger] nv[a]).0,
            (#[trigger] nv[b]).0,
        ) by {
            if b < i {
                assert(nv[a] == old_v[a] && nv[b] == old_v[b]);
            } else if b == i {
                assert(nv[a] == old_v[a]);
            } else if a == i {
                assert(nv[b] == old_v[b - 1]);
                if (b - 1) > i {
                    assert(lex_lt(old_v[i as int].0, old_v[b - 1].0));
                    lemma_lex_transitive(cv.0, old_v[i as int].0, old_v[b - 1].0);
                }
            } else if a < i {
                assert(nv[a] == old_v[a] && nv[b] == old_v[b - 1]);
                if a < b - 1 {
                } else {
                    assert(false);
                }
            } else {
                assert(nv[a] == old_v[a - 1] && nv[b] == old_v[b - 1]);
            }
        }
        assert forall|x: (Seq<char>, usize)| #[trigger] nv.contains(x) <==> (old_v.contains(x) || x == cv) by {
            if nv.contains(x) {
                let k = choose|k: int| 0 <= k < nv.len() && nv[k] == x;
                if k < i {
                    assert(old_v[k] == x);
                } else if k > i {
                    assert(old_v[k - 1] == x);
                }
            }
            if old_v.contains(x) {
                let k = choose|k: int| 0 <= k < old_v.len() && old_v[k] == x;
                if k < i {
                    assert(nv[k] == x);
                } else {
                    assert(nv[k + 1] == x);
                }
            }
            if x == cv {
                assert(nv[i as int] == x);
            }
        }
    }
}

} // verus!
