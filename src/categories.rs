//! Browse categories: books bucketed by the letter that follows a prefix of
//! a field, or grouped by the field's whole value.
use vstd::prelude::*;
use vstd::string::*;
use crate::order::{cat_view, cat_views, insert_sorted, sorted_by_prefix};
use crate::search_result::{Category, CategorySearchResult};
use crate::tally::{bump, entry_views, CountMap};
use crate::text::{chars_of, lower, lowercase, to_upper_char, upper, uppercase, upper_char};

verus! {

/// `s` begins with `t`.
pub open spec fn starts_with(s: Seq<char>, t: Seq<char>) -> bool {
    s.len() >= t.len() && s.subrange(0, t.len() as int) == t
}

fn has_prefix(s: &Vec<char>, t: &Vec<char>) -> (r: bool)
    ensures
        r == starts_with(s@, t@),
{
    if s.len() < t.len() {
        return false;
    }
    let mut i: usize = 0;
    while i < t.len()
        invariant
            t.len() <= s.len(),
            i <= t.len(),
            forall|k: int| 0 <= k < i ==> s@[k] == t@[k],
        decreases t.len() - i,
    {
        if s[i] != t[i] {
            assert(s@.subrange(0, t.len() as int)[i as int] != t@[i as int]);
            return false;
        }
        i = i + 1;
    }
    assert(s@.subrange(0, t.len() as int) =~= t@);
    true
}

/// The bucket of a field value under `prefix`: when the upper-cased value
/// starts with `prefix`, its character at 1-based position `pos`, upper-cased.
pub open spec fn bucket_letter(field: Seq<char>, prefix: Seq<char>, pos: nat) -> Option<char> {
    if starts_with(upper(field), prefix) && 1 <= pos <= field.len() {
        Some(upper_char(field[pos - 1]))
    } else {
        None
    }
}

pub fn letter_of(field_text: &String, prefix: &String, char_position: usize) -> (r: Option<char>)
    requires
        char_position >= 1,
    ensures
        r == bucket_letter(field_text@, prefix@, char_position as nat),
{
    let f = chars_of(field_text.as_str());
    let p = chars_of(prefix.as_str());
    if has_prefix(&uppercase(&f), &p) && char_position <= f.len() {
        Some(to_upper_char(f[char_position - 1]))
    } else {
        None
    }
}

/// Counts the bucket of one matching document's field value, if it has one.
pub fn count_letter(fruit: &mut CountMap, field_text: &String, prefix: &String, char_position: usize)
    requires
        old(fruit).wf(),
        char_position >= 1,
    ensures
        final(fruit).wf(),
        final(fruit)@ == match bucket_letter(field_text@, prefix@, char_position as nat) {
            Some(c) => bump(old(fruit)@, seq![c]),
            None => old(fruit)@,
        },
{
    if let Some(c) = letter_of(field_text, prefix, char_position) {
        let mut k = String::new();
        k.push(c);
        assert(k@ =~= seq![c]);
        fruit.increment(k);
    }
}

/// Counts one matching document's whole field value.
pub fn count_value(fruit: &mut CountMap, field_text: &String)
    requires
        old(fruit).wf(),
    ensures
        final(fruit).wf(),
        final(fruit)@ == bump(old(fruit)@, field_text@),
{
    fruit.increment(field_text.clone());
}

/// The search pattern for field values that start with `prefix`, in lower case.
pub fn prefix_pattern(prefix: &String) -> (r: String)
    ensures
        r@ == lower(prefix@) + ".*"@,
{
    let mut r = crate::text::string_of(&lowercase(&chars_of(prefix.as_str())));
    r.append(".*");
    r
}

/// `x` is the category of a letter bucket: `prefix` followed by the letter,
/// with the bucket's count, for a bucket holding more than `floor` books.
pub open spec fn is_letter_category(
    fruit: Seq<(Seq<char>, usize)>,
    prefix: Seq<char>,
    floor: usize,
    x: (Seq<char>, usize),
) -> bool {
    exists|i: int|
        0 <= i < fruit.len() && (#[trigger] fruit[i]).1 > floor && x == (prefix + fruit[i].0, fruit[i].1)
}

/// `x` is the category of a whole value: a value whose lower-cased form
/// starts with the lower-cased `prefix`, with its count.
pub open spec fn is_value_category(fruit: Seq<(Seq<char>, usize)>, prefix: Seq<char>, x: (Seq<char>, usize)) -> bool {
    exists|i: int|
        0 <= i < fruit.len() && starts_with(lower((#[trigger] fruit[i]).0), lower(prefix)) && x == fruit[i]
}

proof fn lemma_prefix_cancel(p: Seq<char>, a: Seq<char>, b: Seq<char>)
    requires
        p + a == p + b,
    ensures
        a == b,
{
    assert(a =~= (p + a).subrange(p.len() as int, (p + a).len() as int));
    assert(b =~= (p + b).subrange(p.len() as int, (p + b).len() as int));
}

/// Letter buckets as categories, ascending by prefix.
pub fn letter_categories(prefix: &String, fruit: &CountMap, floor: usize) -> (r: CategorySearchResult)
    requires
        fruit.wf(),
    ensures
        r.count == r.categories.len(),
        sorted_by_prefix(cat_views(r.categories@)),
        forall|x: (Seq<char>, usize)| #[trigger] cat_views(r.categories@).contains(x) <==> is_letter_category(fruit@, prefix@, floor, x),
{
    let entries = fruit.entries();
    proof {
        fruit.lemma_wf_unique();
    }
    let mut cats: Vec<Category> = Vec::new();
    let mut i: usize = 0;
    while i < entries.len()
        invariant
            i <= entries.len(),
            entry_views(entries@) == fruit@,
            crate::tally::unique_keys(fruit@),
            sorted_by_prefix(cat_views(cats@)),
            forall|x: (Seq<char>, usize)| #[trigger] cat_views(cats@).contains(x) <==> is_letter_category(fruit@.subrange(0, i as int), prefix@, floor, x),
        decreases entries.len() - i,
    {
        let ghost pre = fruit@.subrange(0, i as int);
        let ghost next = fruit@.subrange(0, i + 1);
        assert(fruit@[i as int] == (entries@[i as int].0@, entries@[i as int].1));
        let n = entries[i].1;
        if n > floor {
            let mut key = prefix.clone();
            key.append(entries[i].0.as_str());
            let c = Category { prefix: key, count: n };
            proof {
                assert forall|k: int| 0 <= k < cats@.len() implies (#[trigger] cats@[k]).prefix@ != c.prefix@ by {
                    let x = cat_views(cats@)[k];
                    assert(cat_views(cats@).contains(x));
                    let j = choose|j: int| 0 <= j < pre.len() && (#[trigger] pre[j]).1 > floor && x == (prefix@ + pre[j].0, pre[j].1);
                    if x.0 == c.prefix@ {
                        lemma_prefix_cancel(prefix@, pre[j].0, fruit@[i as int].0);
                        assert(fruit@[j] == pre[j]);
                    }
                }
            }
            let ghost before = cat_views(cats@);
            insert_sorted(&mut cats, c);
            proof {
                assert forall|x: (Seq<char>, usize)| #[trigger] cat_views(cats@).contains(x) <==> is_letter_category(next, prefix@, floor, x) by {
                    if is_letter_category(next, prefix@, floor, x) {
                        let j = choose|j: int| 0 <= j < next.len() && (#[trigger] next[j]).1 > floor && x == (prefix@ + next[j].0, next[j].1);
                        if j < i {
                            assert(pre[j] == next[j]);
                            assert(is_letter_category(pre, prefix@, floor, x));
                        }
                    }
                    if before.contains(x) {
                        let j = choose|j: int| 0 <= j < pre.len() && (#[trigger] pre[j]).1 > floor && x == (prefix@ + pre[j].0, pre[j].1);
                        assert(next[j] == pre[j]);
                    }
                    if x == cat_view(c) {
                        assert(next[i as int] == fruit@[i as int]);
                    }
                }
            }
        } else {
            proof {
                assert forall|x: (Seq<char>, usize)| #[trigger] cat_views(cats@).contains(x) <==> is_letter_category(next, prefix@, floor, x) by {
                    if is_letter_category(next, prefix@, floor, x) {
                        let j = choose|j: int| 0 <= j < next.len() && (#[trigger] next[j]).1 > floor && x == (prefix@ + next[j].0, next[j].1);
                        assert(pre[j] == next[j]);
                    }
                    if is_letter_category(pre, prefix@, floor, x) {
                        let j = choose|j: int| 0 <= j < pre.len() && (#[trigger] pre[j]).1 > floor && x == (prefix@ + pre[j].0, pre[j].1);
                        assert(next[j] == pre[j]);
                    }
                }
            }
        }
        i = i + 1;
    }
    assert(fruit@.subrange(0, i as int) =~= fruit@);
    CategorySearchResult { count: cats.len(), categories: cats }
}

/// Whole values as categories, those starting with `prefix` (letter case
/// ignored), ascending by value.
pub fn value_categories(fruit: &CountMap, prefix: &String) -> (r: CategorySearchResult)
    requires
        fruit.wf(),
    ensures
        r.count == r.categories.len(),
        sorted_by_prefix(cat_views(r.categories@)),
        forall|x: (Seq<char>, usize)| #[trigger] cat_views(r.categories@).contains(x) <==> is_value_category(fruit@, prefix@, x),
{
    let lp = lowercase(&chars_of(prefix.as_str()));
    let entries = fruit.entries();
    proof {
        fruit.lemma_wf_unique();
    }
    let mut cats: Vec<Category> = Vec::new();
    let mut i: usize = 0;
    while i < entries.len()
        invariant
            i <= entries.len(),
            lp@ == lower(prefix@),
            entry_views(entries@) == fruit@,
            crate::tally::unique_keys(fruit@),
            sorted_by_prefix(cat_views(cats@)),
            forall|x: (Seq<char>, usize)| #[trigger] cat_views(cats@).contains(x) <==> is_value_category(fruit@.subrange(0, i as int), prefix@, x),
        decreases entries.len() - i,
    {
        let ghost pre = fruit@.subrange(0, i as int);
        let ghost next = fruit@.subrange(0, i + 1);
        assert(fruit@[i as int] == (entries@[i as int].0@, entries@[i as int].1));
        if has_prefix(&lowercase(&chars_of(entries[i].0.as_str())), &lp) {
            let c = Category { prefix: entries[i].0.clone(), count: entries[i].1 };
            proof {
                assert forall|k: int| 0 <= k < cats@.len() implies (#[trigger] cats@[k]).prefix@ != c.prefix@ by {
                    let x = cat_views(cats@)[k];
                    assert(cat_views(cats@).contains(x));
                    let j = choose|j: int| 0 <= j < pre.len() && starts_with(lower((#[trigger] pre[j]).0), lower(prefix@)) && x == pre[j];
                    assert(fruit@[j] == pre[j]);
                }
            }
            let ghost before = cat_views(cats@);
            insert_sorted(&mut cats, c);
            proof {
                assert forall|x: (Seq<char>, usize)| #[trigger] cat_views(cats@).contains(x) <==> is_value_category(next, prefix@, x) by {
                    if is_value_category(next, prefix@, x) {
                        let j = choose|j: int| 0 <= j < next.len() && starts_with(lower((#[trigger] next[j]).0), lower(prefix@)) && x == next[j];
                        if j < i {
                            assert(pre[j] == next[j]);
                            assert(is_value_category(pre, prefix@, x));
                        }
                    }
                    if before.contains(x) {
                        let j = choose|j: int| 0 <= j < pre.len() && starts_with(lower((#[trigger] pre[j]).0), lower(prefix@)) && x == pre[j];
                        assert(next[j] == pre[j]);
                    }
                    if x == cat_view(c) {
                        assert(next[i as int] == fruit@[i as int]);
                    }
                }
            }
        } else {
            proof {
                assert forall|x: (Seq<char>, usize)| #[trigger] cat_views(cats@).contains(x) <==> is_value_category(next, prefix@, x) by {
                    if is_value_category(next, prefix@, x) {
                        let j = choose|j: int| 0 <= j < next.len() && starts_with(lower((#[trigger] next[j]).0), lower(prefix@)) && x == next[j];
                        assert(pre[j] == next[j]);
                    }
                    if is_value_category(pre, prefix@, x) {
                        let j = choose|j: int| 0 <= j < pre.len() && starts_with(lower((#[trigger] pre[j]).0), lower(prefix@)) && x == pre[j];
                        assert(next[j] == pre[j]);
                    }
                }
            }
        }
        i = i + 1;
    }
    assert(fruit@.subrange(0, i as int) =~= fruit@);
    CategorySearchResult { count: cats.len(), categories: cats }
}

} // verus!
