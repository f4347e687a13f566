//! Result pages of searches, aggregate queries and browse categories, and
//! their JSON text.
use vstd::prelude::*;
use vstd::string::*;
use crate::identity::opt_view;
use crate::json::{decimal, dec, join_commas, append_joined, json_quoted, json_string, ToJson};
use crate::text::views;

verus! {

/// One page of results: `count` matches in all, the page starting at
/// position `start`.
#[derive(Debug)]
pub struct SearchResult<T> {
    pub count: usize,
    pub start: usize,
    pub query: Option<String>,
    pub payload: Vec<T>,
}

/// Browse categories with how many there are.
#[derive(Debug)]
pub struct CategorySearchResult {
    pub count: usize,
    pub categories: Vec<Category>,
}

/// A browse category: the key prefix (or whole value) and how many books
/// fall under it.
#[derive(Debug)]
pub struct Category {
    pub prefix: String,
    pub count: usize,
}

/// The header of an OPDS catalogue page.
#[derive(Debug)]
pub struct OpdsPage {
    pub id: String,
    pub date: String,
    pub title: String,
    pub url: String,
}

/// The JSON texts of the items, in order.
pub open spec fn jsons<T: ToJson>(items: Seq<T>) -> Seq<Seq<char>> {
    items.map_values(|t: T| t.json())
}

/// The query as a JSON string literal; an absent query as `""`.
pub open spec fn query_json(q: Option<Seq<char>>) -> Seq<char> {
    match q {
        Some(s) => json_quoted(s),
        None => "\"\""@,
    }
}

/// The number of ranked hits to fetch for a page: `start + limit`, capped at
/// the largest `usize`.
pub fn top_limit(start: usize, limit: usize) -> (r: usize)
    ensures
        r == if start + limit > usize::MAX {
            usize::MAX as int
        } else {
            start + limit
        },
{
    if start > usize::MAX - limit {
        usize::MAX
    } else {
        start + limit
    }
}

/// Where a page from `start` begins in `len` ranked hits.
pub open spec fn page_lo(start: usize, len: nat) -> int {
    if start < len {
        start as int
    } else {
        len as int
    }
}

/// Where a page from `start` of at most `limit` hits ends in `len` ranked
/// hits.
pub open spec fn page_hi(start: usize, limit: usize, len: nat) -> int {
    if start + limit < len {
        start + limit
    } else {
        len as int
    }
}

impl<T> SearchResult<T> {
    /// The page of `ranked` (the best hits, best first) from position
    /// `start`, at most `limit` hits long.
    pub fn from_ranked(
        count: usize,
        start: usize,
        limit: usize,
        query: Option<String>,
        ranked: Vec<T>,
    ) -> (r: SearchResult<T>)
        ensures
            r.count == count,
            r.start == start,
            r.query == query,
            r.payload@ == ranked@.subrange(
                page_lo(start, ranked@.len()),
                page_hi(start, limit, ranked@.len()),
            ),
            r.payload.len() <= limit,
    {
        let total = ranked.len();
        let end: usize = if start >= total {
            total
        } else if limit >= total - start {
            total
        } else {
            start + limit
        };
        let ghost full = ranked@;
        let mut ranked = ranked;
        ranked.truncate(end);
        let ghost orig = ranked@;
        let n = ranked.len();
        let mut rev: Vec<T> = Vec::new();
        while ranked.len() > start
            invariant
                ranked.len() <= n,
                ranked.len() == n || ranked.len() >= start,
                n == orig.len(),
                rev.len() == n - ranked.len(),
                forall|k: int| 0 <= k < ranked.len() ==> ranked@[k] == orig[k],
                forall|k: int| 0 <= k < rev.len() ==> #[trigger] rev@[k] == orig[n - 1 - k],
            decreases ranked.len(),
        {
            let x = ranked.pop().unwrap();
            rev.push(x);
        }
        let m = rev.len();
        let mut payload: Vec<T> = Vec::new();
        while rev.len() > 0
            invariant
                m == n - ranked.len(),
                n == orig.len(),
                ranked.len() <= n,
                m == 0 || ranked.len() == start,
                rev.len() + payload.len() == m,
                forall|k: int| 0 <= k < rev.len() ==> #[trigger] rev@[k] == orig[n - 1 - k],
                forall|k: int| 0 <= k < payload.len() ==> #[trigger] payload@[k] == orig[n - m + k],
            decreases rev.len(),
        {
            let x = rev.pop().unwrap();
            payload.push(x);
        }
        let r = SearchResult { count, start, query, payload };
        assert(orig == full.subrange(0, end as int));
        assert(n == end);
        if start < n {
            assert(r.payload@ =~= full.subrange(page_lo(start, total as nat), page_hi(start, limit, total as nat)));
        } else {
            assert(r.payload@ =~= full.subrange(page_lo(start, total as nat), page_hi(start, limit, total as nat)));
        }
        r
    }
}

/// The one hit of a lookup by a unique key; none when there is no hit or
/// more than one.
pub fn single_hit<T>(hits: Vec<T>) -> (r: Option<T>)
    ensures
        hits.len() == 1 ==> r == Some(hits@[0]),
        hits.len() != 1 ==> r is None,
{
    if hits.len() == 1 {
        let mut hits = hits;
        hits.pop()
    } else {
        None
    }
}

impl<T: ToJson> SearchResult<T> {
    /// `{"count":C, "position":S, "query":"Q", "books":[...]}`.
    pub open spec fn json(&self) -> Seq<char> {
        "{\"count\":"@ + dec(self.count as nat) + ", \"position\":"@ + dec(self.start as nat)
            + ", \"query\":"@ + query_json(opt_view(self.query)) + ", \"books\":["@ + join_commas(
            jsons(self.payload@),
        ) + "]}"@
    }

    pub fn to_json(&self) -> (r: String)
        ensures
            r@ == self.json(),
    {
        let mut items: Vec<String> = Vec::new();
        let mut i: usize = 0;
        while i < self.payload.len()
            invariant
                i <= self.payload.len(),
                items@.len() == i,
                views(items@) == jsons(self.payload@.subrange(0, i as int)),
            decreases self.payload.len() - i,
        {
            let ghost before = items@;
            let j = self.payload[i].to_json();
            items.push(j);
            i = i + 1;
            assert(views(items@) =~= jsons(self.payload@.subrange(0, i as int))) by {
                assert forall|k: int| 0 <= k < i implies views(items@)[k] == jsons(
                    self.payload@.subrange(0, i as int),
                )[k] by {
                    if k < i - 1 {
                        assert(views(before)[k] == jsons(self.payload@.subrange(0, i - 1))[k]);
                    }
                }
            }
        }
        assert(self.payload@.subrange(0, i as int) =~= self.payload@);
        let mut r = String::from_str("{\"count\":");
        r.append(decimal(self.count as u64).as_str());
        r.append(", \"position\":");
        r.append(decimal(self.start as u64).as_str());
        r.append(", \"query\":");
        match &self.query {
            Some(q) => r.append(json_string(q.as_str()).as_str()),
            None => r.append("\"\""),
        }
        r.append(", \"books\":[");
        append_joined(&mut r, &items);
        r.append("]}");
        r
    }
}

} // verus!
