//! The aggregate store's rows (authors, publishers, tags with their counts),
//! the SQL text that creates, fills and queries its tables, and the shaping
//! of query rows into result pages.
use vstd::prelude::*;
use vstd::string::*;
use crate::identity::opt_view;
use crate::json::{dec, decimal, json_quoted, json_string, ToJson};
use crate::search_result::SearchResult;
use crate::tally::CountMap;

verus! {

/// How many books have a creator.
#[derive(Debug)]
pub struct AuthorCount {
    pub creator: String,
    pub count: u32,
}

/// How many books have a publisher.
#[derive(Debug)]
pub struct PublisherCount {
    pub publisher: String,
    pub count: u32,
}

/// How many books carry a tag.
#[derive(Debug)]
pub struct TagCount {
    pub tag: String,
    pub count: u32,
}

/// A table of the aggregate store: its name, its key column, and how its
/// rows `T` are built from (key, count).
pub trait DbInfo<T> {
    spec fn table_name() -> Seq<char>;

    spec fn key_column() -> Seq<char>;

    /// The key and count that a row holds.
    spec fn row_of(t: T) -> (Seq<char>, u32);

    fn new(key: String, count: u32) -> (r: T)
        ensures
            Self::row_of(r) == (key@, count),
    ;

    fn get_table() -> (r: String)
        ensures
            r@ == Self::table_name(),
    ;

    fn get_pkcol() -> (r: String)
        ensures
            r@ == Self::key_column(),
    ;
}

impl DbInfo<AuthorCount> for AuthorCount {
    open spec fn table_name() -> Seq<char> {
        "authors"@
    }

    open spec fn key_column() -> Seq<char> {
        "creator"@
    }

    open spec fn row_of(t: AuthorCount) -> (Seq<char>, u32) {
        (t.creator@, t.count)
    }

    fn new(key: String, count: u32) -> (r: AuthorCount) {
        AuthorCount { creator: key, count }
    }

    fn get_table() -> (r: String) {
        String::from_str("authors")
    }

    fn get_pkcol() -> (r: String) {
        String::from_str("creator")
    }
}

impl DbInfo<PublisherCount> for PublisherCount {
    open spec fn table_name() -> Seq<char> {
        "publishers"@
    }

    open spec fn key_column() -> Seq<char> {
        "publisher"@
    }

    open spec fn row_of(t: PublisherCount) -> (Seq<char>, u32) {
        (t.publisher@, t.count)
    }

    fn new(key: String, count: u32) -> (r: PublisherCount) {
        PublisherCount { publisher: key, count }
    }

    fn get_table() -> (r: String) {
        String::from_str("publishers")
    }

    fn get_pkcol() -> (r: String) {
        String::from_str("publisher")
    }
}

impl DbInfo<TagCount> for TagCount {
    open spec fn table_name() -> Seq<char> {
        "tags"@
    }

    open spec fn key_column() -> Seq<char> {
        "tag"@
    }

    open spec fn row_of(t: TagCount) -> (Seq<char>, u32) {
        (t.tag@, t.count)
    }

    fn new(key: String, count: u32) -> (r: TagCount) {
        TagCount { tag: key, count }
    }

    fn get_table() -> (r: String) {
        String::from_str("tags")
    }

    fn get_pkcol() -> (r: String) {
        String::from_str("tag")
    }
}

/// `{"<key column>":"<key>","count":<count>}`.
pub open spec fn row_json(key_column: Seq<char>, key: Seq<char>, count: u32) -> Seq<char> {
    "{"@ + json_quoted(key_column) + ":"@ + json_quoted(key) + ",\"count\":"@ + dec(count as nat)
        + "}"@
}

fn row_to_json(key_column: &str, key: &String, count: u32) -> (r: String)
    ensures
        r@ == row_json(key_column@, key@, count),
{
    let mut r = String::from_str("{");
    r.append(json_string(key_column).as_str());
    r.append(":");
    r.append(json_string(key.as_str()).as_str());
    r.append(",\"count\":");
    r.append(decimal(count as u64).as_str());
    r.append("}");
    r
}

impl ToJson for AuthorCount {
    open spec fn json(&self) -> Seq<char> {
        row_json("creator"@, self.creator@, self.count)
    }

    fn to_json(&self) -> (r: String) {
        row_to_json("creator", &self.creator, self.count)
    }
}

impl ToJson for PublisherCount {
    open spec fn json(&self) -> Seq<char> {
        row_json("publisher"@, self.publisher@, self.count)
    }

    fn to_json(&self) -> (r: String) {
        row_to_json("publisher", &self.publisher, self.count)
    }
}

impl ToJson for TagCount {
    open spec fn json(&self) -> Seq<char> {
        row_json("tag"@, self.tag@, self.count)
    }

    fn to_json(&self) -> (r: String) {
        row_to_json("tag", &self.tag, self.count)
    }
}

/// `CREATE TABLE <table> (<key> TEXT primary key, count INTEGER)`.
pub open spec fn create_table_text(table: Seq<char>, key: Seq<char>) -> Seq<char> {
    "CREATE TABLE "@ + table + " ("@ + key + " TEXT primary key, count INTEGER)"@
}

/// `INSERT INTO <table>(<key>, count) values (?1, ?2)`.
pub open spec fn insert_text(table: Seq<char>, key: Seq<char>) -> Seq<char> {
    "INSERT INTO "@ + table + "("@ + key + ", count) values (?1, ?2)"@
}

/// The statement that creates the table of `T`.
pub fn create_table_sql<T: DbInfo<T>>() -> (r: String)
    ensures
        r@ == create_table_text(T::table_name(), T::key_column()),
{
    let mut r = String::from_str("CREATE TABLE ");
    r.append(T::get_table().as_str());
    r.append(" (");
    r.append(T::get_pkcol().as_str());
    r.append(" TEXT primary key, count INTEGER)");
    r
}

/// The statement that inserts one (key, count) row into the table of `T`.
pub fn insert_sql<T: DbInfo<T>>() -> (r: String)
    ensures
        r@ == insert_text(T::table_name(), T::key_column()),
{
    let mut r = String::from_str("INSERT INTO ");
    r.append(T::get_table().as_str());
    r.append("(");
    r.append(T::get_pkcol().as_str());
    r.append(", count) values (?1, ?2)");
    r
}

/// The aggregate query: every column plus the number of matching rows
/// regardless of the limit, optionally filtered with `LIKE ?`, ordered by
/// count or by key, ascending or descending, `count` rows from `offset`.
pub open spec fn count_query_text(
    order_by_count: bool,
    asc: bool,
    where_clause: bool,
    offset: u32,
    count: u32,
    table: Seq<char>,
    field: Seq<char>,
) -> Seq<char> {
    "select *, count(*) OVER() from "@ + table + " "@ + (if where_clause {
        " where "@ + field + " like ?"@
    } else {
        Seq::empty()
    }) + " "@ + (if order_by_count {
        " order by count"@
    } else {
        " order by "@ + field
    }) + " "@ + (if asc {
        " ASC"@
    } else {
        " DESC"@
    }) + " limit "@ + dec(offset as nat) + ", "@ + dec(count as nat)
}

pub fn get_count_sql(
    order_by_count: bool,
    asc: bool,
    where_clause: bool,
    offset: u32,
    count: u32,
    table: &str,
    field: &str,
) -> (r: String)
    ensures
        r@ == count_query_text(order_by_count, asc, where_clause, offset, count, table@, field@),
{
    let mut r = String::from_str("select *, count(*) OVER() from ");
    r.append(table);
    r.append(" ");
    let ghost w: Seq<char>;
    if where_clause {
        r.append(" where ");
        r.append(field);
        r.append(" like ?");
        proof {
            w = " where "@ + field@ + " like ?"@;
        }
    } else {
        proof {
            w = Seq::empty();
        }
    }
    r.append(" ");
    if order_by_count {
        r.append(" order by count");
    } else {
        r.append(" order by ");
        r.append(field);
    }
    r.append(" ");
    if asc {
        r.append(" ASC");
    } else {
        r.append(" DESC");
    }
    r.append(" limit ");
    r.append(decimal(offset as u64).as_str());
    r.append(", ");
    r.append(decimal(count as u64).as_str());
    assert(r@ =~= count_query_text(order_by_count, asc, where_clause, offset, count, table@, field@));
    r
}

/// The `LIKE` pattern that matches keys containing `filter`.
pub fn like_pattern(filter: &String) -> (r: String)
    ensures
        r@ == "%"@ + filter@ + "%"@,
{
    let mut r = String::from_str("%");
    r.append(filter.as_str());
    r.append("%");
    r
}

/// The page of an aggregate query from the rows the store returned, each
/// (key, count, total): at most `limit` rows, and the total that the store
/// reported with them (zero without rows).
pub fn counts_page<T: DbInfo<T>>(
    rows: Vec<(String, u32, usize)>,
    offset: u32,
    limit: u32,
    filter: Option<String>,
) -> (r: SearchResult<T>)
    ensures
        r.payload.len() <= limit,
        r.payload.len() == if rows.len() < limit {
            rows.len() as int
        } else {
            limit as int
        },
        forall|i: int| 0 <= i < r.payload.len() ==> T::row_of(#[trigger] r.payload@[i]) == (
            rows@[i].0@,
            rows@[i].1,
        ),
        r.count == if rows.len() > 0 {
            rows@[0].2
        } else {
            0
        },
        r.start == offset,
        opt_view(r.query) == opt_view(filter),
{
    let total: usize = if rows.len() > 0 {
        rows[0].2
    } else {
        0
    };
    let ghost orig = rows@;
    let n = rows.len();
    let keep: usize = if n < limit as usize {
        n
    } else {
        limit as usize
    };
    let mut rows = rows;
    let mut rev: Vec<(String, u32, usize)> = Vec::new();
    while rows.len() > 0
        invariant
            rows.len() + rev.len() == n,
            n == orig.len(),
            forall|k: int| 0 <= k < rows.len() ==> rows@[k] == orig[k],
            forall|k: int| 0 <= k < rev.len() ==> #[trigger] rev@[k] == orig[n - 1 - k],
        decreases rows.len(),
    {
        let x = rows.pop().unwrap();
        rev.push(x);
    }
    let mut payload: Vec<T> = Vec::new();
    while payload.len() < keep
        invariant
            keep <= n,
            keep == if n < limit {
                n as int
            } else {
                limit as int
            },
            payload.len() <= keep,
            n == orig.len(),
            rev.len() + payload.len() == n,
            forall|k: int| 0 <= k < rev.len() ==> #[trigger] rev@[k] == orig[n - 1 - k],
            forall|k: int| 0 <= k < payload.len() ==> T::row_of(#[trigger] payload@[k]) == (
                orig[k].0@,
                orig[k].1,
            ),
        decreases keep - payload.len(),
    {
        let ghost p = payload.len();
        let (key, count, _) = rev.pop().unwrap();
        assert(rev@.len() == n - p - 1);
        payload.push(T::new(key, count));
    }
    SearchResult { count: total, start: offset as usize, query: filter, payload }
}

/// The counted keys as rows for the store, counts beyond `u32::MAX` held at
/// `u32::MAX`.
pub fn store_rows(counts: &CountMap) -> (r: Vec<(String, u32)>)
    ensures
        r@.len() == counts@.len(),
        forall|i: int| 0 <= i < r@.len() ==> (#[trigger] r@[i]).0@ == counts@[i].0 && r@[i].1 == if counts@[i].1 > u32::MAX {
            u32::MAX
        } else {
            counts@[i].1 as u32
        },
{
    let entries = counts.entries();
    let mut r: Vec<(String, u32)> = Vec::new();
    let mut i: usize = 0;
    while i < entries.len()
        invariant
            i <= entries.len(),
            crate::tally::entry_views(entries@) == counts@,
            r@.len() == i,
            forall|k: int| 0 <= k < i ==> (#[trigger] r@[k]).0@ == counts@[k].0 && r@[k].1 == if counts@[k].1 > u32::MAX {
                u32::MAX
            } else {
                counts@[k].1 as u32
            },
        decreases entries.len() - i,
    {
        let c = entries[i].1;
        let c32: u32 = if c > 0xffff_ffff {
            0xffff_ffff
        } else {
            c as u32
        };
        assert(counts@[i as int] == (entries@[i as int].0@, entries@[i as int].1));
        r.push((entries[i].0.clone(), c32));
        i = i + 1;
    }
    r
}

} // verus!
