//! What the catalogue server decides for each request: parameter checks,
//! which store to ask, and the navigation entries and texts it returns.
use vstd::prelude::*;
use vstd::string::*;
use crate::error::{error_response_json, ClientError, StoreError};
use crate::identity::opt_view;
use crate::json::{dec_int, decimal_i64};
use crate::numbers::{natural_value, integer_value, parse_i64, parse_usize};
use crate::search_result::{Category, CategorySearchResult, OpdsPage};
use crate::text::{chars_of, split_char, split_on, trim, trimmed, views};

verus! {

/// The UTF-8 form of a character.
pub open spec fn utf8_bytes(c: char) -> Seq<u8> {
    let u = c as u32;
    if u < 0x80 {
        seq![u as u8]
    } else if u < 0x800 {
        seq![(0xC0 + u / 64) as u8, (0x80 + u % 64) as u8]
    } else if u < 0x10000 {
        seq![(0xE0 + u / 4096) as u8, (0x80 + (u / 64) % 64) as u8, (0x80 + u % 64) as u8]
    } else {
        seq![
            (0xF0 + u / 262144) as u8,
            (0x80 + (u / 4096) % 64) as u8,
            (0x80 + (u / 64) % 64) as u8,
            (0x80 + u % 64) as u8,
        ]
    }
}

/// An upper-case hexadecimal digit, for `d < 16`.
pub open spec fn hex_upper(d: nat) -> char {
    if d < 10 {
        (48 + d) as char
    } else {
        (55 + d) as char
    }
}

/// A byte that URL encoding leaves as it is: an ASCII letter or digit, or
/// one of `-`, `.`, `_`, `~`.
pub open spec fn url_safe_byte(b: u8) -> bool {
    (48 <= b <= 57) || (65 <= b <= 90) || (97 <= b <= 122) || b == 45 || b == 46 || b == 95 || b
        == 126
}

/// One byte, URL encoded: as it is when safe, else `%` and two upper-case
/// hexadecimal digits.
pub open spec fn url_byte(b: u8) -> Seq<char> {
    if url_safe_byte(b) {
        seq![(b as u32) as char]
    } else {
        seq!['%', hex_upper((b / 16) as nat), hex_upper((b % 16) as nat)]
    }
}

/// Bytes, URL encoded.
pub open spec fn url_bytes(bs: Seq<u8>) -> Seq<char>
    decreases bs.len(),
{
    if bs.len() == 0 {
        Seq::empty()
    } else {
        url_bytes(bs.drop_last()) + url_byte(bs.last())
    }
}

/// `s` with every byte of its UTF-8 form percent-encoded except ASCII
/// letters, digits and `-`, `.`, `_`, `~`.
pub open spec fn url_encoded(s: Seq<char>) -> Seq<char>
    decreases s.len(),
{
    if s.len() == 0 {
        Seq::empty()
    } else {
        url_encoded(s.drop_last()) + url_bytes(utf8_bytes(s.last()))
    }
}

/// `s` with its percent-escapes decoded, when the result is UTF-8.
pub uninterp spec fn url_decoded(s: Seq<char>) -> Option<Seq<char>>;

/// Relies on `urlencoding::encode`: every byte of the UTF-8 form except
/// ASCII alphanumerics and `-._~` is percent-encoded with upper-case digits.
#[verifier::external_body]
fn encode_url(s: &str) -> (r: String)
    ensures
        r@ == url_encoded(s@),
{
    urlencoding::encode(s).into_owned()
}

/// Relies on `urlencoding::decode`: percent-escapes decoded, an error when
/// the bytes are not UTF-8; a text without `%` comes back unchanged.
#[verifier::external_body]
fn decode_url(s: &str) -> (r: Option<String>)
    ensures
        opt_view(r) == url_decoded(s@),
        opt_view(r) == Some(s@) || s@.contains('%'),
{
    match urlencoding::decode(s) {
        Ok(d) => Some(d.into_owned()),
        Err(_) => None,
    }
}

/// Alphabetical buckets holding more books than this are split further by
/// the next letter; smaller ones list their authors.
pub const AUTHOR_BUCKET_LIMIT: usize = 2000;

/// How many books an OPDS search feed lists at most.
pub const OPDS_FEED_LIMIT: usize = 2000;

/// The fixed update time of the catalogue's navigation entries.
pub const CATALOGUE_DATE: &'static str = "2021-01-21T10:56:30+01:00";

/// An error that keeps the server from starting.
#[derive(Debug)]
pub struct ServerError {
    pub msg: String,
}

impl ServerError {
    pub fn new(msg: &str) -> (r: ServerError)
        ensures
            r.msg@ == msg@,
    {
        ServerError { msg: String::from_str(msg) }
    }

    pub fn to_text(&self) -> (r: String)
        ensures
            r@ == self.msg@,
    {
        self.msg.clone()
    }
}

/// A navigation entry of the OPDS catalogue.
#[derive(Debug)]
pub struct OpdsCategory {
    pub id: i64,
    pub moddate: String,
    pub title: String,
    pub url: String,
    pub icon: Option<String>,
}

impl OpdsCategory {
    pub fn new(title: String, url: String) -> (r: OpdsCategory)
        ensures
            r.id == 1,
            r.moddate@ == CATALOGUE_DATE@,
            r.title == title,
            r.url == url,
            r.icon is None,
    {
        OpdsCategory { id: 1, moddate: String::from_str(CATALOGUE_DATE), title, url, icon: None }
    }
}

/// The header of every OPDS page.
pub fn opds_page() -> (r: OpdsPage)
    ensures
        r.id@ == "1"@,
        r.date@ == CATALOGUE_DATE@,
        r.title@ == "ShelfControl"@,
        r.url@ == "localhost:8000"@,
{
    OpdsPage {
        id: String::from_str("1"),
        date: String::from_str(CATALOGUE_DATE),
        title: String::from_str("ShelfControl"),
        url: String::from_str("localhost:8000"),
    }
}

/// The entries of the catalogue root: authors, tags, year of publication and
/// titles.
pub fn root_navs() -> (r: Vec<OpdsCategory>)
    ensures
        r.len() == 4,
        r[0].title@ == "Authors"@ && r[0].url@ == "/opds/authors"@,
        r[1].title@ == "Tags"@ && r[1].url@ == "/opds/tags"@,
        r[2].title@ == "Year of Publication"@ && r[2].url@ == Seq::<char>::empty(),
        r[3].title@ == "Titles"@ && r[3].url@ == Seq::<char>::empty(),
        forall|i: int| 0 <= i < 4 ==> (#[trigger] r[i]).id == 1 && r[i].moddate@ == CATALOGUE_DATE@,
{
    let mut r: Vec<OpdsCategory> = Vec::new();
    r.push(OpdsCategory::new(String::from_str("Authors"), String::from_str("/opds/authors")));
    r.push(OpdsCategory::new(String::from_str("Tags"), String::from_str("/opds/tags")));
    r.push(OpdsCategory::new(String::from_str("Year of Publication"), String::new()));
    r.push(OpdsCategory::new(String::from_str("Titles"), String::new()));
    r
}

/// The body of a JSON error response.
pub fn error_body(name: &str, msg: &str) -> (r: String)
    ensures
        r@ == error_response_json(name@, msg@),
{
    ClientError::new(name, msg).get_error_response_json()
}

/// The status and body of the response to a failed search: a client error
/// goes back to the client with status 200, any other error is a server
/// error with status 500.
pub fn search_failure(e: &StoreError) -> (r: (u16, String))
    ensures
        match *e {
            StoreError::ClientError(ce) => r.0 == 200 && r.1@ == error_response_json(ce.name@, ce.msg@),
            _ => r.0 == 500 && r.1@ == error_response_json(
                "Server error"@,
                "There was a server side error."@,
            ),
        },
{
    match e {
        StoreError::ClientError(ce) => (200, ce.get_error_response_json()),
        _ => (500, error_body("Server error", "There was a server side error.")),
    }
}

/// How a letter-bucket browse is run: the 1-based position of the letter
/// after the prefix, and either the client's query or the prefix pattern.
#[derive(Debug)]
pub struct CategoriseQuery {
    pub char_position: usize,
    /// The client's query, to be parsed; when absent, `pattern` selects the
    /// values that start with the prefix.
    pub query: Option<String>,
    pub pattern: String,
}

pub fn categorise_query(prefix: &String, query: &Option<String>) -> (r: CategoriseQuery)
    requires
        prefix@.len() < usize::MAX,
    ensures
        r.char_position == prefix@.len() + 1,
        r.query == *query,
        r.pattern@ == crate::text::lower(prefix@) + ".*"@,
{
    let n = prefix.as_str().unicode_len();
    CategoriseQuery {
        char_position: n + 1,
        query: match query {
            Some(q) => Some(q.clone()),
            None => None,
        },
        pattern: crate::categories::prefix_pattern(prefix),
    }
}

/// The checked parameters of a search.
#[derive(Debug)]
pub struct SearchParams {
    pub query: String,
    pub start: usize,
    pub limit: usize,
}

/// An integer parameter: its default when absent, its value when it is a
/// decimal `usize`, none otherwise.
pub open spec fn usize_param(p: Option<Seq<char>>, default: usize) -> Option<usize> {
    match p {
        None => Some(default),
        Some(s) => match natural_value(s) {
            Some(v) => if v <= usize::MAX {
                Some(v as usize)
            } else {
                None
            },
            None => None,
        },
    }
}

fn usize_param_of(p: &Option<String>, default: usize) -> (r: Option<usize>)
    ensures
        r == usize_param(opt_view(*p), default),
{
    match p {
        None => Some(default),
        Some(s) => parse_usize(s),
    }
}

/// The error for a missing query.
pub open spec fn missing_query() -> (Seq<char>, Seq<char>) {
    ("Query error"@, "\"query\" should be provided when performing a query"@)
}

/// The outcome a search's parameters call for: the trimmed decoded query,
/// start and limit, or the name and message of the error.
pub open spec fn search_outcome(
    query: Option<Seq<char>>,
    start: Option<Seq<char>>,
    limit: Option<Seq<char>>,
) -> Result<(Seq<char>, usize, usize), (Seq<char>, Seq<char>)> {
    match query {
        None => Err(missing_query()),
        Some(q) => match url_decoded(q) {
            None => Err(("Query error"@, "\"query\" is not valid UTF-8 once decoded"@)),
            Some(d) => match usize_param(start, 0) {
                None => Err(("Type error"@, "\"start\" should have an integer argument"@)),
                Some(st) => match usize_param(limit, 20) {
                    None => Err(("Type error"@, "\"limit\" should have an integer argument"@)),
                    Some(l) => Ok((trim(d), st, l)),
                },
            },
        },
    }
}

pub open spec fn error_view(e: ClientError) -> (Seq<char>, Seq<char>) {
    (e.name@, e.msg@)
}

pub open spec fn search_view(r: Result<SearchParams, ClientError>) -> Result<
    (Seq<char>, usize, usize),
    (Seq<char>, Seq<char>),
> {
    match r {
        Ok(p) => Ok((p.query@, p.start, p.limit)),
        Err(e) => Err(error_view(e)),
    }
}

/// Checks the parameters of a search: the query is required, decoded and
/// trimmed; `start` defaults to 0 and `limit` to 20.
pub fn search_params(query: &Option<String>, start: &Option<String>, limit: &Option<String>) -> (r:
    Result<SearchParams, ClientError>)
    ensures
        search_view(r) == search_outcome(opt_view(*query), opt_view(*start), opt_view(*limit)),
{
    let q = match query {
        Some(q) => q,
        None => {
            return Err(
                ClientError::new(
                    "Query error",
                    "\"query\" should be provided when performing a query",
                ),
            )
        },
    };
    let decoded = match decode_url(q.as_str()) {
        Some(d) => d,
        None => {
            return Err(ClientError::new("Query error", "\"query\" is not valid UTF-8 once decoded"))
        },
    };
    let start = match usize_param_of(start, 0) {
        Some(n) => n,
        None => {
            return Err(ClientError::new("Type error", "\"start\" should have an integer argument"))
        },
    };
    let limit = match usize_param_of(limit, 20) {
        Some(n) => n,
        None => {
            return Err(ClientError::new("Type error", "\"limit\" should have an integer argument"))
        },
    };
    Ok(SearchParams { query: trimmed(&chars_of(decoded.as_str())), start, limit })
}

/// The aggregate tables that can be queried.
#[derive(Debug, Clone, Copy, PartialEq, Eq, Structural)]
pub enum CountKind {
    Tags,
    Authors,
    Publishers,
}

/// The checked parameters of an aggregate query; `kind` is none for an
/// unknown table.
#[derive(Debug)]
pub struct CountsParams {
    pub kind: Option<CountKind>,
    pub filter: Option<String>,
    pub start: u32,
    pub limit: u32,
    pub order_by_count: bool,
    pub ascending: bool,
}

/// A flag parameter: `default` when absent, the literal `true` or `false`,
/// none otherwise.
pub open spec fn flag_param(p: Option<Seq<char>>, default: bool) -> Option<bool> {
    match p {
        None => Some(default),
        Some(s) => if s == "true"@ {
            Some(true)
        } else if s == "false"@ {
            Some(false)
        } else {
            None
        },
    }
}

fn flag_param_of(p: &Option<String>, default: bool) -> (r: Option<bool>)
    ensures
        r == flag_param(opt_view(*p), default),
{
    match p {
        None => Some(default),
        Some(s) => {
            if *s == String::from_str("true") {
                Some(true)
            } else if *s == String::from_str("false") {
                Some(false)
            } else {
                None
            }
        },
    }
}

/// An integer parameter of an aggregate query: as `usize_param`, and at most
/// `u32::MAX`.
pub open spec fn u32_param(p: Option<Seq<char>>, default: usize) -> Option<u32> {
    match usize_param(p, default) {
        Some(v) => if v <= u32::MAX {
            Some(v as u32)
        } else {
            None
        },
        None => None,
    }
}

fn u32_param_of(p: &Option<String>, default: usize) -> (r: Option<u32>)
    ensures
        r == u32_param(opt_view(*p), default),
{
    match usize_param_of(p, default) {
        Some(v) => if v <= 0xffff_ffff {
            Some(v as u32)
        } else {
            None
        },
        None => None,
    }
}

/// The table named by the last path segment.
pub open spec fn count_kind(kind: Seq<char>) -> Option<CountKind> {
    if kind == "tags"@ {
        Some(CountKind::Tags)
    } else if kind == "authors"@ {
        Some(CountKind::Authors)
    } else if kind == "publishers"@ {
        Some(CountKind::Publishers)
    } else {
        None
    }
}

/// The outcome an aggregate query's parameters call for: table, trimmed
/// filter, start, limit and the two flags, or the name and message of the
/// error.
pub open spec fn counts_outcome(
    kind: Seq<char>,
    query: Option<Seq<char>>,
    start: Option<Seq<char>>,
    limit: Option<Seq<char>>,
    countorder: Option<Seq<char>>,
    ascending: Option<Seq<char>>,
) -> Result<(Option<CountKind>, Option<Seq<char>>, u32, u32, bool, bool), (Seq<char>, Seq<char>)> {
    match u32_param(start, 0) {
        None => Err(("Type error"@, "\"start\" should have an integer argument"@)),
        Some(st) => match u32_param(limit, 100) {
            None => Err(("Type error"@, "\"limit\" should have an integer argument"@)),
            Some(l) => match flag_param(countorder, false) {
                None => Err(("Type error"@, "\"countorder\" should be true or false"@)),
                Some(o) => match flag_param(ascending, !o) {
                    None => Err(("Type error"@, "\"ascending\" should be true or false"@)),
                    Some(a) => Ok(
                        (
                            count_kind(kind),
                            match query {
                                Some(q) => Some(trim(q)),
                                None => None,
                            },
                            st,
                            l,
                            o,
                            a,
                        ),
                    ),
                },
            },
        },
    }
}

pub open spec fn counts_view(r: Result<CountsParams, ClientError>) -> Result<
    (Option<CountKind>, Option<Seq<char>>, u32, u32, bool, bool),
    (Seq<char>, Seq<char>),
> {
    match r {
        Ok(p) => Ok((p.kind, opt_view(p.filter), p.start, p.limit, p.order_by_count, p.ascending)),
        Err(e) => Err(error_view(e)),
    }
}

/// Checks the parameters of an aggregate query: the filter is trimmed,
/// `start` defaults to 0, `limit` to 100, ordering to by key; the direction
/// defaults to descending for counts and ascending for keys.
pub fn counts_params(
    kind: &String,
    query: &Option<String>,
    start: &Option<String>,
    limit: &Option<String>,
    countorder: &Option<String>,
    ascending: &Option<String>,
) -> (r: Result<CountsParams, ClientError>)
    ensures
        counts_view(r) == counts_outcome(
            kind@,
            opt_view(*query),
            opt_view(*start),
            opt_view(*limit),
            opt_view(*countorder),
            opt_view(*ascending),
        ),
{
    let filter = match query {
        Some(q) => Some(trimmed(&chars_of(q.as_str()))),
        None => None,
    };
    let start = match u32_param_of(start, 0) {
        Some(n) => n,
        None => {
            return Err(ClientError::new("Type error", "\"start\" should have an integer argument"))
        },
    };
    let limit = match u32_param_of(limit, 100) {
        Some(n) => n,
        None => {
            return Err(ClientError::new("Type error", "\"limit\" should have an integer argument"))
        },
    };
    let order_by_count = match flag_param_of(countorder, false) {
        Some(b) => b,
        None => {
            return Err(ClientError::new("Type error", "\"countorder\" should be true or false"))
        },
    };
    let asc = match flag_param_of(ascending, !order_by_count) {
        Some(b) => b,
        None => {
            return Err(ClientError::new("Type error", "\"ascending\" should be true or false"))
        },
    };
    let k = if *kind == String::from_str("tags") {
        Some(CountKind::Tags)
    } else if *kind == String::from_str("authors") {
        Some(CountKind::Authors)
    } else if *kind == String::from_str("publishers") {
        Some(CountKind::Publishers)
    } else {
        None
    };
    Ok(CountsParams { kind: k, filter, start, limit, order_by_count, ascending: asc })
}

/// The book id in a download path segment: digits with an optional sign,
/// optionally followed by `.epub`.
pub open spec fn book_id_text(seg: Seq<char>) -> Seq<char> {
    if seg.len() >= 5 && seg.subrange(seg.len() - 5, seg.len() as int) == ".epub"@ {
        seg.subrange(0, seg.len() - 5)
    } else {
        seg
    }
}

pub fn parse_book_id(seg: &String) -> (r: Option<i64>)
    ensures
        r == match integer_value(book_id_text(seg@)) {
            Some(v) => if i64::MIN <= v <= i64::MAX {
                Some(v as i64)
            } else {
                None::<i64>
            },
            None => None::<i64>,
        },
{
    let v = chars_of(seg.as_str());
    let n = v.len();
    let ext = chars_of(".epub");
    proof {
        reveal_strlit(".epub");
    }
    let mut is_epub = n >= 5;
    if is_epub {
        let mut k: usize = 0;
        while k < 5
            invariant
                n == v.len(),
                n >= 5,
                ext@ == ".epub"@,
                ext@.len() == 5,
                k <= 5,
                is_epub == (forall|m: int| 0 <= m < k ==> v@[n - 5 + m] == ext@[m]),
            decreases 5 - k,
        {
            if v[n - 5 + k] != ext[k] {
                is_epub = false;
            }
            k = k + 1;
        }
        proof {
            if is_epub {
                assert(v@.subrange(n - 5, n as int) =~= ".epub"@);
            } else {
                let m = choose|m: int| 0 <= m < 5 && v@[n - 5 + m] != ext@[m];
                assert(v@.subrange(n - 5, n as int)[m] != ".epub"@[m]);
            }
        }
    }
    let id_text = if is_epub {
        crate::text::string_of_range(&v, 0, n - 5)
    } else {
        seg.clone()
    };
    parse_i64(&id_text)
}

/// The file name offered for a download: `<creator> - <title>`.
pub fn attachment_name(creator: &Option<String>, title: &Option<String>) -> (r: String)
    ensures
        r@ == match opt_view(*creator) {
            Some(c) => c,
            None => "unknown"@,
        } + " - "@ + match opt_view(*title) {
            Some(t) => t,
            None => "unknown author"@,
        },
{
    let mut r = match creator {
        Some(c) => c.clone(),
        None => String::from_str("unknown"),
    };
    r.append(" - ");
    match title {
        Some(t) => r.append(t.as_str()),
        None => r.append("unknown author"),
    }
    r
}

/// The stored type of a cover, when there is a non-empty one.
pub fn cover_mime_of(mime: &Option<String>) -> (r: Option<String>)
    ensures
        opt_view(r) == match opt_view(*mime) {
            Some(m) => if m.len() > 0 {
                Some(m)
            } else {
                None
            },
            None => None,
        },
{
    match mime {
        Some(m) => {
            if m.as_str().unicode_len() > 0 {
                Some(m.clone())
            } else {
                None
            }
        },
        None => None,
    }
}

/// Where a book's cover is kept: `<coverdir>/<id>`, the working directory
/// when no directory is set.
pub fn cover_path(coverdir: &Option<String>, id: i64) -> (r: String)
    ensures
        r@ == match opt_view(*coverdir) {
            Some(d) => d,
            None => "."@,
        } + "/"@ + dec_int(id as int),
{
    let mut r = match coverdir {
        Some(d) => d.clone(),
        None => String::from_str("."),
    };
    r.append("/");
    r.append(decimal_i64(id).as_str());
    r
}

/// What an authors page asks for: a prefix, the query (every book when no
/// prefix is given) and whether to list authors rather than letters.
#[derive(Debug)]
pub struct AuthorsRequest {
    pub prefix: String,
    pub query: Option<String>,
    pub by_author: bool,
}

pub fn authors_request(categorise: &Option<String>, by_author: bool) -> (r: AuthorsRequest)
    ensures
        r.by_author == by_author,
        match opt_view(*categorise) {
            Some(c) => r.prefix@ == c && r.query is None,
            None => r.prefix@ == Seq::<char>::empty() && opt_view(r.query) == Some("*"@),
        },
{
    match categorise {
        Some(c) => AuthorsRequest { prefix: c.clone(), query: None, by_author },
        None => AuthorsRequest {
            prefix: String::new(),
            query: Some(String::from_str("*")),
            by_author,
        },
    }
}

/// The link of a category on an authors page: a search by that author, a
/// finer split of a large bucket, or the author list of a small one.
pub open spec fn author_nav_url(prefix: Seq<char>, count: usize, by_author: bool) -> Seq<char> {
    if by_author {
        "/opds/books?query=creator:"@ + url_encoded(trim(prefix))
    } else if count > AUTHOR_BUCKET_LIMIT {
        "/opds/authors?categorise="@ + trim(prefix)
    } else {
        "/opds/authors?categorise="@ + trim(prefix) + "&byAuthor=true"@
    }
}

/// The title of a category on an authors page: `<prefix> (<count>)`.
pub open spec fn author_nav_title(prefix: Seq<char>, count: usize) -> Seq<char> {
    prefix + " ("@ + crate::json::dec(count as nat) + ")"@
}

/// The navigation entries of an authors page, one per category, in order.
pub fn author_navs(cats: &CategorySearchResult, by_author: bool) -> (r: Vec<OpdsCategory>)
    ensures
        r.len() == cats.categories.len(),
        forall|i: int| 0 <= i < r.len() ==> {
            &&& (#[trigger] r[i]).title@ == author_nav_title(cats.categories[i].prefix@, cats.categories[i].count)
            &&& r[i].url@ == author_nav_url(cats.categories[i].prefix@, cats.categories[i].count, by_author)
            &&& r[i].id == 1
        },
{
    let mut r: Vec<OpdsCategory> = Vec::new();
    let mut i: usize = 0;
    while i < cats.categories.len()
        invariant
            i <= cats.categories.len(),
            r.len() == i,
            forall|k: int| 0 <= k < i ==> {
                &&& (#[trigger] r[k]).title@ == author_nav_title(cats.categories[k].prefix@, cats.categories[k].count)
                &&& r[k].url@ == author_nav_url(cats.categories[k].prefix@, cats.categories[k].count, by_author)
                &&& r[k].id == 1
            },
        decreases cats.categories.len() - i,
    {
        let cat: &Category = &cats.categories[i];
        let p = trimmed(&chars_of(cat.prefix.as_str()));
        let url = if by_author {
            let mut u = String::from_str("/opds/books?query=creator:");
            u.append(encode_url(p.as_str()).as_str());
            u
        } else if cat.count > AUTHOR_BUCKET_LIMIT {
            let mut u = String::from_str("/opds/authors?categorise=");
            u.append(p.as_str());
            u
        } else {
            let mut u = String::from_str("/opds/authors?categorise=");
            u.append(p.as_str());
            u.append("&byAuthor=true");
            u
        };
        let mut title = cat.prefix.clone();
        title.append(" (");
        title.append(crate::json::decimal(cat.count as u64).as_str());
        title.append(")");
        r.push(OpdsCategory::new(title, url));
        i = i + 1;
    }
    r
}

/// The query of an OPDS book feed: required, trimmed.
pub fn books_query(query: &Option<String>) -> (r: Result<String, ClientError>)
    ensures
        match *query {
            Some(q) => r is Ok && r->Ok_0@ == trim(q@),
            None => r is Err && error_view(r->Err_0) == missing_query(),
        },
{
    match query {
        Some(q) => Ok(trimmed(&chars_of(q.as_str()))),
        None => Err(
            ClientError::new("Query error", "\"query\" should be provided when performing a query"),
        ),
    }
}

/// The endpoints of the server.
#[derive(Debug, Clone, Copy, PartialEq, Eq, Structural)]
pub enum RouteKind {
    Search,
    Counts,
    OpenSearch,
    Book,
    Opds,
    OpdsAuthors,
    OpdsBooks,
    OpdsTags,
    Cover,
    NotFound,
}

/// The endpoint a request asks for, with the path segment it names (the
/// table of `/api/counts/{kind}`, the book of `/api/book/{id}` and
/// `/img/{id}`).
#[derive(Debug)]
pub struct Route {
    pub kind: RouteKind,
    pub arg: Option<String>,
}

/// The segments of a request path, without its leading `/`.
pub open spec fn path_segments(path: Seq<char>) -> Seq<Seq<char>> {
    if path.len() > 0 && path[0] == '/' {
        split_on(path.drop_first(), '/')
    } else {
        split_on(path, '/')
    }
}

/// The endpoint of a path's segments.
pub open spec fn route_kind(segs: Seq<Seq<char>>) -> RouteKind {
    let n = segs.len();
    if n == 2 && segs[0] == "api"@ && segs[1] == "search"@ {
        RouteKind::Search
    } else if n == 3 && segs[0] == "api"@ && segs[1] == "counts"@ {
        RouteKind::Counts
    } else if n == 2 && segs[0] == "api"@ && segs[1] == "opensearch"@ {
        RouteKind::OpenSearch
    } else if n == 3 && segs[0] == "api"@ && segs[1] == "book"@ {
        RouteKind::Book
    } else if n == 1 && segs[0] == "opds"@ {
        RouteKind::Opds
    } else if n == 2 && segs[0] == "opds"@ && segs[1] == "authors"@ {
        RouteKind::OpdsAuthors
    } else if n == 2 && segs[0] == "opds"@ && segs[1] == "books"@ {
        RouteKind::OpdsBooks
    } else if n == 2 && segs[0] == "opds"@ && segs[1] == "tags"@ {
        RouteKind::OpdsTags
    } else if n == 2 && segs[0] == "img"@ {
        RouteKind::Cover
    } else {
        RouteKind::NotFound
    }
}

/// The path segment that an endpoint takes as its argument.
pub open spec fn route_arg(segs: Seq<Seq<char>>) -> Option<Seq<char>> {
    match route_kind(segs) {
        RouteKind::Counts => Some(segs[2]),
        RouteKind::Book => Some(segs[2]),
        RouteKind::Cover => Some(segs[1]),
        _ => None,
    }
}

fn is_text(s: &String, t: &str) -> (r: bool)
    ensures
        r == (s@ == t@),
{
    *s == String::from_str(t)
}

/// The endpoint that a GET request for `path` asks for.
pub fn route_of(path: &str) -> (r: Route)
    ensures
        r.kind == route_kind(path_segments(path@)),
        opt_view(r.arg) == route_arg(path_segments(path@)),
{
    let cs = chars_of(path);
    let rest = if cs.len() > 0 && cs[0] == '/' {
        crate::text::string_of_range(&cs, 1, cs.len())
    } else {
        crate::text::string_of(&cs)
    };
    assert(cs@.len() > 0 && cs@[0] == '/' ==> rest@ =~= path@.drop_first());
    let segs = split_char(&chars_of(rest.as_str()), '/');
    let ghost sv = views(segs@);
    assert(sv == path_segments(path@));
    let n = segs.len();
    let r = if n == 2 && is_text(&segs[0], "api") && is_text(&segs[1], "search") {
        Route { kind: RouteKind::Search, arg: None }
    } else if n == 3 && is_text(&segs[0], "api") && is_text(&segs[1], "counts") {
        Route { kind: RouteKind::Counts, arg: Some(segs[2].clone()) }
    } else if n == 2 && is_text(&segs[0], "api") && is_text(&segs[1], "opensearch") {
        Route { kind: RouteKind::OpenSearch, arg: None }
    } else if n == 3 && is_text(&segs[0], "api") && is_text(&segs[1], "book") {
        Route { kind: RouteKind::Book, arg: Some(segs[2].clone()) }
    } else if n == 1 && is_text(&segs[0], "opds") {
        Route { kind: RouteKind::Opds, arg: None }
    } else if n == 2 && is_text(&segs[0], "opds") && is_text(&segs[1], "authors") {
        Route { kind: RouteKind::OpdsAuthors, arg: None }
    } else if n == 2 && is_text(&segs[0], "opds") && is_text(&segs[1], "books") {
        Route { kind: RouteKind::OpdsBooks, arg: None }
    } else if n == 2 && is_text(&segs[0], "opds") && is_text(&segs[1], "tags") {
        Route { kind: RouteKind::OpdsTags, arg: None }
    } else if n == 2 && is_text(&segs[0], "img") {
        Route { kind: RouteKind::Cover, arg: Some(segs[1].clone()) }
    } else {
        Route { kind: RouteKind::NotFound, arg: None }
    };
    r
}

/// Where the index and the aggregate store of a database directory live.
#[derive(Debug)]
pub struct StorePaths {
    pub index_dir: String,
    pub counts_file: String,
}

/// The index in the directory itself, the aggregate store in
/// `<dir>/counts.sqlite`.
pub fn store_paths(db_dir: &String) -> (r: StorePaths)
    ensures
        r.index_dir@ == db_dir@,
        r.counts_file@ == db_dir@ + "/counts.sqlite"@,
{
    let mut counts_file = db_dir.clone();
    counts_file.append("/counts.sqlite");
    StorePaths { index_dir: db_dir.clone(), counts_file }
}

/// What an indexing run works on.
#[derive(Debug)]
pub struct IndexPlan {
    pub paths: StorePaths,
    pub dirs: Vec<String>,
    /// Where covers are written, if anywhere.
    pub coverdir: Option<String>,
}

/// Plans an indexing run of `dirs` into `db_dir`.
pub fn start_indexer(db_dir: String, dirs: Vec<String>, coverdir: String, use_coverdir: bool) -> (r:
    IndexPlan)
    ensures
        r.paths.index_dir@ == db_dir@,
        r.paths.counts_file@ == db_dir@ + "/counts.sqlite"@,
        r.dirs == dirs,
        opt_view(r.coverdir) == if use_coverdir {
            Some(coverdir@)
        } else {
            None
        },
{
    IndexPlan {
        paths: store_paths(&db_dir),
        dirs,
        coverdir: if use_coverdir {
            Some(coverdir)
        } else {
            None
        },
    }
}

/// What the server serves, and where.
#[derive(Debug)]
pub struct ServePlan {
    pub paths: StorePaths,
    pub host: String,
    pub port: u16,
    /// Where covers are read, if anywhere; else they come from the books.
    pub coverdir: Option<String>,
}

/// Plans serving the stores in `db_dir` on `host:port`.
pub fn start_server(db_dir: String, port: u16, host: String, coverdir: String, use_coverdir: bool) -> (r:
    ServePlan)
    ensures
        r.paths.index_dir@ == db_dir@,
        r.paths.counts_file@ == db_dir@ + "/counts.sqlite"@,
        r.host == host,
        r.port == port,
        opt_view(r.coverdir) == if use_coverdir {
            Some(coverdir@)
        } else {
            None
        },
{
    ServePlan {
        paths: store_paths(&db_dir),
        host,
        port,
        coverdir: if use_coverdir {
            Some(coverdir)
        } else {
            None
        },
    }
}

} // verus!
