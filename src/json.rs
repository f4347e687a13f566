//! JSON text for the records that the server returns.
use vstd::prelude::*;
use vstd::string::*;
use crate::identity::{opt_view, opt_views, BookMetadata};
use crate::text::views;

verus! {

/// A lower-case hexadecimal digit, for `d < 16`.
pub open spec fn hex_lower(d: nat) -> char {
    if d < 10 {
        (48 + d) as char
    } else {
        (87 + d) as char
    }
}

/// How serde_json writes one character inside a string literal: `"` and
/// `\` escaped by a backslash, backspace, tab, line feed, form feed and
/// carriage return by their short escapes, the other control characters as
/// `\u00xx`, everything else as it is.
pub open spec fn json_char(c: char) -> Seq<char> {
    let u = c as u32;
    if c == '"' {
        seq!['\\', '"']
    } else if c == '\\' {
        seq!['\\', '\\']
    } else if u == 8 {
        seq!['\\', 'b']
    } else if u == 9 {
        seq!['\\', 't']
    } else if u == 10 {
        seq!['\\', 'n']
    } else if u == 12 {
        seq!['\\', 'f']
    } else if u == 13 {
        seq!['\\', 'r']
    } else if u < 32 {
        seq!['\\', 'u', '0', '0', hex_lower((u / 16) as nat), hex_lower((u % 16) as nat)]
    } else {
        seq![c]
    }
}

/// Every character of `s` as serde_json writes it.
pub open spec fn json_escaped(s: Seq<char>) -> Seq<char>
    decreases s.len(),
{
    if s.len() == 0 {
        Seq::empty()
    } else {
        json_escaped(s.drop_last()) + json_char(s.last())
    }
}

/// The JSON string literal, quotes and escapes included, that serde_json
/// writes for the text `s`.
pub open spec fn json_quoted(s: Seq<char>) -> Seq<char> {
    seq!['"'] + json_escaped(s) + seq!['"']
}

/// Relies on `serde_json::to_string` of a `str`: a quote, each character
/// through serde_json's escape table, a quote. Writing into memory cannot
/// fail, so the error arm is never taken.
#[verifier::external_body]
pub(crate) fn json_string(s: &str) -> (r: String)
    ensures
        r@ == json_quoted(s@),
{
    serde_json::to_string(s).unwrap_or_default()
}

/// The decimal digit for `d < 10`.
pub open spec fn digit_char(d: nat) -> char {
    (d + 48) as char
}

/// Decimal notation of a natural number, without leading zeros.
pub open spec fn dec(n: nat) -> Seq<char>
    decreases n,
{
    if n < 10 {
        seq![digit_char(n)]
    } else {
        dec(n / 10).push(digit_char(n % 10))
    }
}

/// Decimal notation of an integer, with a leading `-` when negative.
pub open spec fn dec_int(n: int) -> Seq<char> {
    if n < 0 {
        seq!['-'] + dec((-n) as nat)
    } else {
        dec(n as nat)
    }
}

fn digit(d: u64) -> (r: char)
    requires
        d < 10,
    ensures
        r == digit_char(d as nat),
{
    ((d as u8) + 48) as char
}

/// Decimal notation of `n`.
pub fn decimal(n: u64) -> (r: String)
    ensures
        r@ == dec(n as nat),
{
    let mut tail: Vec<char> = Vec::new();
    let mut m = n;
    while m >= 10
        invariant
            dec(n as nat) == dec(m as nat) + tail@,
        decreases m,
    {
        let ghost t = tail@;
        tail.insert(0, digit(m % 10));
        assert(dec(m as nat) == dec((m / 10) as nat).push(digit_char((m % 10) as nat)));
        assert(dec((m / 10) as nat).push(digit_char((m % 10) as nat)) + t =~= dec((m / 10) as nat)
            + tail@);
        m = m / 10;
    }
    let mut r = String::new();
    r.push(digit(m));
    let mut i: usize = 0;
    while i < tail.len()
        invariant
            i <= tail.len(),
            r@ == dec(m as nat) + tail@.subrange(0, i as int),
        decreases tail.len() - i,
    {
        r.push(tail[i]);
        i = i + 1;
        assert(r@ =~= dec(m as nat) + tail@.subrange(0, i as int));
    }
    assert(tail@.subrange(0, i as int) =~= tail@);
    r
}

/// Decimal notation of `n`, with a leading `-` when negative.
pub fn decimal_i64(n: i64) -> (r: String)
    ensures
        r@ == dec_int(n as int),
{
    if n < 0 {
        let m: u64 = ((-(n + 1)) as u64) + 1;
        let mut r = String::new();
        r.push('-');
        let d = decimal(m);
        r.append(d.as_str());
        r
    } else {
        decimal(n as u64)
    }
}

/// JSON for an optional text: its literal, or `null`.
pub open spec fn json_opt(o: Option<Seq<char>>) -> Seq<char> {
    match o {
        Some(s) => json_quoted(s),
        None => "null"@,
    }
}

/// The items' JSON texts separated by commas.
pub open spec fn join_commas(items: Seq<Seq<char>>) -> Seq<char>
    decreases items.len(),
{
    if items.len() == 0 {
        Seq::empty()
    } else if items.len() == 1 {
        items[0]
    } else {
        join_commas(items.drop_last()) + ","@ + items.last()
    }
}

/// A JSON array of texts.
pub open spec fn json_list(items: Seq<Seq<char>>) -> Seq<char> {
    "["@ + join_commas(quote_all(items)) + "]"@
}

/// Each text as a JSON string literal.
pub open spec fn quote_all(items: Seq<Seq<char>>) -> Seq<Seq<char>> {
    items.map_values(|s: Seq<char>| json_quoted(s))
}

pub fn json_opt_string(o: &Option<String>) -> (r: String)
    ensures
        r@ == json_opt(opt_view(*o)),
{
    match o {
        Some(s) => json_string(s.as_str()),
        None => String::from_str("null"),
    }
}

/// Appends the JSON texts of `items`, separated by commas, to `out`.
pub fn append_joined(out: &mut String, items: &Vec<String>)
    ensures
        final(out)@ == old(out)@ + join_commas(views(items@)),
{
    let mut i: usize = 0;
    while i < items.len()
        invariant
            i <= items.len(),
            out@ == old(out)@ + join_commas(views(items@).subrange(0, i as int)),
        decreases items.len() - i,
    {
        let ghost before = out@;
        let ghost pre = views(items@).subrange(0, i as int);
        let ghost next = views(items@).subrange(0, i + 1);
        assert(next.drop_last() =~= pre);
        if i > 0 {
            out.append(",");
        }
        out.append(items[i].as_str());
        i = i + 1;
        proof {
            if i == 1 {
                assert(join_commas(next) == next[0]);
                assert(join_commas(pre) =~= Seq::<char>::empty());
                assert(out@ =~= old(out)@ + join_commas(next));
            } else {
                assert(out@ =~= old(out)@ + join_commas(next));
            }
        }
    }
    assert(views(items@).subrange(0, i as int) =~= views(items@));
}

/// A JSON array of texts.
pub fn json_string_list(items: &Vec<String>) -> (r: String)
    ensures
        r@ == json_list(views(items@)),
{
    let mut quoted: Vec<String> = Vec::new();
    let mut i: usize = 0;
    while i < items.len()
        invariant
            i <= items.len(),
            quoted@.len() == i,
            views(quoted@) == quote_all(views(items@).subrange(0, i as int)),
        decreases items.len() - i,
    {
        let ghost before = quoted@;
        let q = json_string(items[i].as_str());
        quoted.push(q);
        i = i + 1;
        assert(views(quoted@) =~= quote_all(views(items@).subrange(0, i as int))) by {
            assert forall|k: int| 0 <= k < i implies views(quoted@)[k] == quote_all(
                views(items@).subrange(0, i as int),
            )[k] by {
                if k < i - 1 {
                    assert(views(before)[k] == quote_all(views(items@).subrange(0, i - 1))[k]);
                }
            }
        }
    }
    assert(views(items@).subrange(0, i as int) =~= views(items@));
    let mut r = String::from_str("[");
    append_joined(&mut r, &quoted);
    r.append("]");
    r
}

/// Records that the server sends as JSON objects.
pub trait ToJson {
    /// The JSON text of the record.
    spec fn json(&self) -> Seq<char>;

    fn to_json(&self) -> (r: String)
        ensures
            r@ == self.json(),
    ;
}

/// JSON for optional subjects: an array of texts, or `null`.
pub open spec fn json_opt_list(o: Option<Seq<Seq<char>>>) -> Seq<char> {
    match o {
        Some(v) => json_list(v),
        None => "null"@,
    }
}

impl ToJson for BookMetadata {
    /// All fields but the file path; the id as a string, since 64-bit
    /// integers do not survive JavaScript numbers, and the modification
    /// time in seconds.
    open spec fn json(&self) -> Seq<char> {
        "{\"id\":\""@ + dec_int(self.id as int) + "\",\"title\":"@ + json_opt(opt_view(self.title))
            + ",\"description\":"@ + json_opt(opt_view(self.description)) + ",\"publisher\":"@
            + json_opt(opt_view(self.publisher)) + ",\"creator\":"@ + json_opt(
            opt_view(self.creator),
        ) + ",\"subject\":"@ + json_opt_list(opt_views(self.subject)) + ",\"filesize\":"@
            + dec_int(self.filesize as int) + ",\"modtime\":"@ + dec_int(self.modtime as int)
            + ",\"pubdate\":"@ + json_opt(opt_view(self.pubdate)) + ",\"moddate\":"@ + json_opt(
            opt_view(self.moddate),
        ) + ",\"cover_mime\":"@ + json_opt(opt_view(self.cover_mime)) + "}"@
    }

    fn to_json(&self) -> (r: String) {
        let mut r = String::from_str("{\"id\":\"");
        r.append(decimal_i64(self.id).as_str());
        r.append("\",\"title\":");
        r.append(json_opt_string(&self.title).as_str());
        r.append(",\"description\":");
        r.append(json_opt_string(&self.description).as_str());
        r.append(",\"publisher\":");
        r.append(json_opt_string(&self.publisher).as_str());
        r.append(",\"creator\":");
        r.append(json_opt_string(&self.creator).as_str());
        r.append(",\"subject\":");
        match &self.subject {
            Some(v) => r.append(json_string_list(v).as_str()),
            None => r.append("null"),
        }
        r.append(",\"filesize\":");
        r.append(decimal_i64(self.filesize).as_str());
        r.append(",\"modtime\":");
        r.append(decimal_i64(self.modtime).as_str());
        r.append(",\"pubdate\":");
        r.append(json_opt_string(&self.pubdate).as_str());
        r.append(",\"moddate\":");
        r.append(json_opt_string(&self.moddate).as_str());
        r.append(",\"cover_mime\":");
        r.append(json_opt_string(&self.cover_mime).as_str());
        r.append("}");
        r
    }
}

} // verus!
