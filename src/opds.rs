//! OPDS catalogue pages as Atom XML.
use vstd::prelude::*;
use vstd::string::*;
use crate::identity::{opt_view, BookMetadata};
use crate::json::{dec_int, decimal_i64};
use crate::search_result::OpdsPage;
use crate::server::OpdsCategory;
use crate::text::chars_of;

verus! {

/// The XML text for one character: markup characters as entities.
pub open spec fn xml_char(c: char) -> Seq<char> {
    if c == '&' {
        "&amp;"@
    } else if c == '<' {
        "&lt;"@
    } else if c == '>' {
        "&gt;"@
    } else if c == '"' {
        "&quot;"@
    } else if c == '\'' {
        "&apos;"@
    } else {
        seq![c]
    }
}

/// `s` as XML character data or attribute text.
pub open spec fn xml_escaped(s: Seq<char>) -> Seq<char>
    decreases s.len(),
{
    if s.len() == 0 {
        Seq::empty()
    } else {
        xml_escaped(s.drop_last()) + xml_char(s.last())
    }
}

/// Appends `s`, escaped for XML, to `out`.
pub fn push_escaped(out: &mut String, s: &str)
    ensures
        final(out)@ == old(out)@ + xml_escaped(s@),
{
    let v = chars_of(s);
    let mut i: usize = 0;
    while i < v.len()
        invariant
            i <= v.len(),
            v@ == s@,
            out@ == old(out)@ + xml_escaped(v@.subrange(0, i as int)),
        decreases v.len() - i,
    {
        let ghost before = out@;
        assert(v@.subrange(0, i + 1).drop_last() =~= v@.subrange(0, i as int));
        let c = v[i];
        if c == '&' {
            out.append("&amp;");
        } else if c == '<' {
            out.append("&lt;");
        } else if c == '>' {
            out.append("&gt;");
        } else if c == '"' {
            out.append("&quot;");
        } else if c == '\'' {
            out.append("&apos;");
        } else {
            out.push(c);
        }
        i = i + 1;
        assert(out@ =~= old(out)@ + xml_escaped(v@.subrange(0, i as int)));
    }
    assert(v@.subrange(0, i as int) =~= v@);
}

/// The entry of a navigation link.
pub open spec fn nav_entry(c: OpdsCategory) -> Seq<char> {
    "<entry><title>"@ + xml_escaped(c.title@) + "</title><id>"@ + xml_escaped(c.url@)
        + "</id><updated>"@ + xml_escaped(c.moddate@)
        + "</updated><link rel=\"subsection\" type=\"application/atom+xml;profile=opds-catalog;kind=navigation\" href=\""@
        + xml_escaped(c.url@) + "\"/></entry>"@
}

pub open spec fn or_text(o: Option<Seq<char>>, d: Seq<char>) -> Seq<char> {
    match o {
        Some(s) => s,
        None => d,
    }
}

/// The entry of a book: title, author, summary, download link and, when
/// the book has a cover, the cover link.
pub open spec fn book_entry(b: BookMetadata) -> Seq<char> {
    book_head(b) + cover_link(b) + "</entry>"@
}

pub open spec fn book_head(b: BookMetadata) -> Seq<char> {
    "<entry><title>"@ + xml_escaped(or_text(opt_view(b.title), "untitled"@))
        + "</title><id>urn:shelfcontrol:"@ + dec_int(b.id as int) + "</id><author><name>"@
        + xml_escaped(or_text(opt_view(b.creator), "unknown"@)) + "</name></author><summary>"@
        + xml_escaped(or_text(opt_view(b.description), ""@))
        + "</summary><link rel=\"http://opds-spec.org/acquisition\" type=\"application/epub+zip\" href=\"/api/book/"@
        + dec_int(b.id as int) + ".epub\"/>"@
}

/// The cover link of a book with a non-empty cover type; nothing otherwise.
pub open spec fn cover_link(b: BookMetadata) -> Seq<char> {
    match opt_view(b.cover_mime) {
        Some(m) => if m.len() > 0 {
            "<link rel=\"http://opds-spec.org/image\" type=\""@ + xml_escaped(m) + "\" href=\"/img/"@
                + dec_int(b.id as int) + "\"/>"@
        } else {
            Seq::empty()
        },
        None => Seq::empty(),
    }
}

pub open spec fn nav_entries(navs: Seq<OpdsCategory>) -> Seq<char>
    decreases navs.len(),
{
    if navs.len() == 0 {
        Seq::empty()
    } else {
        nav_entries(navs.drop_last()) + nav_entry(navs.last())
    }
}

pub open spec fn book_entries(books: Seq<BookMetadata>) -> Seq<char>
    decreases books.len(),
{
    if books.len() == 0 {
        Seq::empty()
    } else {
        book_entries(books.drop_last()) + book_entry(books.last())
    }
}

/// An Atom feed with the page's header, then the navigation entries, then
/// the book entries.
pub open spec fn feed(page: OpdsPage, navs: Seq<OpdsCategory>, books: Seq<BookMetadata>) -> Seq<char> {
    "<?xml version=\"1.0\" encoding=\"UTF-8\"?><feed xmlns=\"http://www.w3.org/2005/Atom\"><id>"@
        + xml_escaped(page.id@) + "</id><title>"@ + xml_escaped(page.title@) + "</title><updated>"@
        + xml_escaped(page.date@) + "</updated>"@ + nav_entries(navs) + book_entries(books)
        + "</feed>"@
}

fn push_nav_entry(out: &mut String, c: &OpdsCategory)
    ensures
        final(out)@ == old(out)@ + nav_entry(*c),
{
    out.append("<entry><title>");
    push_escaped(out, c.title.as_str());
    out.append("</title><id>");
    push_escaped(out, c.url.as_str());
    out.append("</id><updated>");
    push_escaped(out, c.moddate.as_str());
    out.append(
        "</updated><link rel=\"subsection\" type=\"application/atom+xml;profile=opds-catalog;kind=navigation\" href=\"",
    );
    push_escaped(out, c.url.as_str());
    out.append("\"/></entry>");
}

fn text_or<'a>(o: &'a Option<String>, d: &'a str) -> (r: &'a str)
    ensures
        r@ == or_text(opt_view(*o), d@),
{
    match o {
        Some(t) => t.as_str(),
        None => d,
    }
}

fn push_book_head(out: &mut String, b: &BookMetadata)
    ensures
        final(out)@ == old(out)@ + book_head(*b),
{
    let id = decimal_i64(b.id);
    out.append("<entry><title>");
    push_escaped(out, text_or(&b.title, "untitled"));
    out.append("</title><id>urn:shelfcontrol:");
    out.append(id.as_str());
    out.append("</id><author><name>");
    push_escaped(out, text_or(&b.creator, "unknown"));
    out.append("</name></author><summary>");
    push_escaped(out, text_or(&b.description, ""));
    out.append(
        "</summary><link rel=\"http://opds-spec.org/acquisition\" type=\"application/epub+zip\" href=\"/api/book/",
    );
    out.append(id.as_str());
    out.append(".epub\"/>");
}

fn push_cover_link(out: &mut String, b: &BookMetadata)
    ensures
        final(out)@ == old(out)@ + cover_link(*b),
{
    match &b.cover_mime {
        Some(m) => {
            if m.as_str().unicode_len() > 0 {
                out.append("<link rel=\"http://opds-spec.org/image\" type=\"");
                push_escaped(out, m.as_str());
                out.append("\" href=\"/img/");
                out.append(decimal_i64(b.id).as_str());
                out.append("\"/>");
            } else {
                assert(out@ =~= old(out)@ + Seq::<char>::empty());
            }
        },
        None => {
            assert(out@ =~= old(out)@ + Seq::<char>::empty());
        },
    }
}

fn push_book_entry(out: &mut String, b: &BookMetadata)
    ensures
        final(out)@ == old(out)@ + book_entry(*b),
{
    push_book_head(out, b);
    push_cover_link(out, b);
    out.append("</entry>");
}

/// The catalogue page with navigation entries `navs` and book entries
/// `books`.
pub fn render_feed(page: &OpdsPage, navs: &Vec<OpdsCategory>, books: &Vec<BookMetadata>) -> (r:
    String)
    ensures
        r@ == feed(*page, navs@, books@),
{
    let mut out = String::from_str(
        "<?xml version=\"1.0\" encoding=\"UTF-8\"?><feed xmlns=\"http://www.w3.org/2005/Atom\"><id>",
    );
    push_escaped(&mut out, page.id.as_str());
    out.append("</id><title>");
    push_escaped(&mut out, page.title.as_str());
    out.append("</title><updated>");
    push_escaped(&mut out, page.date.as_str());
    out.append("</updated>");
    let ghost head = out@;
    let mut i: usize = 0;
    while i < navs.len()
        invariant
            i <= navs.len(),
            out@ == head + nav_entries(navs@.subrange(0, i as int)),
        decreases navs.len() - i,
    {
        assert(navs@.subrange(0, i + 1).drop_last() =~= navs@.subrange(0, i as int));
        push_nav_entry(&mut out, &navs[i]);
        i = i + 1;
    }
    assert(navs@.subrange(0, i as int) =~= navs@);
    let ghost mid = out@;
    let mut j: usize = 0;
    while j < books.len()
        invariant
            j <= books.len(),
            out@ == mid + book_entries(books@.subrange(0, j as int)),
        decreases books.len() - j,
    {
        assert(books@.subrange(0, j + 1).drop_last() =~= books@.subrange(0, j as int));
        push_book_entry(&mut out, &books[j]);
        j = j + 1;
    }
    assert(books@.subrange(0, j as int) =~= books@);
    out.append("</feed>");
    out
}

} // verus!
