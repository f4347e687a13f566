//! The document that the search index stores for a book.
use vstd::prelude::*;
use vstd::string::*;
use crate::identity::{book_tags, opt_view, opt_views, BookMetadata};
use crate::tally::{bump_all, CountMap};
use crate::text::views;

verus! {

/// The HTML that ammonia keeps of `html` when it allows exactly the
/// elements `tags`, passes relative URLs through and adds no `rel`.
pub uninterp spec fn sanitized_html(html: Seq<char>, tags: Seq<Seq<char>>) -> Seq<char>;

/// Relies on `ammonia::Builder::clean`, configured with the allowed elements
/// `tags`, no `rel` on links and relative URLs passed through. `clean`
/// asserts that no allowed element is one whose content it removes
/// (`script`, `style`), so those are left out.
#[verifier::external_body]
fn sanitize(html: &str, tags: &Vec<String>) -> (r: String)
    requires
        !views(tags@).contains("script"@),
        !views(tags@).contains("style"@),
    ensures
        r@ == sanitized_html(html@, views(tags@)),
{
    let mut b = ammonia::Builder::default();
    b.link_rel(None).url_relative(ammonia::UrlRelative::PassThrough);
    b.tags(tags.iter().map(|t| t.as_str()).collect());
    b.clean(html).to_string()
}

/// The HTML elements kept in descriptions.
pub open spec fn allowed_tag_names() -> Seq<Seq<char>> {
    seq![
        "b"@, "i"@, "p"@, "a"@, "blockquote"@, "code"@, "q"@, "em"@, "br"@, "ul"@, "u"@, "tt"@,
        "tr"@, "th"@, "td"@, "ol"@, "li"@, "h6"@, "h5"@, "h4"@, "h3"@, "abbr"@,
    ]
}

pub fn allowed_tags() -> (r: Vec<String>)
    ensures
        views(r@) == allowed_tag_names(),
{
    let mut r: Vec<String> = Vec::new();
    r.push(String::from_str("b"));
    r.push(String::from_str("i"));
    r.push(String::from_str("p"));
    r.push(String::from_str("a"));
    r.push(String::from_str("blockquote"));
    r.push(String::from_str("code"));
    r.push(String::from_str("q"));
    r.push(String::from_str("em"));
    r.push(String::from_str("br"));
    r.push(String::from_str("ul"));
    r.push(String::from_str("u"));
    r.push(String::from_str("tt"));
    r.push(String::from_str("tr"));
    r.push(String::from_str("th"));
    r.push(String::from_str("td"));
    r.push(String::from_str("ol"));
    r.push(String::from_str("li"));
    r.push(String::from_str("h6"));
    r.push(String::from_str("h5"));
    r.push(String::from_str("h4"));
    r.push(String::from_str("h3"));
    r.push(String::from_str("abbr"));
    assert(views(r@) =~= allowed_tag_names());
    r
}

/// A book's description cleaned down to the allowed elements.
pub fn sanitize_description(html: &str) -> (r: String)
    ensures
        r@ == sanitized_html(html@, allowed_tag_names()),
{
    let tags = allowed_tags();
    proof {
        lemma_allowed_tags_keep_content();
    }
    sanitize(html, &tags)
}

proof fn lemma_allowed_tags_keep_content()
    ensures
        !allowed_tag_names().contains("script"@),
        !allowed_tag_names().contains("style"@),
{
    reveal_strlit("script");
    reveal_strlit("style");
    reveal_strlit("b");
    reveal_strlit("i");
    reveal_strlit("p");
    reveal_strlit("a");
    reveal_strlit("blockquote");
    reveal_strlit("code");
    reveal_strlit("q");
    reveal_strlit("em");
    reveal_strlit("br");
    reveal_strlit("ul");
    reveal_strlit("u");
    reveal_strlit("tt");
    reveal_strlit("tr");
    reveal_strlit("th");
    reveal_strlit("td");
    reveal_strlit("ol");
    reveal_strlit("li");
    reveal_strlit("h6");
    reveal_strlit("h5");
    reveal_strlit("h4");
    reveal_strlit("h3");
    reveal_strlit("abbr");
    let names = allowed_tag_names();
    assert forall|i: int| 0 <= i < names.len() implies #[trigger] names[i].len() != 5
        && names[i].len() != 6 by {}
    if names.contains("script"@) {
        let i = choose|i: int| 0 <= i < names.len() && names[i] == "script"@;
        assert(names[i].len() != 6);
    }
    if names.contains("style"@) {
        let i = choose|i: int| 0 <= i < names.len() && names[i] == "style"@;
        assert(names[i].len() != 5);
    }
}

/// The fields that the index stores for a book: absent texts as empty
/// texts, the description sanitised, and the book's distinct non-empty tags
/// as facet paths `/<tag>`.
#[derive(Debug)]
pub struct IndexDoc {
    pub id: i64,
    pub title: String,
    pub description: String,
    pub publisher: String,
    pub creator: String,
    pub file: String,
    pub filesize: i64,
    pub modtime: i64,
    pub pubdate: String,
    pub moddate: String,
    pub cover_mime: String,
    pub facets: Vec<String>,
}

pub open spec fn or_empty(o: Option<Seq<char>>) -> Seq<char> {
    match o {
        Some(s) => s,
        None => Seq::empty(),
    }
}

fn text_or_empty(o: &Option<String>) -> (r: String)
    ensures
        r@ == or_empty(opt_view(*o)),
{
    match o {
        Some(s) => s.clone(),
        None => String::new(),
    }
}

/// The facet paths of the distinct non-empty tags, in order of first
/// occurrence.
pub open spec fn facet_paths(tag_counts: Seq<(Seq<char>, usize)>) -> Seq<Seq<char>>
    decreases tag_counts.len(),
{
    if tag_counts.len() == 0 {
        Seq::empty()
    } else {
        let rest = facet_paths(tag_counts.drop_last());
        let t = tag_counts.last().0;
        if t.len() > 0 {
            rest.push(seq!['/'] + t)
        } else {
            rest
        }
    }
}

impl BookMetadata {
    /// The document the index stores for this book.
    pub fn index_doc(&self) -> (r: IndexDoc)
        ensures
            r.id == self.id,
            r.title@ == or_empty(opt_view(self.title)),
            r.description@ == sanitized_html(or_empty(opt_view(self.description)), allowed_tag_names()),
            r.publisher@ == or_empty(opt_view(self.publisher)),
            r.creator@ == or_empty(opt_view(self.creator)),
            r.file@ == self.file@,
            r.filesize == self.filesize,
            r.modtime == self.modtime,
            r.pubdate@ == or_empty(opt_view(self.pubdate)),
            r.moddate@ == or_empty(opt_view(self.moddate)),
            r.cover_mime@ == or_empty(opt_view(self.cover_mime)),
            views(r.facets@) == facet_paths(bump_all(Seq::empty(), book_tags(opt_views(self.subject)))),
    {
        let mut tags = CountMap::new();
        self.add_tags(&mut tags);
        let entries = tags.entries();
        let mut facets: Vec<String> = Vec::new();
        let mut i: usize = 0;
        while i < entries.len()
            invariant
                i <= entries.len(),
                crate::tally::entry_views(entries@) == tags@,
                views(facets@) == facet_paths(tags@.subrange(0, i as int)),
            decreases entries.len() - i,
        {
            let ghost before = views(facets@);
            assert(tags@.subrange(0, i + 1).drop_last() =~= tags@.subrange(0, i as int));
            assert(tags@[i as int] == (entries@[i as int].0@, entries@[i as int].1));
            if entries[i].0.as_str().unicode_len() > 0 {
                let mut p = String::from_str("/");
                p.append(entries[i].0.as_str());
                facets.push(p);
                proof {
                    reveal_strlit("/");
                    assert("/"@ =~= seq!['/']);
                    assert(views(facets@) =~= before.push(seq!['/'] + entries@[i as int].0@));
                }
            }
            i = i + 1;
        }
        assert(tags@.subrange(0, i as int) =~= tags@);
        let description = match &self.description {
            Some(d) => sanitize_description(d.as_str()),
            None => sanitize_description(""),
        };
        proof {
            reveal_strlit("");
            assert(""@ =~= Seq::<char>::empty());
        }
        IndexDoc {
            id: self.id,
            title: text_or_empty(&self.title),
            description,
            publisher: text_or_empty(&self.publisher),
            creator: text_or_empty(&self.creator),
            file: self.file.clone(),
            filesize: self.filesize,
            modtime: self.modtime,
            pubdate: text_or_empty(&self.pubdate),
            moddate: text_or_empty(&self.moddate),
            cover_mime: text_or_empty(&self.cover_mime),
            facets,
        }
    }
}

} // verus!
