//! Book metadata, its content-derived identity, creator normalisation and
//! the splitting of subject strings into tags.
use vstd::prelude::*;
use vstd::string::*;
use crate::tally::{bump, bump_all, CountMap};
use crate::text::{
    chars_of, collapse_spaces, collapse_state, collapse_white_space, contains_char, contains_chars,
    contains_seq, count_char, count_occurrences, is_space, lower, lowercase, split_char, split_on,
    trim, trim_end, trim_start, trimmed, views,
};

verus! {

/// The metadata of one book, the unit of storage and retrieval.
#[derive(Debug, Clone)]
pub struct BookMetadata {
    pub id: i64,
    pub title: Option<String>,
    pub description: Option<String>,
    pub publisher: Option<String>,
    pub creator: Option<String>,
    /// Raw subject strings, before they are split into tags.
    pub subject: Option<Vec<String>>,
    /// Canonical path of the book file.
    pub file: String,
    pub filesize: i64,
    /// Modification time in seconds since the Unix epoch.
    pub modtime: i64,
    pub pubdate: Option<String>,
    pub moddate: Option<String>,
    pub cover_mime: Option<String>,
}

/// The text of an optional string.
pub open spec fn opt_view(o: Option<String>) -> Option<Seq<char>> {
    match o {
        Some(s) => Some(s@),
        None => None,
    }
}

/// The texts of an optional list of strings.
pub open spec fn opt_views(o: Option<Vec<String>>) -> Option<Seq<Seq<char>>> {
    match o {
        Some(v) => Some(views(v@)),
        None => None,
    }
}

/// The 64-bit digest that std's default hasher computes for the tuple
/// `(title, description, publisher, creator, subject, filesize)`.
pub uninterp spec fn content_hash(
    title: Option<Seq<char>>,
    description: Option<Seq<char>>,
    publisher: Option<Seq<char>>,
    creator: Option<Seq<char>>,
    subject: Option<Seq<Seq<char>>>,
    filesize: i64,
) -> u64;

/// Relies on `BuildHasher::hash_one` with `BuildHasherDefault<DefaultHasher>`:
/// the same hasher with fixed keys each time, so the digest depends on the
/// hashed values alone. std leaves the algorithm open across Rust releases
/// and targets, so ids are stable between runs of one build.
#[verifier::external_body]
fn hash_content(
    title: &Option<String>,
    description: &Option<String>,
    publisher: &Option<String>,
    creator: &Option<String>,
    subject: &Option<Vec<String>>,
    filesize: i64,
) -> (r: u64)
    ensures
        r == content_hash(
            opt_view(*title),
            opt_view(*description),
            opt_view(*publisher),
            opt_view(*creator),
            opt_views(*subject),
            filesize,
        ),
{
    let hasher =
        std::hash::BuildHasherDefault::<std::collections::hash_map::DefaultHasher>::default();
    std::hash::BuildHasher::hash_one(
        &hasher,
        (title, description, publisher, creator, subject, &filesize),
    )
}

/// The unsigned digest read as a two's complement signed integer.
pub open spec fn as_signed(h: u64) -> i64 {
    if h <= i64::MAX {
        h as i64
    } else {
        (h - 0x1_0000_0000_0000_0000int) as i64
    }
}

pub fn to_signed(h: u64) -> (r: i64)
    ensures
        r == as_signed(h),
{
    if h <= 0x7fff_ffff_ffff_ffff {
        h as i64
    } else {
        let low = (h - 0x8000_0000_0000_0000) as i64;
        low - 0x7fff_ffff_ffff_ffff - 1
    }
}

/// The identity of a book with these contents.
pub open spec fn book_id(
    title: Option<Seq<char>>,
    description: Option<Seq<char>>,
    publisher: Option<Seq<char>>,
    creator: Option<Seq<char>>,
    subject: Option<Seq<Seq<char>>>,
    filesize: i64,
) -> i64 {
    as_signed(content_hash(title, description, publisher, creator, subject, filesize))
}

/// A chunk that must not be split off: it still holds the delimiter outside
/// parentheses, closes a parenthesis it never opened, or names a fictitious
/// character.
pub open spec fn unsplittable(c: Seq<char>, d: char) -> bool {
    (c.contains(d) && !c.contains(')')) || (!c.contains('(') && c.contains(')')) || contains_seq(
        c,
        "fictitious character"@,
    )
}

/// Some piece is unsplittable.
pub open spec fn any_unsplittable(parts: Seq<Seq<char>>, d: char) -> bool {
    exists|i: int| 0 <= i < parts.len() && unsplittable(#[trigger] parts[i], d)
}

/// The tags of a subject split on `d`: each trimmed piece, or the whole
/// subject when one piece is unsplittable.
pub open spec fn split_tags_on(s: Seq<char>, d: char) -> Seq<Seq<char>> {
    let parts = split_on(s, d);
    if any_unsplittable(parts, d) {
        seq![s]
    } else {
        trim_all(parts)
    }
}

/// Every piece trimmed.
pub open spec fn trim_all(ps: Seq<Seq<char>>) -> Seq<Seq<char>> {
    ps.map_values(|p: Seq<char>| trim(p))
}

/// The tags of one raw subject string: lower-cased and trimmed, then split on
/// whichever of `;`, `,` and `/` occurs strictly more often than the other two.
pub open spec fn subject_tags(raw: Seq<char>) -> Seq<Seq<char>> {
    let s = trim(lower(raw));
    let semi = count_char(s, ';');
    let comma = count_char(s, ',');
    let slash = count_char(s, '/');
    if semi > comma && semi > slash {
        split_tags_on(s, ';')
    } else if comma > semi && comma > slash {
        split_tags_on(s, ',')
    } else if slash > comma && slash > semi {
        split_tags_on(s, '/')
    } else {
        seq![s]
    }
}

/// The tags of every subject, in order.
pub open spec fn all_subject_tags(subjects: Seq<Seq<char>>) -> Seq<Seq<char>>
    decreases subjects.len(),
{
    if subjects.len() == 0 {
        Seq::empty()
    } else {
        all_subject_tags(subjects.drop_last()) + subject_tags(subjects.last())
    }
}

/// The tags of a book's subjects; none without subjects.
pub open spec fn book_tags(subject: Option<Seq<Seq<char>>>) -> Seq<Seq<char>> {
    match subject {
        Some(s) => all_subject_tags(s),
        None => Seq::empty(),
    }
}

/// A creator name with white space collapsed; `"Last, First"` (exactly one
/// comma) turned into `"First Last"`.
pub open spec fn normalize_creator(c: Seq<char>) -> Seq<char> {
    let s = collapse_spaces(c);
    if count_char(s, ',') == 1 {
        let parts = split_on(s, ',');
        trim(parts[1]) + seq![' '] + trim(parts[0])
    } else {
        s
    }
}

pub proof fn lemma_split_len(s: Seq<char>, d: char)
    ensures
        split_on(s, d).len() == count_char(s, d) + 1,
    decreases s.len(),
{
    if s.len() > 0 {
        lemma_split_len(s.drop_last(), d);
    }
}

proof fn lemma_count_push(s: Seq<char>, c: char, d: char)
    ensures
        count_char(s.push(c), d) == count_char(s, d) + if c == d {
            1nat
        } else {
            0nat
        },
{
    assert(s.push(c).drop_last() =~= s);
}

proof fn lemma_collapse_commas(s: Seq<char>)
    ensures
        count_char(collapse_state(s).0, ',') == count_char(s, ','),
    decreases s.len(),
{
    if s.len() > 0 {
        lemma_collapse_commas(s.drop_last());
        let acc = collapse_state(s.drop_last());
        let c = s.last();
        assert(s.drop_last().push(c) =~= s);
        lemma_count_push(s.drop_last(), c, ',');
        if !is_space(c) {
            if acc.1 && acc.0.len() > 0 {
                lemma_count_push(acc.0, ' ', ',');
                lemma_count_push(acc.0.push(' '), c, ',');
            } else {
                lemma_count_push(acc.0, c, ',');
            }
        }
    }
}

proof fn lemma_collapse_ends(s: Seq<char>)
    ensures
        collapse_state(s).0.len() > 0 ==> !is_space(collapse_state(s).0[0]) && !is_space(
            collapse_state(s).0.last(),
        ),
    decreases s.len(),
{
    if s.len() > 0 {
        lemma_collapse_ends(s.drop_last());
    }
}

proof fn lemma_collapse_trimmed(s: Seq<char>)
    ensures
        trim(collapse_spaces(s)) == collapse_spaces(s),
{
    lemma_collapse_ends(s);
    let o = collapse_spaces(s);
    assert(trim_start(o) == o);
    assert(trim_end(o) == o);
}

/// A creator name with exactly one comma becomes the trimmed piece after
/// the comma, a space, and the trimmed piece before it (runs of white space
/// collapsed first, which keeps the commas); any other name becomes its
/// trimmed form with runs of white space collapsed.
pub proof fn lemma_creator_normalization(c: Seq<char>)
    ensures
        count_char(collapse_spaces(c), ',') == count_char(c, ','),
        count_char(c, ',') == 1 ==> normalize_creator(c) == trim(split_on(collapse_spaces(c), ',')[1])
            + seq![' '] + trim(split_on(collapse_spaces(c), ',')[0]),
        count_char(c, ',') != 1 ==> normalize_creator(c) == trim(collapse_spaces(c)),
{
    lemma_collapse_commas(c);
    lemma_collapse_trimmed(c);
}

/// The identity is a function of the title, description, publisher, creator,
/// subjects and size: books that agree on these have the same id, whatever
/// their paths and times.
pub proof fn lemma_id_deterministic(a: BookMetadata, b: BookMetadata)
    requires
        opt_view(a.title) == opt_view(b.title),
        opt_view(a.description) == opt_view(b.description),
        opt_view(a.publisher) == opt_view(b.publisher),
        opt_view(a.creator) == opt_view(b.creator),
        opt_views(a.subject) == opt_views(b.subject),
        a.filesize == b.filesize,
    ensures
        a.spec_id() == b.spec_id(),
{
}

impl BookMetadata {
    /// The identity that the book's contents determine.
    pub open spec fn spec_id(&self) -> i64 {
        book_id(
            opt_view(self.title),
            opt_view(self.description),
            opt_view(self.publisher),
            opt_view(self.creator),
            opt_views(self.subject),
            self.filesize,
        )
    }

    /// The identity hash of the title, description, publisher, creator,
    /// subjects and file size; path and times do not take part.
    pub fn hash_md(&self) -> (r: i64)
        ensures
            r == self.spec_id(),
    {
        let h = hash_content(
            &self.title,
            &self.description,
            &self.publisher,
            &self.creator,
            &self.subject,
            self.filesize,
        );
        to_signed(h)
    }

    /// Counts each tag of the book's subjects into `tags`.
    pub fn add_tags(&self, tags: &mut CountMap)
        requires
            old(tags).wf(),
        ensures
            final(tags).wf(),
            final(tags)@ == bump_all(old(tags)@, book_tags(opt_views(self.subject))),
    {
        match &self.subject {
            None => {},
            Some(subjects) => {
                let mut i: usize = 0;
                while i < subjects.len()
                    invariant
                        i <= subjects.len(),
                        tags.wf(),
                        tags@ == bump_all(
                            old(tags)@,
                            all_subject_tags(views(subjects@).subrange(0, i as int)),
                        ),
                    decreases subjects.len() - i,
                {
                    let ghost done = all_subject_tags(views(subjects@).subrange(0, i as int));
                    let found = subject_tags_of(&subjects[i]);
                    let mut j: usize = 0;
                    while j < found.len()
                        invariant
                            j <= found.len(),
                            tags.wf(),
                            tags@ == bump_all(old(tags)@, done + views(found@).subrange(0, j as int)),
                        decreases found.len() - j,
                    {
                        let ghost ks = done + views(found@).subrange(0, j as int);
                        tags.increment(found[j].clone());
                        proof {
                            let ks2 = done + views(found@).subrange(0, j + 1);
                            assert(ks2.drop_last() =~= ks);
                        }
                        j = j + 1;
                    }
                    proof {
                        assert(views(subjects@).subrange(0, i + 1).drop_last() =~= views(
                            subjects@,
                        ).subrange(0, i as int));
                        assert(views(found@).subrange(0, j as int) =~= views(found@));
                    }
                    i = i + 1;
                }
                assert(views(subjects@).subrange(0, i as int) =~= views(subjects@));
            },
        }
    }


    /// Counts one occurrence of `val`, if there is one, into `counts`.
    pub fn add_counts(val: &Option<String>, counts: &mut CountMap)
        requires
            old(counts).wf(),
        ensures
            final(counts).wf(),
            final(counts)@ == match opt_view(*val) {
                Some(k) => bump(old(counts)@, k),
                None => old(counts)@,
            },
    {
        if let Some(cat) = val {
            counts.increment(cat.clone());
        }
    }
}



/// The tags of one raw subject string.
pub fn subject_tags_of(raw: &String) -> (r: Vec<String>)
    ensures
        views(r@) == subject_tags(raw@),
{
    let lc = lowercase(&chars_of(raw.as_str()));
    let s = chars_of(trimmed(&lc).as_str());
    let semi = count_occurrences(&s, ';');
    let comma = count_occurrences(&s, ',');
    let slash = count_occurrences(&s, '/');
    if semi > comma && semi > slash {
        split_tags(&s, ';')
    } else if comma > semi && comma > slash {
        split_tags(&s, ',')
    } else if slash > comma && slash > semi {
        split_tags(&s, '/')
    } else {
        let mut r: Vec<String> = Vec::new();
        r.push(crate::text::string_of(&s));
        assert(views(r@) =~= seq![s@]);
        r
    }
}

fn is_unsplittable(c: &Vec<char>, d: char, marker: &Vec<char>) -> (r: bool)
    requires
        marker@ == "fictitious character"@,
    ensures
        r == unsplittable(c@, d),
{
    (contains_char(c, d) && !contains_char(c, ')')) || (!contains_char(c, '(') && contains_char(
        c,
        ')',
    )) || contains_chars(c, marker)
}

/// The tags of an already lower-cased and trimmed subject split on `d`.
fn split_tags(subject: &Vec<char>, d: char) -> (r: Vec<String>)
    ensures
        views(r@) == split_tags_on(subject@, d),
{
    let parts = split_char(subject, d);
    let marker = chars_of("fictitious character");
    let ghost ps = split_on(subject@, d);
    let mut i: usize = 0;
    while i < parts.len()
        invariant
            i <= parts.len(),
            views(parts@) == ps,
            ps == split_on(subject@, d),
            marker@ == "fictitious character"@,
            forall|k: int| 0 <= k < i ==> !unsplittable(#[trigger] ps[k], d),
        decreases parts.len() - i,
    {
        if is_unsplittable(&chars_of(parts[i].as_str()), d, &marker) {
            let mut r: Vec<String> = Vec::new();
            r.push(crate::text::string_of(subject));
            assert(views(r@) =~= seq![subject@]);
            assert(ps[i as int] == parts@[i as int]@);
            assert(unsplittable(ps[i as int], d));
            return r;
        }
        i = i + 1;
    }
    assert(!any_unsplittable(ps, d));
    let mut r: Vec<String> = Vec::new();
    let mut j: usize = 0;
    while j < parts.len()
        invariant
            j <= parts.len(),
            views(parts@) == ps,
            ps == split_on(subject@, d),
            !any_unsplittable(ps, d),
            r@.len() == j,
            views(r@) == trim_all(ps.subrange(0, j as int)),
        decreases parts.len() - j,
    {
        let ghost before = r@;
        let t = trimmed(&chars_of(parts[j].as_str()));
        r.push(t);
        assert(ps[j as int] == parts@[j as int]@);
        j = j + 1;
        assert(views(r@) =~= trim_all(ps.subrange(0, j as int))) by {
            assert(views(before) == trim_all(ps.subrange(0, j - 1)));
            assert(r@ == before.push(t));
            assert(views(r@).len() == j);
            assert forall|k: int| 0 <= k < j implies views(r@)[k] == trim_all(
                ps.subrange(0, j as int),
            )[k] by {
                if k < j - 1 {
                    assert(views(before)[k] == trim_all(ps.subrange(0, j - 1))[k]);
                }
            }
        }
    }
    assert(ps.subrange(0, j as int) =~= ps);
    r
}

/// Collapses white space in a creator name and turns `"Last, First"` into
/// `"First Last"`.
pub fn unmangle_creator(creator: String) -> (r: String)
    ensures
        r@ == normalize_creator(creator@),
{
    let unspaced = collapse_white_space(&chars_of(creator.as_str()));
    if count_occurrences(&unspaced, ',') == 1 {
        proof {
            lemma_split_len(unspaced@, ',');
        }
        let parts = split_char(&unspaced, ',');
        let mut r = trimmed(&chars_of(parts[1].as_str()));
        r.push(' ');
        let before = trimmed(&chars_of(parts[0].as_str()));
        r.append(before.as_str());
        return r;
    }
    crate::text::string_of(&unspaced)
}

} // verus!
