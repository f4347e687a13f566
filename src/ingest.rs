//! The decisions of an indexing run: which walked entries are books, how
//! parsed metadata becomes a book record, when a batch is full, which books
//! are duplicates, and the running tallies and counters.
use vstd::prelude::*;
use vstd::std_specs::hash::*;
use std::collections::HashSet;
use crate::identity::{book_tags, opt_view, opt_views, normalize_creator, unmangle_creator, BookMetadata};
use crate::tally::{bump_all, CountMap};
use crate::text::{chars_of, lower, lowercase, views};

verus! {

broadcast use group_hash_axioms;

/// Candidate paths are parsed in batches of this many.
pub const BATCH_SIZE: usize = 10000;

/// `s` ends with `t`.
pub open spec fn ends_with(s: Seq<char>, t: Seq<char>) -> bool {
    s.len() >= t.len() && s.subrange(s.len() - t.len(), s.len() as int) == t
}

/// A walked entry below the root whose name starts with a dot.
pub open spec fn hidden(name: Seq<char>, depth: nat) -> bool {
    depth > 0 && name.len() > 0 && name[0] == '.'
}

/// A file name whose extension is `.epub` in any letter case.
pub open spec fn epub_name(name: Seq<char>) -> bool {
    ends_with(lower(name), seq!['.', 'e', 'p', 'u', 'b'])
}

/// Whether the walk skips this entry (and, for a directory, all below it).
pub fn is_hidden(name: &String, depth: usize) -> (r: bool)
    ensures
        r == hidden(name@, depth as nat),
{
    if depth == 0 {
        return false;
    }
    let cs = chars_of(name.as_str());
    cs.len() > 0 && cs[0] == '.'
}

pub fn is_epub_name(name: &String) -> (r: bool)
    ensures
        r == epub_name(name@),
{
    let lc = lowercase(&chars_of(name.as_str()));
    let n = lc.len();
    if n < 5 {
        return false;
    }
    let r = lc[n - 5] == '.' && lc[n - 4] == 'e' && lc[n - 3] == 'p' && lc[n - 2] == 'u' && lc[n
        - 1] == 'b';
    let ghost tail = lc@.subrange(n - 5, n as int);
    assert(r == (tail =~= seq!['.', 'e', 'p', 'u', 'b'])) by {
        if !r {
            if tail =~= seq!['.', 'e', 'p', 'u', 'b'] {
                assert(tail[0] == lc@[n - 5]);
                assert(tail[1] == lc@[n - 4]);
                assert(tail[2] == lc@[n - 3]);
                assert(tail[3] == lc@[n - 2]);
                assert(tail[4] == lc@[n - 1]);
            }
        }
    }
    r
}

/// A walked entry that is a book: a regular file, not hidden, named `*.epub`.
pub open spec fn book_entry(name: Seq<char>, depth: nat, is_file: bool) -> bool {
    is_file && !hidden(name, depth) && epub_name(name)
}

pub fn is_book_entry(name: &String, depth: usize, is_file: bool) -> (r: bool)
    ensures
        r == book_entry(name@, depth as nat, is_file),
{
    is_file && !is_hidden(name, depth) && is_epub_name(name)
}

/// A batch of this many candidates is parsed at once.
pub fn batch_full(len: usize) -> (r: bool)
    ensures
        r == (len >= BATCH_SIZE),
{
    len >= BATCH_SIZE
}

/// The first value recorded under `field`, if any.
pub open spec fn first_value(md: Seq<(Seq<char>, Seq<char>)>, field: Seq<char>) -> Option<Seq<char>>
    decreases md.len(),
{
    if md.len() == 0 {
        None
    } else if md[0].0 == field {
        Some(md[0].1)
    } else {
        first_value(md.drop_first(), field)
    }
}

/// Every value recorded under `field`, in order.
pub open spec fn all_values(md: Seq<(Seq<char>, Seq<char>)>, field: Seq<char>) -> Seq<Seq<char>>
    decreases md.len(),
{
    if md.len() == 0 {
        Seq::empty()
    } else if md.last().0 == field {
        all_values(md.drop_last(), field).push(md.last().1)
    } else {
        all_values(md.drop_last(), field)
    }
}

pub open spec fn md_view(md: Seq<(String, String)>) -> Seq<(Seq<char>, Seq<char>)> {
    md.map_values(|e: (String, String)| (e.0@, e.1@))
}

/// The first value of `mdfield` in a book's metadata entries
/// (property, value), or none.
pub fn get_first_fd(mdfield: &String, md: &Vec<(String, String)>) -> (r: Option<String>)
    ensures
        opt_view(r) == first_value(md_view(md@), mdfield@),
{
    let mut i: usize = 0;
    assert(md_view(md@).subrange(0, md@.len() as int) =~= md_view(md@));
    while i < md.len()
        invariant
            i <= md.len(),
            first_value(md_view(md@), mdfield@) == first_value(
                md_view(md@).subrange(i as int, md@.len() as int),
                mdfield@,
            ),
        decreases md.len() - i,
    {
        let ghost rest = md_view(md@).subrange(i as int, md@.len() as int);
        assert(rest.drop_first() =~= md_view(md@).subrange(i + 1, md@.len() as int));
        assert(rest[0] == (md@[i as int].0@, md@[i as int].1@));
        if md[i].0 == *mdfield {
            return Some(md[i].1.clone());
        }
        i = i + 1;
    }
    None
}

/// Every value of `mdfield`, or none when there is not one.
pub fn get_all_fd(mdfield: &String, md: &Vec<(String, String)>) -> (r: Option<Vec<String>>)
    ensures
        opt_views(r) == if all_values(md_view(md@), mdfield@).len() == 0 {
            None::<Seq<Seq<char>>>
        } else {
            Some(all_values(md_view(md@), mdfield@))
        },
{
    let mut out: Vec<String> = Vec::new();
    let mut i: usize = 0;
    while i < md.len()
        invariant
            i <= md.len(),
            views(out@) == all_values(md_view(md@).subrange(0, i as int), mdfield@),
        decreases md.len() - i,
    {
        let ghost pre = md_view(md@).subrange(0, i + 1);
        assert(pre.drop_last() =~= md_view(md@).subrange(0, i as int));
        assert(pre.last() == (md@[i as int].0@, md@[i as int].1@));
        if md[i].0 == *mdfield {
            let v = md[i].1.clone();
            let ghost before = out@;
            out.push(v);
            assert(views(out@) =~= views(before).push(v@));
        }
        i = i + 1;
    }
    assert(md_view(md@).subrange(0, i as int) =~= md_view(md@));
    if out.len() == 0 {
        None
    } else {
        Some(out)
    }
}

/// The book record built from an EPUB's metadata entries and the file's
/// path, size, modification time and cover type.
pub open spec fn book_from_epub(
    md: Seq<(Seq<char>, Seq<char>)>,
    b: BookMetadata,
    file: Seq<char>,
    filesize: i64,
    modtime: i64,
    cover_mime: Option<Seq<char>>,
) -> bool {
    &&& opt_view(b.title) == first_value(md, "title"@)
    &&& opt_view(b.description) == first_value(md, "description"@)
    &&& opt_view(b.publisher) == first_value(md, "publisher"@)
    &&& opt_view(b.creator) == match first_value(md, "creator"@) {
        Some(c) => Some(normalize_creator(c)),
        None => None,
    }
    &&& opt_views(b.subject) == if all_values(md, "subject"@).len() == 0 {
        None::<Seq<Seq<char>>>
    } else {
        Some(all_values(md, "subject"@))
    }
    &&& b.file@ == file
    &&& b.filesize == filesize
    &&& b.modtime == modtime
    &&& opt_view(b.pubdate) == first_value(md, "date"@)
    &&& opt_view(b.moddate) == first_value(md, "date"@)
    &&& opt_view(b.cover_mime) == cover_mime
    &&& b.id == b.spec_id()
}

impl BookMetadata {
    /// Builds the record of one book: first values of title, description,
    /// publisher, creator (normalised) and date, all subjects, and the
    /// identity computed from the contents.
    pub fn from_epub(
        md: &Vec<(String, String)>,
        file: String,
        filesize: i64,
        modtime: i64,
        cover_mime: Option<String>,
    ) -> (r: BookMetadata)
        ensures
            book_from_epub(md_view(md@), r, file@, filesize, modtime, opt_view(cover_mime)),
    {
        let creator = match get_first_fd(&String::from_str("creator"), md) {
            Some(c) => Some(unmangle_creator(c)),
            None => None,
        };
        let mut bm = BookMetadata {
            id: 0,
            title: get_first_fd(&String::from_str("title"), md),
            description: get_first_fd(&String::from_str("description"), md),
            publisher: get_first_fd(&String::from_str("publisher"), md),
            creator,
            subject: get_all_fd(&String::from_str("subject"), md),
            file,
            filesize,
            modtime,
            pubdate: get_first_fd(&String::from_str("date"), md),
            moddate: get_first_fd(&String::from_str("date"), md),
            cover_mime,
        };
        bm.id = bm.hash_md();
        bm
    }
}

/// A parse outcome that is a book with identity `id`.
pub open spec fn has_id(o: Option<BookMetadata>, id: i64) -> bool {
    match o {
        Some(b) => b.id == id,
        None => false,
    }
}

/// The number of books that could not be read.
pub open spec fn failures(parsed: Seq<Option<BookMetadata>>) -> nat
    decreases parsed.len(),
{
    if parsed.len() == 0 {
        0
    } else {
        failures(parsed.drop_last()) + if parsed.last() is None {
            1nat
        } else {
            0nat
        }
    }
}

/// The identities of the books among parse outcomes (`None` is a book that
/// could not be read).
pub open spec fn ids_of(parsed: Seq<Option<BookMetadata>>) -> Set<i64> {
    Set::new(|id: i64| exists|i: int| 0 <= i < parsed.len() && has_id(#[trigger] parsed[i], id))
}

/// The running state of an indexing run.
pub struct Ingest {
    seen: HashSet<i64>,
    /// Ids of the books handed on for writing, in order.
    written_ids: Ghost<Seq<i64>>,
    /// Every parse outcome taken so far, in order.
    history: Ghost<Seq<Option<BookMetadata>>>,
    tags: CountMap,
    creators: CountMap,
    publishers: CountMap,
    processed: u64,
    written: u64,
    errored: u64,
    duplicates: u64,
}

impl Ingest {
    /// Ids seen so far.
    pub closed spec fn seen_ids(&self) -> Set<i64> {
        self.seen@
    }

    /// Every parse outcome taken so far, over all batches, in order.
    pub closed spec fn spec_history(&self) -> Seq<Option<BookMetadata>> {
        self.history@
    }

    /// Ids handed on for writing so far, in order.
    pub closed spec fn spec_written_ids(&self) -> Seq<i64> {
        self.written_ids@
    }

    /// Tag counts so far.
    pub closed spec fn spec_tags(&self) -> Seq<(Seq<char>, usize)> {
        self.tags@
    }

    /// Creator counts so far.
    pub closed spec fn spec_creators(&self) -> Seq<(Seq<char>, usize)> {
        self.creators@
    }

    /// Publisher counts so far.
    pub closed spec fn spec_publishers(&self) -> Seq<(Seq<char>, usize)> {
        self.publishers@
    }

    pub fn tags(&self) -> (r: &CountMap)
        ensures
            r@ == self.spec_tags(),
    {
        &self.tags
    }

    pub fn creators(&self) -> (r: &CountMap)
        ensures
            r@ == self.spec_creators(),
    {
        &self.creators
    }

    pub fn publishers(&self) -> (r: &CountMap)
        ensures
            r@ == self.spec_publishers(),
    {
        &self.publishers
    }

    pub closed spec fn spec_processed(&self) -> u64 {
        self.processed
    }

    pub closed spec fn spec_written(&self) -> u64 {
        self.written
    }

    pub closed spec fn spec_errored(&self) -> u64 {
        self.errored
    }

    pub closed spec fn spec_duplicates(&self) -> u64 {
        self.duplicates
    }

    /// Every candidate is written, a duplicate or an error; the written ids
    /// are distinct and are exactly the ids seen.
    pub closed spec fn wf(&self) -> bool {
        &&& self.processed == self.written + self.duplicates + self.errored
        &&& self.processed == self.history@.len()
        &&& self.errored == failures(self.history@)
        &&& self.seen@ == ids_of(self.history@)
        &&& self.written == self.written_ids@.len()
        &&& self.written_ids@.no_duplicates()
        &&& self.written_ids@.to_set() == self.seen@
        &&& self.tags.wf()
        &&& self.creators.wf()
        &&& self.publishers.wf()
    }

    pub fn new() -> (r: Ingest)
        ensures
            r.wf(),
            r.seen_ids() == Set::<i64>::empty(),
            r.spec_history() == Seq::<Option<BookMetadata>>::empty(),
            r.spec_processed() == 0,
            r.spec_tags().len() == 0 && r.spec_creators().len() == 0 && r.spec_publishers().len() == 0,
    {
        let r = Ingest {
            seen: HashSet::new(),
            written_ids: Ghost(Seq::empty()),
            history: Ghost(Seq::empty()),
            tags: CountMap::new(),
            creators: CountMap::new(),
            publishers: CountMap::new(),
            processed: 0,
            written: 0,
            errored: 0,
            duplicates: 0,
        };
        assert(r.written_ids@.to_set() =~= Set::<i64>::empty());
        assert(ids_of(Seq::<Option<BookMetadata>>::empty()) =~= Set::<i64>::empty());
        r
    }

    pub fn processed(&self) -> (r: u64)
        ensures
            r == self.spec_processed(),
    {
        self.processed
    }

    pub fn written(&self) -> (r: u64)
        ensures
            r == self.spec_written(),
    {
        self.written
    }

    pub fn errored(&self) -> (r: u64)
        ensures
            r == self.spec_errored(),
    {
        self.errored
    }

    pub fn duplicates(&self) -> (r: u64)
        ensures
            r == self.spec_duplicates(),
    {
        self.duplicates
    }

    /// Takes the parse outcomes of one batch: each failure is counted as an
    /// error, each book whose id was seen before as a duplicate, and the
    /// others are returned, in order, for writing.
    pub fn accept_batch(&mut self, parsed: Vec<Option<BookMetadata>>) -> (r: Vec<BookMetadata>)
        requires
            old(self).wf(),
            old(self).spec_processed() + parsed.len() <= u64::MAX,
        ensures
            final(self).wf(),
            final(self).seen_ids() == old(self).seen_ids() + ids_of(parsed@),
            final(self).spec_history() == old(self).spec_history() + parsed@,
            final(self).spec_processed() == old(self).spec_processed() + parsed.len(),
            final(self).spec_errored() == old(self).spec_errored() + failures(parsed@),
            final(self).spec_written_ids() == old(self).spec_written_ids() + ids_in(r@),
            forall|i: int| 0 <= i < r.len() ==> !old(self).seen_ids().contains(#[trigger] r@[i].id),
            forall|i: int| 0 <= i < r.len() ==> parsed@.contains(Some(#[trigger] r@[i])),
            final(self).spec_tags() == old(self).spec_tags(),
            final(self).spec_creators() == old(self).spec_creators(),
            final(self).spec_publishers() == old(self).spec_publishers(),
    {
        let ghost orig = parsed@;
        let n = parsed.len();
        let mut parsed = parsed;
        let mut rev: Vec<Option<BookMetadata>> = Vec::new();
        while parsed.len() > 0
            invariant
                parsed.len() + rev.len() == n,
                n == orig.len(),
                forall|k: int| 0 <= k < parsed.len() ==> parsed@[k] == orig[k],
                forall|k: int| 0 <= k < rev.len() ==> #[trigger] rev@[k] == orig[n - 1 - k],
            decreases parsed.len(),
        {
            let x = parsed.pop().unwrap();
            rev.push(x);
        }
        let mut out: Vec<BookMetadata> = Vec::new();
        let ghost start_ids = self.written_ids@;
        let ghost start_seen = self.seen@;
        let mut i: usize = 0;
        while i < n
            invariant
                i <= n,
                n == orig.len(),
                rev.len() == n - i,
                forall|k: int| 0 <= k < rev.len() ==> #[trigger] rev@[k] == orig[n - 1 - k],
                self.wf(),
                self.processed == old(self).spec_processed() + i,
                self.errored == old(self).spec_errored() + failures(orig.subrange(0, i as int)),
                self.history@ == old(self).spec_history() + orig.subrange(0, i as int),
                old(self).spec_processed() + n <= u64::MAX,
                start_ids == old(self).spec_written_ids(),
                start_seen == old(self).seen_ids(),
                self.written_ids@ == start_ids + ids_in(out@),
                self.seen@ == start_seen + ids_of(orig.subrange(0, i as int)),
                forall|k: int| 0 <= k < out.len() ==> !start_seen.contains(#[trigger] out@[k].id),
                forall|k: int| 0 <= k < out.len() ==> orig.contains(Some(#[trigger] out@[k])),
                self.tags@ == old(self).spec_tags(),
                self.creators@ == old(self).spec_creators(),
                self.publishers@ == old(self).spec_publishers(),
            decreases n - i,
        {
            let ghost pre = orig.subrange(0, i as int);
            let ghost next = orig.subrange(0, i + 1);
            let item = rev.pop().unwrap();
            assert(item == orig[i as int]) by {
                assert(rev@.len() == n - i - 1);
            }
            assert(next.drop_last() =~= pre);
            assert(ids_of(next) =~= ids_of(pre) + match orig[i as int] {
                Some(b) => set![b.id],
                None => Set::empty(),
            }) by {
                assert forall|id: i64| ids_of(next).contains(id) implies (ids_of(pre) + match orig[i as int] {
                    Some(b) => set![b.id],
                    None => Set::<i64>::empty(),
                }).contains(id) by {
                    let k = choose|k: int| 0 <= k < next.len() && has_id(#[trigger] next[k], id);
                    if k < i {
                        assert(pre[k] == next[k]);
                    }
                }
                assert forall|id: i64| ids_of(pre).contains(id) implies ids_of(next).contains(id) by {
                    let k = choose|k: int| 0 <= k < pre.len() && has_id(#[trigger] pre[k], id);
                    assert(next[k] == pre[k]);
                }
                if let Some(b) = orig[i as int] {
                    assert(next[i as int] == orig[i as int]);
                    assert(has_id(next[i as int], b.id));
                }
            }
            match item {
                None => {
                    self.errored = self.errored + 1;
                },
                Some(bm) => {
                    if self.seen.contains(&bm.id) {
                        self.duplicates = self.duplicates + 1;
                    } else {
                        let ghost ids_before = self.written_ids@;
                        let ghost out_before = out@;
                        let id = bm.id;
                        self.seen.insert(id);
                        self.written_ids = Ghost(self.written_ids@.push(id));
                        self.written = self.written + 1;
                        out.push(bm);
                        proof {
                            assert(ids_in(out@) =~= ids_in(out_before).push(id));
                            assert(!ids_before.contains(id));
                            ids_before.lemma_push_to_set_commute(id);
                            assert forall|k: int| 0 <= k < out.len() implies orig.contains(
                                Some(#[trigger] out@[k]),
                            ) by {
                                if k == out.len() - 1 {
                                    assert(orig[i as int] == Some(out@[k]));
                                } else {
                                    assert(out@[k] == out_before[k]);
                                }
                            }
                            assert forall|k: int| 0 <= k < out.len() implies !start_seen.contains(
                                #[trigger] out@[k].id,
                            ) by {
                                if k < out.len() - 1 {
                                    assert(out@[k] == out_before[k]);
                                }
                            }
                        }
                    }
                },
            }
            proof {
                let h = self.history@;
                lemma_batches_commute(h, seq![orig[i as int]]);
                assert(ids_of(seq![orig[i as int]]) =~= match orig[i as int] {
                    Some(b) => set![b.id],
                    None => Set::<i64>::empty(),
                }) by {
                    if let Some(b) = orig[i as int] {
                        assert(has_id(seq![orig[i as int]][0], b.id));
                    }
                }
                assert(h + seq![orig[i as int]] =~= h.push(orig[i as int]));
                assert(h.push(orig[i as int]).drop_last() =~= h);
                assert(old(self).spec_history() + next =~= h.push(orig[i as int]));
            }
            let ghost h = self.history@;
            self.history = Ghost(self.history@.push(orig[i as int]));
            self.processed = self.processed + 1;
            proof {
                assert(self.history@.drop_last() =~= h);
                assert(self.errored == failures(self.history@));
                assert(self.seen@ =~= ids_of(self.history@));
            }
            i = i + 1;
        }
        assert(orig.subrange(0, i as int) =~= orig);
        out
    }

    /// Counts the tags, creator and publisher of books that were written.
    pub fn record_written(&mut self, bms: &Vec<BookMetadata>)
        requires
            old(self).wf(),
        ensures
            final(self).wf(),
            final(self).spec_tags() == bump_all(old(self).spec_tags(), all_book_tags(bms@)),
            final(self).spec_creators() == bump_all(old(self).spec_creators(), present(creators_of(bms@))),
            final(self).spec_publishers() == bump_all(old(self).spec_publishers(), present(publishers_of(bms@))),
            final(self).seen_ids() == old(self).seen_ids(),
            final(self).spec_written_ids() == old(self).spec_written_ids(),
            final(self).spec_history() == old(self).spec_history(),
            final(self).spec_processed() == old(self).spec_processed(),
            final(self).spec_written() == old(self).spec_written(),
            final(self).spec_errored() == old(self).spec_errored(),
            final(self).spec_duplicates() == old(self).spec_duplicates(),
    {
        let mut i: usize = 0;
        while i < bms.len()
            invariant
                i <= bms.len(),
                self.wf(),
                self.tags@ == bump_all(old(self).spec_tags(), all_book_tags(bms@.subrange(0, i as int))),
                self.creators@ == bump_all(old(self).spec_creators(), present(creators_of(bms@.subrange(0, i as int)))),
                self.publishers@ == bump_all(old(self).spec_publishers(), present(publishers_of(bms@.subrange(0, i as int)))),
                self.seen@ == old(self).seen_ids(),
                self.written_ids@ == old(self).spec_written_ids(),
                self.history@ == old(self).spec_history(),
                self.processed == old(self).spec_processed(),
                self.written == old(self).spec_written(),
                self.errored == old(self).spec_errored(),
                self.duplicates == old(self).spec_duplicates(),
            decreases bms.len() - i,
        {
            let ghost pre = bms@.subrange(0, i as int);
            let ghost next = bms@.subrange(0, i + 1);
            assert(next.drop_last() =~= pre);
            let bm = &bms[i];
            bm.add_tags(&mut self.tags);
            proof {
                lemma_bump_all_append(old(self).spec_tags(), all_book_tags(pre), book_tags(opt_views(bm.subject)));
                assert(creators_of(pre) =~= creators_of(next).drop_last());
                assert(publishers_of(pre) =~= publishers_of(next).drop_last());
                assert(creators_of(next).last() == opt_view(bm.creator));
                assert(publishers_of(next).last() == opt_view(bm.publisher));
            }
            BookMetadata::add_counts(&bm.creator, &mut self.creators);
            BookMetadata::add_counts(&bm.publisher, &mut self.publishers);
            proof {
                lemma_present_step(creators_of(next));
                lemma_present_step(publishers_of(next));
            }
            i = i + 1;
        }
        assert(bms@.subrange(0, i as int) =~= bms@);
    }
}

/// The identities of books, in order.
pub open spec fn ids_in(bms: Seq<BookMetadata>) -> Seq<i64> {
    bms.map_values(|b: BookMetadata| b.id)
}

/// The creators of books, in order.
pub open spec fn creators_of(bms: Seq<BookMetadata>) -> Seq<Option<Seq<char>>> {
    bms.map_values(|b: BookMetadata| opt_view(b.creator))
}

/// The publishers of books, in order.
pub open spec fn publishers_of(bms: Seq<BookMetadata>) -> Seq<Option<Seq<char>>> {
    bms.map_values(|b: BookMetadata| opt_view(b.publisher))
}

/// Over a whole run, however many batches it took, every candidate is
/// counted once: as written, as a duplicate or as an error; the errors are
/// the books that could not be read.
pub proof fn lemma_ingest_accounting(s: &Ingest)
    requires
        s.wf(),
    ensures
        s.spec_processed() == s.spec_written() + s.spec_duplicates() + s.spec_errored(),
        s.spec_processed() == s.spec_history().len(),
        s.spec_errored() == failures(s.spec_history()),
{
}

/// Over a whole run no id is handed on for writing twice, and the ids
/// written are exactly the ids of the books parsed in all batches.
pub proof fn lemma_written_ids_distinct(s: &Ingest)
    requires
        s.wf(),
    ensures
        s.spec_written_ids().no_duplicates(),
        s.spec_written_ids().len() == s.spec_written(),
        s.spec_written_ids().to_set() == s.seen_ids(),
        s.seen_ids() == ids_of(s.spec_history()),
{
}

/// Two runs that parsed the same books, in any order and in any batches,
/// wrote the same set of ids.
pub proof fn lemma_same_corpus_same_written_ids(a: &Ingest, b: &Ingest)
    requires
        a.wf(),
        b.wf(),
        forall|x: Option<BookMetadata>| a.spec_history().contains(x) <==> b.spec_history().contains(x),
    ensures
        a.spec_written_ids().to_set() == b.spec_written_ids().to_set(),
{
    lemma_same_corpus_same_ids(a.spec_history(), b.spec_history());
}

/// The ids that a run takes from its parse outcomes depend only on which
/// outcomes occur, not on their order or on how they were batched: two runs
/// over the same books find the same ids.
pub proof fn lemma_same_corpus_same_ids(a: Seq<Option<BookMetadata>>, b: Seq<Option<BookMetadata>>)
    requires
        forall|x: Option<BookMetadata>| a.contains(x) <==> b.contains(x),
    ensures
        ids_of(a) == ids_of(b),
{
    assert forall|id: i64| ids_of(a).contains(id) implies ids_of(b).contains(id) by {
        let i = choose|i: int| 0 <= i < a.len() && has_id(#[trigger] a[i], id);
        assert(a.contains(a[i]));
        let j = choose|j: int| 0 <= j < b.len() && b[j] == a[i];
        assert(has_id(b[j], id));
    }
    assert forall|id: i64| ids_of(b).contains(id) implies ids_of(a).contains(id) by {
        let i = choose|i: int| 0 <= i < b.len() && has_id(#[trigger] b[i], id);
        assert(b.contains(b[i]));
        let j = choose|j: int| 0 <= j < a.len() && a[j] == b[i];
        assert(has_id(a[j], id));
    }
    assert(ids_of(a) =~= ids_of(b));
}

/// The ids seen after two batches are those of both batches, whichever
/// order the batches come in.
pub proof fn lemma_batches_commute(a: Seq<Option<BookMetadata>>, b: Seq<Option<BookMetadata>>)
    ensures
        ids_of(a + b) == ids_of(a) + ids_of(b),
        ids_of(a + b) == ids_of(b + a),
{
    assert forall|x: Option<BookMetadata>| (a + b).contains(x) <==> (b + a).contains(x) by {
        if (a + b).contains(x) {
            let k = choose|k: int| 0 <= k < (a + b).len() && (a + b)[k] == x;
            if k < a.len() {
                assert((b + a)[b.len() + k] == x);
            } else {
                assert((b + a)[k - a.len()] == x);
            }
        }
        if (b + a).contains(x) {
            let k = choose|k: int| 0 <= k < (b + a).len() && (b + a)[k] == x;
            if k < b.len() {
                assert((a + b)[a.len() + k] == x);
            } else {
                assert((a + b)[k - b.len()] == x);
            }
        }
    }
    lemma_same_corpus_same_ids(a + b, b + a);
    assert forall|id: i64| ids_of(a + b).contains(id) <==> (ids_of(a) + ids_of(b)).contains(id) by {
        if ids_of(a + b).contains(id) {
            let k = choose|k: int| 0 <= k < (a + b).len() && has_id(#[trigger] (a + b)[k], id);
            if k < a.len() {
                assert(has_id(a[k], id));
            } else {
                assert(has_id(b[k - a.len()], id));
            }
        }
        if ids_of(a).contains(id) {
            let k = choose|k: int| 0 <= k < a.len() && has_id(#[trigger] a[k], id);
            assert(has_id((a + b)[k], id));
        }
        if ids_of(b).contains(id) {
            let k = choose|k: int| 0 <= k < b.len() && has_id(#[trigger] b[k], id);
            assert(has_id((a + b)[a.len() + k], id));
        }
    }
    assert(ids_of(a + b) =~= ids_of(a) + ids_of(b));
}

/// The tags of every book, in order.
pub open spec fn all_book_tags(bms: Seq<BookMetadata>) -> Seq<Seq<char>>
    decreases bms.len(),
{
    if bms.len() == 0 {
        Seq::empty()
    } else {
        all_book_tags(bms.drop_last()) + book_tags(opt_views(bms.last().subject))
    }
}

/// The values that are present, in order.
pub open spec fn present(vals: Seq<Option<Seq<char>>>) -> Seq<Seq<char>>
    decreases vals.len(),
{
    if vals.len() == 0 {
        Seq::empty()
    } else {
        match vals.last() {
            Some(v) => present(vals.drop_last()).push(v),
            None => present(vals.drop_last()),
        }
    }
}

proof fn lemma_present_step(vals: Seq<Option<Seq<char>>>)
    requires
        vals.len() > 0,
    ensures
        present(vals) == match vals.last() {
            Some(v) => present(vals.drop_last()).push(v),
            None => present(vals.drop_last()),
        },
        vals.last() matches Some(v) ==> present(vals).drop_last() == present(vals.drop_last()),
{
    if let Some(v) = vals.last() {
        assert(present(vals.drop_last()).push(v).drop_last() =~= present(vals.drop_last()));
    }
}

pub proof fn lemma_bump_all_append(e: Seq<(Seq<char>, usize)>, a: Seq<Seq<char>>, b: Seq<Seq<char>>)
    ensures
        bump_all(e, a + b) == bump_all(bump_all(e, a), b),
    decreases b.len(),
{
    if b.len() == 0 {
        assert(a + b =~= a);
    } else {
        lemma_bump_all_append(e, a, b.drop_last());
        assert((a + b).drop_last() =~= a + b.drop_last());
    }
}

} // verus!
