use shelfcontrol::identity::{subject_tags_of, unmangle_creator, BookMetadata};
use shelfcontrol::ingest::Ingest;
use shelfcontrol::tally::CountMap;

fn book_with_subject(subject: &str) -> BookMetadata {
    BookMetadata {
        id: 0,
        title: None,
        description: None,
        publisher: None,
        creator: None,
        subject: Some(vec![subject.to_string()]),
        file: "test_file".to_string(),
        filesize: 0,
        modtime: 1_700_000_000,
        pubdate: None,
        moddate: None,
        cover_mime: None,
    }
}

#[test]
fn test_unmangle_tags() {
    let mut testbm = BookMetadata {
        id: 0,
        title: None,
        description: None,
        publisher: None,
        creator: None,
        subject: Some(vec!["Contemporary romance fiction; contemporary romance; contemporary women’s fiction; romance; Small Town & Rural; Women’s Fiction; Opposites attract".to_string()]),
        file: "test_file".to_string(),
        filesize: 0,
        modtime: 1_700_000_000,
        pubdate: None,
        moddate: None,
        cover_mime: None,
    };

    let mut tagmap = CountMap::new();
    testbm.add_tags(&mut tagmap);

    assert_eq!(7, tagmap.len());

    testbm.subject = Some(vec!["West (AK; CA; CO; HI; ID; MT; NV; UT; WY)".to_string()]);
    tagmap = CountMap::new();
    testbm.add_tags(&mut tagmap);
    assert_eq!(1, tagmap.len());

    testbm.subject = Some(vec!["Drew; Nancy (Fictitious Character)".to_string()]);
    tagmap = CountMap::new();
    testbm.add_tags(&mut tagmap);
    assert_eq!(1, tagmap.len());

    testbm.subject = Some(vec![
        "FIC027020  FICTION / Romance / Contemporary; FIC044000  FICTION / Contemporary Women".to_string(),
    ]);
    tagmap = CountMap::new();
    testbm.add_tags(&mut tagmap);
    assert_eq!(4, tagmap.len());

    testbm.subject = Some(vec![
        "Fiction / Action & Adventure, Fiction / Fantasy / Epic, Fiction / Fantasy / Historical, Fiction / War & Military".to_string(),
    ]);
    tagmap = CountMap::new();
    testbm.add_tags(&mut tagmap);
    assert_eq!(6, tagmap.len());

    testbm.subject = Some(vec!["Billionaire Romance; Romantic Heroes Royalty & Aristocrats; Romantic Themes Workplace; New Adult & College Romance; City Life Fiction; Contemporary British Fiction; Coming of Age Fiction; Avery Flynn; Entangled Publishing; Royal Bastard; Royalty Romance; Earl; Romantic Comedy; RomCom; Contemporary Romance; Loudmouth by Avery Flynn; Awkweird by Avery Flynn; Parental Guidance by Avery Flynn; Opposites attract romance; Boss/Employee Romance; Forbidden Romance; Fish out of Water Romance; Instantly Royal; Amara; Stand Alone Romance; Series Romance".to_string()]);
    tagmap = CountMap::new();
    testbm.add_tags(&mut tagmap);
    assert_eq!(26, tagmap.len());

    testbm.subject = Some(vec!["Juvenile Fiction / Action & Adventure / General, Juvenile Fiction / Fantasy & Magic, Juvenile Fiction / Science Fiction, Juvenile Fiction / Monsters".to_string()]);
    tagmap = CountMap::new();
    testbm.add_tags(&mut tagmap);
    assert_eq!(6, tagmap.len());
}

#[test]
fn test_unmangle() {
    let lovecraft = "H.P. Lovecraft".to_string();
    assert_eq!(lovecraft, unmangle_creator(lovecraft.clone()));
    assert_eq!(lovecraft, unmangle_creator("Lovecraft, H.P.".to_string()));
    assert_eq!(lovecraft, unmangle_creator("Lovecraft,  H.P. ".to_string()));
    assert_eq!(lovecraft, unmangle_creator("H.P.  Lovecraft".to_string()));
    assert_eq!(lovecraft, unmangle_creator("H.P. \t  Lovecraft".to_string()));
    assert_eq!(lovecraft, unmangle_creator(" H.P.\t \tLovecraft ".to_string()));
}

#[test]
fn creator_with_two_commas_is_only_collapsed() {
    assert_eq!("Smith, John, Jr.", unmangle_creator("  Smith,  John,\tJr. ".to_string()));
    assert_eq!("", unmangle_creator("   ".to_string()));
    assert_eq!("Ursula Le Guin", unmangle_creator("Le Guin,\u{a0}Ursula".to_string()));
}

#[test]
fn subject_tags_are_lowercased_and_trimmed() {
    assert_eq!(
        vec!["history".to_string(), "science".to_string(), "philosophy".to_string()],
        subject_tags_of(&"  History; Science ;PHILOSOPHY ".to_string())
    );
    assert_eq!(vec!["a, b / c; d".to_string()], subject_tags_of(&"A, B / C; D".to_string()));
    assert_eq!(
        vec!["west (ak; ca; co)".to_string()],
        subject_tags_of(&"West (AK; CA; CO)".to_string())
    );
    assert_eq!(vec!["".to_string()], subject_tags_of(&"".to_string()));
}

#[test]
fn tag_counts_accumulate_across_books() {
    let mut tags = CountMap::new();
    book_with_subject("Poetry; Drama").add_tags(&mut tags);
    book_with_subject("poetry").add_tags(&mut tags);
    assert_eq!(2, tags.len());
    assert_eq!(2, tags.get(&"poetry".to_string()));
    assert_eq!(1, tags.get(&"drama".to_string()));
    assert_eq!(0, tags.get(&"prose".to_string()));
    let mut none = book_with_subject("x");
    none.subject = None;
    none.add_tags(&mut tags);
    assert_eq!(2, tags.len());
}

#[test]
fn add_counts_counts_present_values() {
    let mut counts = CountMap::new();
    BookMetadata::add_counts(&Some("Penguin".to_string()), &mut counts);
    BookMetadata::add_counts(&None, &mut counts);
    BookMetadata::add_counts(&Some("Penguin".to_string()), &mut counts);
    assert_eq!(1, counts.len());
    assert_eq!(vec![("Penguin".to_string(), 2usize)], counts.entries());
}

#[test]
fn count_map_merge_adds_counts() {
    let mut a = CountMap::new();
    a.increment("x".to_string());
    let mut b = CountMap::new();
    b.add("x".to_string(), 3);
    b.add("y".to_string(), 1);
    a.merge(&b);
    assert_eq!(vec![("x".to_string(), 4usize), ("y".to_string(), 1usize)], a.entries());
    a.add("y".to_string(), usize::MAX);
    assert_eq!(usize::MAX, a.get(&"y".to_string()));
}

#[test]
fn hash_is_deterministic_and_ignores_file_and_time() {
    let a = book_with_subject("poetry");
    let mut b = book_with_subject("poetry");
    b.file = "/elsewhere/book.epub".to_string();
    b.modtime = -5;
    assert_eq!(a.hash_md(), a.hash_md());
    assert_eq!(a.hash_md(), b.hash_md());
    let mut c = book_with_subject("poetry");
    c.filesize = 1;
    assert_ne!(a.hash_md(), c.hash_md());
    let mut d = book_with_subject("poetry");
    d.title = Some("A title".to_string());
    assert_ne!(a.hash_md(), d.hash_md());
}

#[test]
fn from_epub_builds_the_record() {
    let md = vec![
        ("title".to_string(), "On the Origin of Species".to_string()),
        ("creator".to_string(), "Darwin,  Charles".to_string()),
        ("subject".to_string(), "Evolution (Biology)".to_string()),
        ("date".to_string(), "2019-01-15T04:52:30Z".to_string()),
        ("subject".to_string(), "Natural selection".to_string()),
        ("title".to_string(), "Second title".to_string()),
    ];
    let bm = BookMetadata::from_epub(&md, "/books/darwin.epub".to_string(), 1234, 99, Some("image/jpeg".to_string()));
    assert_eq!(Some("On the Origin of Species".to_string()), bm.title);
    assert_eq!(Some("Charles Darwin".to_string()), bm.creator);
    assert_eq!(None, bm.publisher);
    assert_eq!(None, bm.description);
    assert_eq!(
        Some(vec!["Evolution (Biology)".to_string(), "Natural selection".to_string()]),
        bm.subject
    );
    assert_eq!(Some("2019-01-15T04:52:30Z".to_string()), bm.pubdate);
    assert_eq!(bm.pubdate, bm.moddate);
    assert_eq!(1234, bm.filesize);
    assert_eq!(99, bm.modtime);
    assert_eq!(bm.hash_md(), bm.id);
    let no_subjects = BookMetadata::from_epub(&vec![], "f".to_string(), 0, 0, None);
    assert_eq!(None, no_subjects.subject);
    assert_eq!(None, no_subjects.title);
}

#[test]
fn ingest_counts_duplicates_and_errors() {
    let a = book_with_subject("poetry");
    let mut a2 = book_with_subject("poetry");
    a2.file = "copy".to_string();
    let mut b = book_with_subject("drama");
    b.creator = Some("Ann".to_string());
    b.publisher = Some("House".to_string());
    let (ia, ib) = (a.hash_md(), b.hash_md());
    let a = BookMetadata { id: ia, ..a };
    let a2 = BookMetadata { id: ia, ..a2 };
    let b = BookMetadata { id: ib, ..b };

    let mut run = Ingest::new();
    let first = run.accept_batch(vec![Some(a), None, Some(a2)]);
    assert_eq!(1, first.len());
    run.record_written(&first);
    let second = run.accept_batch(vec![Some(b), None]);
    assert_eq!(1, second.len());
    assert_eq!(ib, second[0].id);
    run.record_written(&second);
    assert_eq!(5, run.processed());
    assert_eq!(2, run.written());
    assert_eq!(1, run.duplicates());
    assert_eq!(2, run.errored());
    assert_eq!(run.processed(), run.written() + run.duplicates() + run.errored());
    assert_eq!(2, run.tags().len());
    assert_eq!(vec![("Ann".to_string(), 1usize)], run.creators().entries());
    assert_eq!(vec![("House".to_string(), 1usize)], run.publishers().entries());
}

#[test]
fn same_books_in_another_order_give_the_same_ids() {
    let books: Vec<BookMetadata> = ["a", "b", "c"]
        .iter()
        .map(|t| {
            let mut b = book_with_subject("x");
            b.title = Some(t.to_string());
            let id = b.hash_md();
            BookMetadata { id, ..b }
        })
        .collect();
    let mut first = Ingest::new();
    let mut ids1: Vec<i64> = first
        .accept_batch(vec![Some(books[0].clone()), Some(books[1].clone()), None, Some(books[2].clone())])
        .iter()
        .map(|b| b.id)
        .collect();
    let mut second = Ingest::new();
    let mut ids2: Vec<i64> = second.accept_batch(vec![Some(books[2].clone()), Some(books[0].clone())]).iter().map(|b| b.id).collect();
    ids2.extend(second.accept_batch(vec![Some(books[1].clone()), Some(books[0].clone())]).iter().map(|b| b.id));
    ids1.sort();
    ids2.sort();
    assert_eq!(ids1, ids2);
    assert_eq!(1, second.duplicates());
    assert_eq!(1, first.errored());
}
