use shelfcontrol::categories::{count_letter, count_value, letter_categories, letter_of, prefix_pattern, value_categories};
use shelfcontrol::counts::{counts_page, create_table_sql, get_count_sql, insert_sql, like_pattern, store_rows, AuthorCount, DbInfo, PublisherCount, TagCount};
use shelfcontrol::error::{ClientError, QueryErrorKind, StoreError};
use shelfcontrol::ingest::{batch_full, get_first_fd, is_book_entry, is_hidden, BATCH_SIZE};
use shelfcontrol::json::{decimal, decimal_i64, ToJson};
use shelfcontrol::numbers::{parse_i64, parse_u64, parse_usize};
use shelfcontrol::search_result::{Category, CategorySearchResult, SearchResult, top_limit};
use shelfcontrol::server::{
    attachment_name, author_navs, authors_request, books_query, counts_params, cover_mime_of, cover_path,
    error_body, parse_book_id, root_navs, route_of, search_params, start_indexer, start_server, CountKind, OpdsCategory,
    RouteKind,
};
use shelfcontrol::tally::CountMap;
use shelfcontrol::identity::BookMetadata;
use shelfcontrol::index_doc::sanitize_description;
use shelfcontrol::opds::render_feed;
use shelfcontrol::server::{categorise_query, search_failure};
use shelfcontrol::server::opds_page;

fn s(x: &str) -> String {
    x.to_string()
}

#[test]
fn decimal_text() {
    assert_eq!("0", decimal(0));
    assert_eq!("18446744073709551615", decimal(u64::MAX));
    assert_eq!("-5302641238507735522", decimal_i64(-5302641238507735522));
    assert_eq!("-9223372036854775808", decimal_i64(i64::MIN));
    assert_eq!("42", decimal_i64(42));
}

#[test]
fn parse_numbers_like_std() {
    assert_eq!(Some(12), parse_u64(&s("12")));
    assert_eq!(Some(7), parse_u64(&s("+7")));
    assert_eq!(None, parse_u64(&s("")));
    assert_eq!(None, parse_u64(&s("+")));
    assert_eq!(None, parse_u64(&s("-1")));
    assert_eq!(None, parse_u64(&s("1a")));
    assert_eq!(Some(u64::MAX), parse_u64(&s("18446744073709551615")));
    assert_eq!(None, parse_u64(&s("18446744073709551616")));
    assert_eq!(Some(3), parse_usize(&s("003")));
    assert_eq!(Some(i64::MIN), parse_i64(&s("-9223372036854775808")));
    assert_eq!(None, parse_i64(&s("-9223372036854775809")));
    assert_eq!(Some(i64::MAX), parse_i64(&s("9223372036854775807")));
    assert_eq!(None, parse_i64(&s("9223372036854775808")));
    assert_eq!(None, parse_i64(&s("-")));
    assert_eq!(Some(-12), parse_i64(&s("-12")));
}

#[test]
fn book_ids_in_paths() {
    assert_eq!(Some(-5302641238507735522), parse_book_id(&s("-5302641238507735522.epub")));
    assert_eq!(Some(17), parse_book_id(&s("17")));
    assert_eq!(None, parse_book_id(&s("17.pdf")));
    assert_eq!(None, parse_book_id(&s(".epub")));
}

#[test]
fn walked_entries() {
    assert!(is_book_entry(&s("Book.EPUB"), 2, true));
    assert!(!is_book_entry(&s("Book.epub"), 1, false));
    assert!(!is_book_entry(&s(".hidden.epub"), 1, true));
    assert!(!is_book_entry(&s("book.pdf"), 1, true));
    assert!(is_hidden(&s(".git"), 1));
    assert!(!is_hidden(&s("."), 0));
    assert!(batch_full(BATCH_SIZE));
    assert!(!batch_full(BATCH_SIZE - 1));
}

#[test]
fn first_metadata_value() {
    let md = vec![(s("title"), s("A")), (s("title"), s("B"))];
    assert_eq!(Some(s("A")), get_first_fd(&s("title"), &md));
    assert_eq!(None, get_first_fd(&s("creator"), &md));
}

#[test]
fn search_parameters() {
    let p = search_params(&Some(s(" darwin%20origin ")), &None, &Some(s("5"))).unwrap();
    assert_eq!("darwin origin", p.query);
    assert_eq!(0, p.start);
    assert_eq!(5, p.limit);
    let p = search_params(&Some(s("x")), &None, &None).unwrap();
    assert_eq!(20, p.limit);
    let e = search_params(&None, &None, &None).unwrap_err();
    assert_eq!("Query error", e.name);
    let e = search_params(&Some(s("x")), &Some(s("a")), &None).unwrap_err();
    assert_eq!("\"start\" should have an integer argument", e.msg);
    let e = search_params(&Some(s("x")), &None, &Some(s("-1"))).unwrap_err();
    assert_eq!("\"limit\" should have an integer argument", e.msg);
    let e = search_params(&Some(s("%FF")), &None, &None).unwrap_err();
    assert_eq!("Query error", e.name);
}

#[test]
fn counts_parameters() {
    let p = counts_params(&s("tags"), &Some(s(" love ")), &None, &None, &Some(s("true")), &None).unwrap();
    assert_eq!(Some(CountKind::Tags), p.kind);
    assert_eq!(Some(s("love")), p.filter);
    assert_eq!((0, 100, true, false), (p.start, p.limit, p.order_by_count, p.ascending));
    let p = counts_params(&s("films"), &None, &Some(s("3")), &Some(s("4")), &None, &Some(s("false"))).unwrap();
    assert_eq!(None, p.kind);
    assert_eq!((3, 4, false), (p.start, p.limit, p.ascending));
    let p = counts_params(&s("publishers"), &None, &None, &None, &None, &None).unwrap();
    assert_eq!((false, true), (p.order_by_count, p.ascending));
    let e = counts_params(&s("authors"), &None, &None, &None, &Some(s("yes")), &None).unwrap_err();
    assert_eq!("\"countorder\" should be true or false", e.msg);
    let e = counts_params(&s("authors"), &None, &None, &None, &None, &Some(s("TRUE"))).unwrap_err();
    assert_eq!("\"ascending\" should be true or false", e.msg);
    let e = counts_params(&s("authors"), &None, &Some(s("4294967296")), &None, &None, &None).unwrap_err();
    assert_eq!("Type error", e.name);
}

#[test]
fn aggregate_sql() {
    assert_eq!("CREATE TABLE authors (creator TEXT primary key, count INTEGER)", create_table_sql::<AuthorCount>());
    assert_eq!("INSERT INTO tags(tag, count) values (?1, ?2)", insert_sql::<TagCount>());
    assert_eq!("publishers", PublisherCount::get_table());
    assert_eq!("publisher", PublisherCount::get_pkcol());
    assert_eq!(
        "select *, count(*) OVER() from tags  where tag like ?  order by count  ASC limit 20, 10",
        get_count_sql(true, true, true, 20, 10, "tags", "tag")
    );
    assert_eq!(
        "select *, count(*) OVER() from authors   order by creator  DESC limit 0, 100",
        get_count_sql(false, false, false, 0, 100, "authors", "creator")
    );
    assert_eq!("%love%", like_pattern(&s("love")));
}

#[test]
fn aggregate_pages() {
    let rows = vec![(s("a"), 5, 3usize), (s("b"), 4, 3), (s("c"), 1, 3)];
    let page: SearchResult<TagCount> = counts_page(rows, 0, 2, Some(s("x")));
    assert_eq!(3, page.count);
    assert_eq!(2, page.payload.len());
    assert_eq!("b", page.payload[1].tag);
    assert_eq!(
        "{\"count\":3, \"position\":0, \"query\":\"x\", \"books\":[{\"tag\":\"a\",\"count\":5},{\"tag\":\"b\",\"count\":4}]}",
        page.to_json()
    );
    let empty: SearchResult<AuthorCount> = counts_page(vec![], 40, 10, None);
    assert_eq!(0, empty.count);
    assert_eq!(
        "{\"count\":0, \"position\":40, \"query\":\"\", \"books\":[]}",
        empty.to_json()
    );
    let mut counts = CountMap::new();
    counts.add(s("big"), usize::MAX);
    assert_eq!(vec![(s("big"), u32::MAX)], store_rows(&counts));
}

#[test]
fn book_json() {
    let bm = BookMetadata {
        id: -5302641238507735522,
        title: Some(s("The Origin of Species")),
        description: None,
        publisher: Some(s("Say \"hi\"")),
        creator: Some(s("Charles Darwin")),
        subject: Some(vec![s("evolution (biology)")]),
        file: s("/secret/path.epub"),
        filesize: 10,
        modtime: 0,
        pubdate: Some(s("2019-01-15T04:52:30Z")),
        moddate: None,
        cover_mime: Some(s("image/jpeg")),
    };
    let json = bm.to_json();
    assert_eq!(
        "{\"id\":\"-5302641238507735522\",\"title\":\"The Origin of Species\",\"description\":null,\"publisher\":\"Say \\\"hi\\\"\",\"creator\":\"Charles Darwin\",\"subject\":[\"evolution (biology)\"],\"filesize\":10,\"modtime\":0,\"pubdate\":\"2019-01-15T04:52:30Z\",\"moddate\":null,\"cover_mime\":\"image/jpeg\"}",
        json
    );
    assert!(!json.contains("secret"));
    let page = SearchResult::from_ranked(1, 0, 10, Some(s("darwin")), vec![bm]);
    let text = page.to_json();
    assert!(text.contains("\"count\":1, \"position\":0,"));
    assert!(text.contains("\"query\":\"darwin\","));
    assert!(text.contains("\"creator\":\"Charles Darwin\","));
    assert!(text.ends_with(",\"cover_mime\":\"image/jpeg\"}]}"));
}

#[test]
fn ranked_pages() {
    let page = SearchResult::from_ranked(9, 2, 20, None, vec![1, 2, 3, 4]);
    assert_eq!(vec![3, 4], page.payload);
    assert_eq!(9, page.count);
    let page = SearchResult::from_ranked(9, 1, 2, None, vec![1, 2, 3, 4]);
    assert_eq!(vec![2, 3], page.payload);
    let page = SearchResult::from_ranked(9, 0, 0, None, vec![1, 2]);
    assert!(page.payload.is_empty());
    let page = SearchResult::from_ranked(9, 7, usize::MAX, None, vec![1, 2]);
    assert!(page.payload.is_empty());
    assert_eq!(usize::MAX, top_limit(usize::MAX, 1));
    assert_eq!(30, top_limit(10, 20));
}

#[test]
fn error_json() {
    assert_eq!(
        "{\"error\":[\"{\\\"name\\\":\\\"Type error\\\",\\\"msg\\\":\\\"bad\\\"}\"]}",
        error_body("Type error", "bad")
    );
    let ce = ClientError::from_query_error(QueryErrorKind::FieldDoesNotExist(s("colour")));
    assert_eq!("Field does not Exist", ce.name);
    assert_eq!("You searched for a field that does not exist:colour", ce.msg);
    assert_eq!("(Field does not Exist, You searched for a field that does not exist:colour)", ce.to_text());
    let se = StoreError::from_query_error(QueryErrorKind::SyntaxError);
    assert!(se.is_client_error());
    assert_eq!("Client Error: (Syntax Error, There was a syntax error in the search string.)", se.to_text());
    let se = StoreError::schema_mismatch("tags");
    assert!(!se.is_client_error());
    assert!(se.to_text().starts_with("Error initialising store:'Mismatching schema - specified field tags"));
}

#[test]
fn letter_buckets() {
    let mut fruit = CountMap::new();
    for name in ["Charles Darwin", "Charles Dickens", "charles dickens", "Chaucer", "Thomas De Quincey", "C"] {
        count_letter(&mut fruit, &s(name), &s("C"), 2);
    }
    let cats = letter_categories(&s("C"), &fruit, 0);
    assert_eq!(1, cats.count);
    assert_eq!("CH", cats.categories[0].prefix);
    assert_eq!(4, cats.categories[0].count);
    assert_eq!(Some('H'), letter_of(&s("chaucer"), &s("C"), 2));
    assert_eq!(None, letter_of(&s("Chaucer"), &s("c"), 2));

    let mut firsts = CountMap::new();
    for name in ["Zola", "Austen", "Balzac", "Alcott", "zweig"] {
        count_letter(&mut firsts, &s(name), &s(""), 1);
    }
    let cats = letter_categories(&s(""), &firsts, 0);
    let prefixes: Vec<String> = cats.categories.iter().map(|c| c.prefix.clone()).collect();
    assert_eq!(vec![s("A"), s("B"), s("Z")], prefixes);
    assert_eq!(5usize, cats.categories.iter().map(|c| c.count).sum::<usize>());
    let cats = letter_categories(&s(""), &firsts, 1);
    assert_eq!(2, cats.count);
}

#[test]
fn value_buckets() {
    let mut fruit = CountMap::new();
    for name in ["Charles Dickens", "Charles Darwin", "Charles Dickens", "Chaucer"] {
        count_value(&mut fruit, &s(name));
    }
    let cats = value_categories(&fruit, &s("CHA"));
    assert_eq!(3, cats.count);
    assert_eq!("Charles Darwin", cats.categories[0].prefix);
    assert_eq!("Charles Dickens", cats.categories[1].prefix);
    assert_eq!(2, cats.categories[1].count);
    let cats = value_categories(&fruit, &s("charles"));
    assert_eq!(2, cats.count);
    let mut other = CountMap::new();
    count_value(&mut other, &s("Chaucer"));
    fruit.merge(&other);
    assert_eq!(2, fruit.get(&s("Chaucer")));
    assert_eq!("cha.*", prefix_pattern(&s("ChA")));
}

#[test]
fn opds_navigation() {
    let navs = root_navs();
    assert_eq!(4, navs.len());
    assert_eq!("/opds/authors", navs[0].url);
    assert_eq!("2021-01-21T10:56:30+01:00", navs[3].moddate);
    let cats = CategorySearchResult {
        count: 2,
        categories: vec![Category { prefix: s("CH"), count: 2001 }, Category { prefix: s("CO"), count: 12 }],
    };
    let navs = author_navs(&cats, false);
    assert_eq!("/opds/authors?categorise=CH", navs[0].url);
    assert_eq!("CH (2001)", navs[0].title);
    assert_eq!("/opds/authors?categorise=CO&byAuthor=true", navs[1].url);
    let cats = CategorySearchResult { count: 1, categories: vec![Category { prefix: s("Charles Darwin "), count: 1 }] };
    let navs = author_navs(&cats, true);
    assert_eq!("/opds/books?query=creator:Charles%20Darwin", navs[0].url);
    let r = authors_request(&None, false);
    assert_eq!(("".to_string(), Some(s("*"))), (r.prefix, r.query));
    let r = authors_request(&Some(s("CH")), true);
    assert_eq!((s("CH"), None, true), (r.prefix, r.query, r.by_author));
    assert_eq!(s("x y"), books_query(&Some(s(" x y "))).unwrap());
    assert!(books_query(&None).is_err());
    let c = OpdsCategory::new(s("T"), s("/u"));
    assert_eq!((1, None), (c.id, c.icon));
}

#[test]
fn downloads_and_covers() {
    assert_eq!("Charles Darwin - Origin", attachment_name(&Some(s("Charles Darwin")), &Some(s("Origin"))));
    assert_eq!("unknown - unknown author", attachment_name(&None, &None));
    assert_eq!(None, cover_mime_of(&Some(s(""))));
    assert_eq!(Some(s("image/png")), cover_mime_of(&Some(s("image/png"))));
    assert_eq!("covers/-3", cover_path(&Some(s("covers")), -3));
    assert_eq!("./7", cover_path(&None, 7));
}

#[test]
fn run_plans() {
    let plan = start_indexer(s("db"), vec![s("books")], s("covers"), true);
    assert_eq!("db/counts.sqlite", plan.paths.counts_file);
    assert_eq!(Some(s("covers")), plan.coverdir);
    let plan = start_server(s("db"), 8080, s("localhost"), s(""), false);
    assert_eq!("db", plan.paths.index_dir);
    assert_eq!(None, plan.coverdir);
    assert_eq!(8080, plan.port);
}

#[test]
fn descriptions_are_sanitised() {
    let clean = sanitize_description("<p onclick=\"x()\">Hi <script>bad()</script><a href=\"/x\" rel=\"nofollow\">l</a><div>d</div></p>");
    assert!(!clean.contains("script"));
    assert!(!clean.contains("onclick"));
    assert!(!clean.contains("<div>"));
    assert!(clean.contains("<a href=\"/x\">l</a>"));
    let bm = BookMetadata {
        id: 1, title: None, description: Some(s("<b>x</b><i>y")), publisher: None, creator: None,
        subject: Some(vec![s("A; B; ; a")]), file: s("f"), filesize: 0, modtime: 0,
        pubdate: None, moddate: None, cover_mime: None,
    };
    let doc = bm.index_doc();
    assert_eq!("<b>x</b><i>y</i>", doc.description);
    assert_eq!(vec![s("/a"), s("/b")], doc.facets);
    assert_eq!("", doc.title);
}

#[test]
fn opds_feeds() {
    let feed = render_feed(&opds_page(), &root_navs(), &vec![]);
    assert!(feed.starts_with("<?xml version=\"1.0\" encoding=\"UTF-8\"?><feed xmlns=\"http://www.w3.org/2005/Atom\"><id>1</id><title>ShelfControl</title>"));
    assert!(feed.contains("<entry><title>Authors</title><id>/opds/authors</id>"));
    assert!(feed.ends_with("</entry></feed>"));
    let bm = BookMetadata {
        id: -7, title: Some(s("Tom & Jerry <3")), description: None, publisher: None, creator: None,
        subject: None, file: s("f"), filesize: 0, modtime: 0, pubdate: None, moddate: None,
        cover_mime: Some(s("image/png")),
    };
    let feed = render_feed(&opds_page(), &vec![], &vec![bm]);
    assert!(feed.contains("<title>Tom &amp; Jerry &lt;3</title><id>urn:shelfcontrol:-7</id><author><name>unknown</name></author><summary></summary>"));
    assert!(feed.contains("href=\"/api/book/-7.epub\"/><link rel=\"http://opds-spec.org/image\" type=\"image/png\" href=\"/img/-7\"/></entry></feed>"));
}

#[test]
fn request_routes() {
    let r = route_of("/api/search");
    assert_eq!((RouteKind::Search, None), (r.kind, r.arg));
    let r = route_of("/api/counts/tags");
    assert_eq!((RouteKind::Counts, Some(s("tags"))), (r.kind, r.arg));
    let r = route_of("/api/book/-5302641238507735522.epub");
    assert_eq!((RouteKind::Book, Some(s("-5302641238507735522.epub"))), (r.kind, r.arg));
    assert_eq!(RouteKind::Opds, route_of("/opds").kind);
    assert_eq!(RouteKind::OpdsAuthors, route_of("/opds/authors").kind);
    assert_eq!(RouteKind::OpdsBooks, route_of("/opds/books").kind);
    assert_eq!(RouteKind::OpdsTags, route_of("/opds/tags").kind);
    assert_eq!(RouteKind::OpenSearch, route_of("/api/opensearch").kind);
    let r = route_of("/img/42");
    assert_eq!((RouteKind::Cover, Some(s("42"))), (r.kind, r.arg));
    assert_eq!(RouteKind::NotFound, route_of("/opds/").kind);
    assert_eq!(RouteKind::NotFound, route_of("/api/counts").kind);
    assert_eq!(RouteKind::NotFound, route_of("/").kind);
}

#[test]
fn search_failures_and_browse_queries() {
    let (status, body) = search_failure(&StoreError::from_query_error(QueryErrorKind::SyntaxError));
    assert_eq!(200, status);
    assert!(body.contains("Syntax Error"));
    let (status, body) = search_failure(&StoreError::DbError(s("disk")));
    assert_eq!(500, status);
    assert_eq!(error_body("Server error", "There was a server side error."), body);
    let q = categorise_query(&s("Ch"), &None);
    assert_eq!((3, None, s("ch.*")), (q.char_position, q.query, q.pattern));
    let q = categorise_query(&s(""), &Some(s("*")));
    assert_eq!((1, Some(s("*"))), (q.char_position, q.query));
}

#[test]
fn url_encoding_of_non_ascii() {
    let cats = CategorySearchResult { count: 1, categories: vec![Category { prefix: s("Émile Zola/x"), count: 1 }] };
    let navs = author_navs(&cats, true);
    assert_eq!("/opds/books?query=creator:%C3%89mile%20Zola%2Fx", navs[0].url);
}
