use site_compiler::posts::{ParseError, Post, PostMetadata, Timestamp};
use site_compiler::scan::{
    add_post, can_number_posts, classify_entry, eq_ignore_ascii_case, get_all_posts, to_ascii_lower,
    EntryKind, ScanError, SourceDocument, SourceEntry,
};

fn page(title: &str, secs: i64) -> SourceEntry {
    SourceEntry::Document(SourceDocument {
        created: Timestamp { secs, nanos: 7 },
        text: format!("<title>{}</title><contents><p>{}</p></contents>", title, title),
    })
}

fn untitled() -> SourceEntry {
    SourceEntry::Document(SourceDocument {
        created: Timestamp { secs: 0, nanos: 0 },
        text: "<contents><p>nameless</p></contents>".to_string(),
    })
}

#[test]
fn entries_are_told_apart_by_kind_and_extension() {
    assert_eq!(classify_entry(false, Some("html")), EntryKind::Document);
    assert_eq!(classify_entry(false, Some("htm")), EntryKind::Document);
    assert_eq!(classify_entry(false, Some("HTML")), EntryKind::Document);
    assert_eq!(classify_entry(false, Some("HtM")), EntryKind::Document);
    assert_eq!(classify_entry(false, Some("xhtml")), EntryKind::Other);
    assert_eq!(classify_entry(false, Some("ht")), EntryKind::Other);
    assert_eq!(classify_entry(false, Some("htmll")), EntryKind::Other);
    assert_eq!(classify_entry(false, Some("md")), EntryKind::Other);
    assert_eq!(classify_entry(false, Some("")), EntryKind::Other);
    assert_eq!(classify_entry(false, Some("h\u{212a}ml")), EntryKind::Other);
    assert_eq!(classify_entry(false, None), EntryKind::Other);
    assert_eq!(classify_entry(true, None), EntryKind::Directory);
    assert_eq!(classify_entry(true, Some("html")), EntryKind::Directory);
}

#[test]
fn case_is_ignored_for_ascii_letters_only() {
    assert_eq!(to_ascii_lower('A'), 'a');
    assert_eq!(to_ascii_lower('Z'), 'z');
    assert_eq!(to_ascii_lower('a'), 'a');
    assert_eq!(to_ascii_lower('@'), '@');
    assert_eq!(to_ascii_lower('['), '[');
    assert_eq!(to_ascii_lower('É'), 'É');
    let a: Vec<char> = "HtMl".chars().collect();
    let b: Vec<char> = "hTmL".chars().collect();
    let c: Vec<char> = "htm".chars().collect();
    assert!(eq_ignore_ascii_case(&a, &b));
    assert!(!eq_ignore_ascii_case(&a, &c));
    assert!(eq_ignore_ascii_case(&vec![], &vec![]));
    assert!(!eq_ignore_ascii_case(&vec!['É'], &vec!['é']));
}

#[test]
fn scan_follows_the_listing_and_numbers_the_posts() {
    let root = SourceEntry::Directory(vec![
        page("Zeta", 30),
        SourceEntry::Other,
        SourceEntry::Directory(vec![
            page("Inner One", 10),
            SourceEntry::Directory(vec![]),
            SourceEntry::Directory(vec![page("Deep", 5)]),
            page("Inner Two", 20),
        ]),
        page("Alpha", 40),
    ]);
    let posts = get_all_posts(&root).unwrap();
    let titles: Vec<&str> = posts.iter().map(|p| p.metadata.title.as_str()).collect();
    assert_eq!(titles, vec!["Zeta", "Inner One", "Deep", "Inner Two", "Alpha"]);
    let ids: Vec<u32> = posts.iter().map(|p| p.id).collect();
    assert_eq!(ids, vec![0, 1, 2, 3, 4]);
    assert_eq!(posts[2].creation_datetime, Timestamp { secs: 5, nanos: 7 });
    assert_eq!(posts[2].body, "<p>Deep</p>");
    assert_eq!(posts[3].metadata.normalised_title, "inner_two");
}

#[test]
fn scan_passes_over_what_is_no_document() {
    let root = SourceEntry::Directory(vec![SourceEntry::Other, SourceEntry::Other]);
    assert_eq!(get_all_posts(&root), Ok(vec![]));
}

#[test]
fn one_bad_document_fails_the_whole_scan() {
    let root = SourceEntry::Directory(vec![
        page("Good", 1),
        SourceEntry::Directory(vec![page("Also Good", 2), untitled()]),
        page("Never Reached", 3),
    ]);
    assert_eq!(get_all_posts(&root), Err(ScanError::Parse(ParseError::MissingTitle)));
}

#[test]
fn the_first_failure_is_the_one_reported() {
    let unreadable_first = SourceEntry::Directory(vec![
        SourceEntry::Unreadable("permission denied".to_string()),
        untitled(),
    ]);
    assert_eq!(
        get_all_posts(&unreadable_first),
        Err(ScanError::Io("permission denied".to_string()))
    );
    let untitled_first = SourceEntry::Directory(vec![
        untitled(),
        SourceEntry::Unreadable("permission denied".to_string()),
    ]);
    assert_eq!(
        get_all_posts(&untitled_first),
        Err(ScanError::Parse(ParseError::MissingTitle))
    );
}

#[test]
fn a_root_that_is_no_directory_is_refused() {
    assert_eq!(get_all_posts(&SourceEntry::Other), Err(ScanError::NotADirectory));
    assert_eq!(get_all_posts(&page("Lonely", 1)), Err(ScanError::NotADirectory));
}

#[test]
fn a_root_that_cannot_be_listed_is_an_io_failure() {
    let root = SourceEntry::Unreadable("no such device".to_string());
    assert_eq!(get_all_posts(&root), Err(ScanError::Io("no such device".to_string())));
}

#[test]
fn small_trees_have_a_number_for_every_post() {
    assert!(can_number_posts(&SourceEntry::Other));
    assert!(can_number_posts(&SourceEntry::Directory(vec![])));
    let root = SourceEntry::Directory(vec![
        page("One", 1),
        SourceEntry::Directory(vec![untitled(), SourceEntry::Unreadable("gone".to_string())]),
    ]);
    assert!(can_number_posts(&root));
}

#[test]
fn a_parsed_document_becomes_the_next_post() {
    let mut posts: Vec<Post> = vec![];
    let first = Timestamp { secs: 11, nanos: 1 };
    let second = Timestamp { secs: 22, nanos: 2 };
    let parsed = |title: &str| Ok(("body".to_string(), PostMetadata::new(title.to_string(), vec![])));
    assert_eq!(add_post(&mut posts, first, parsed("A")), Ok(()));
    assert_eq!(add_post(&mut posts, second, parsed("B")), Ok(()));
    assert_eq!(
        posts,
        vec![
            Post {
                id: 0,
                creation_datetime: first,
                body: "body".to_string(),
                metadata: PostMetadata::new("A".to_string(), vec![]),
            },
            Post {
                id: 1,
                creation_datetime: second,
                body: "body".to_string(),
                metadata: PostMetadata::new("B".to_string(), vec![]),
            },
        ]
    );
    assert_eq!(
        add_post(&mut posts, first, Err(ParseError::MalformedMarkup)),
        Err(ScanError::Parse(ParseError::MalformedMarkup))
    );
    assert_eq!(posts.len(), 2);
}
