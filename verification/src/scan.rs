//! The scan of a source tree: which entries are documents, and the posts
//! that a tree yields.

use vstd::prelude::*;
use crate::posts::{
    parse_post, parsed_post, ParseError, Post, PostContentsView, PostMetadata, PostView,
    Timestamp,
};
use crate::text::to_chars;

verus! {

/// A document as it was read: when its file was created, and its text.
#[derive(Debug, PartialEq, Eq)]
pub struct SourceDocument {
    pub created: Timestamp,
    pub text: String,
}

/// One entry of a source tree, as it was found when the tree was read.
#[derive(Debug, PartialEq, Eq)]
pub enum SourceEntry {
    /// A directory, with its entries in the order of its listing.
    Directory(Vec<SourceEntry>),
    /// A file that `classify_entry` takes for a document.
    Document(SourceDocument),
    /// Anything else: a file that is no document, or a path at which there
    /// is nothing.
    Other,
    /// A directory that could not be listed or a document that could not be
    /// read, with the reason.
    Unreadable(String),
}

/// What the scan does with an entry of a directory.
#[derive(Clone, Copy, Debug, PartialEq, Eq)]
pub enum EntryKind {
    /// It is scanned in turn.
    Directory,
    /// It is read and parsed.
    Document,
    /// It is passed over.
    Other,
}

/// Why a scan gave no posts.
#[derive(Debug, PartialEq, Eq)]
pub enum ScanError {
    /// The root of the scan is no directory.
    NotADirectory,
    /// An entry could not be read.
    Io(String),
    /// A document is no post.
    Parse(ParseError),
}

/// The mathematical value of a `ScanError`.
pub enum ScanFailure {
    NotADirectory,
    Io(Seq<char>),
    Parse(ParseError),
}

impl View for ScanError {
    type V = ScanFailure;

    open spec fn view(&self) -> ScanFailure {
        match self {
            ScanError::NotADirectory => ScanFailure::NotADirectory,
            ScanError::Io(message) => ScanFailure::Io(message@),
            ScanError::Parse(e) => ScanFailure::Parse(*e),
        }
    }
}

/// The lower-case form of an ASCII capital; any other character unchanged.
pub open spec fn ascii_lower(c: char) -> char {
    if 'A' <= c <= 'Z' {
        ((c as u8) + 32) as char
    } else {
        c
    }
}

/// The two strings are equal but for the case of their ASCII letters.
pub open spec fn equal_ignoring_ascii_case(a: Seq<char>, b: Seq<char>) -> bool {
    a.len() == b.len() && forall|i: int|
        0 <= i < a.len() ==> ascii_lower(#[trigger] a[i]) == ascii_lower(b[i])
}

/// The extension of a document: `html` or `htm`, in any case.
pub open spec fn is_document_extension(extension: Seq<char>) -> bool {
    equal_ignoring_ascii_case(extension, seq!['h', 't', 'm', 'l']) || equal_ignoring_ascii_case(
        extension,
        seq!['h', 't', 'm'],
    )
}

/// The kind of an entry: a directory whatever its name, else a document by
/// its extension, else neither.
pub open spec fn entry_kind(is_dir: bool, extension: Option<Seq<char>>) -> EntryKind {
    if is_dir {
        EntryKind::Directory
    } else {
        match extension {
            Some(e) => if is_document_extension(e) {
                EntryKind::Document
            } else {
                EntryKind::Other
            },
            None => EntryKind::Other,
        }
    }
}

/// The view of an extension that may be absent.
pub open spec fn extension_view(extension: Option<&str>) -> Option<Seq<char>> {
    match extension {
        Some(e) => Some(e@),
        None => None,
    }
}

/// Lower-cases an ASCII capital.
pub fn to_ascii_lower(c: char) -> (lower: char)
    ensures
        lower == ascii_lower(c),
{
    if 'A' <= c && c <= 'Z' {
        ((c as u8) + 32) as char
    } else {
        c
    }
}

/// Compares two strings without regard to the case of ASCII letters.
pub fn eq_ignore_ascii_case(a: &Vec<char>, b: &Vec<char>) -> (same: bool)
    ensures
        same == equal_ignoring_ascii_case(a@, b@),
{
    if a.len() != b.len() {
        return false;
    }
    let mut i: usize = 0;
    while i < a.len()
        invariant
            i <= a.len() == b.len(),
            forall|j: int| 0 <= j < i ==> ascii_lower(#[trigger] a@[j]) == ascii_lower(b@[j]),
        decreases a.len() - i,
    {
        if to_ascii_lower(a[i]) != to_ascii_lower(b[i]) {
            return false;
        }
        i += 1;
    }
    true
}

/// Decides what the scan does with an entry of a directory, from whether it
/// is a directory and from the extension of its name, if it has one.
pub fn classify_entry(is_dir: bool, extension: Option<&str>) -> (kind: EntryKind)
    ensures
        kind == entry_kind(is_dir, extension_view(extension)),
{
    if is_dir {
        return EntryKind::Directory;
    }
    match extension {
        Some(e) => {
            let chars = to_chars(e);
            let html: Vec<char> = vec!['h', 't', 'm', 'l'];
            let htm: Vec<char> = vec!['h', 't', 'm'];
            assert(html@ == seq!['h', 't', 'm', 'l']);
            assert(htm@ == seq!['h', 't', 'm']);
            if eq_ignore_ascii_case(&chars, &html) || eq_ignore_ascii_case(&chars, &htm) {
                EntryKind::Document
            } else {
                EntryKind::Other
            }
        },
        None => EntryKind::Other,
    }
}

/// What a scan meets on its way through a tree.
pub enum ScanItem {
    /// A document, with its creation time and its text.
    Document(Timestamp, Seq<char>),
    /// An entry that could not be read, with the reason.
    Failure(Seq<char>),
}

/// What the scan of an entry meets, in order: a directory gives what its
/// entries give, one after the other.
pub open spec fn items(entry: SourceEntry) -> Seq<ScanItem>
    decreases entry,
{
    match entry {
        SourceEntry::Directory(entries) => items_of(entries@),
        SourceEntry::Document(document) => seq![
            ScanItem::Document(document.created, document.text@),
        ],
        SourceEntry::Other => Seq::empty(),
        SourceEntry::Unreadable(message) => seq![ScanItem::Failure(message@)],
    }
}

/// What the scan of a list of entries meets, in order.
pub open spec fn items_of(entries: Seq<SourceEntry>) -> Seq<ScanItem>
    decreases entries,
{
    if entries.len() == 0 {
        Seq::empty()
    } else {
        items_of(entries.drop_last()) + items(entries.last())
    }
}

/// Whether the scan stops at this item.
pub open spec fn fails(item: ScanItem) -> bool {
    match item {
        ScanItem::Document(_, text) => parsed_post(text) is Err,
        ScanItem::Failure(_) => true,
    }
}

/// The posts after one more document: a parsed document adds its post at
/// the end, numbered by its place; one that did not parse fails the scan.
pub open spec fn added(
    posts: Seq<PostView>,
    created: Timestamp,
    parsed: Result<PostContentsView, ParseError>,
) -> Result<Seq<PostView>, ScanFailure> {
    match parsed {
        Ok(contents) => Ok(
            posts.push(
                PostView {
                    id: posts.len(),
                    creation_datetime: created,
                    body: contents.body,
                    metadata: contents.metadata,
                },
            ),
        ),
        Err(e) => Err(ScanFailure::Parse(e)),
    }
}

/// The view of what parsing a document gave.
pub open spec fn parsed_view(parsed: Result<(String, PostMetadata), ParseError>) -> Result<
    PostContentsView,
    ParseError,
> {
    match parsed {
        Ok((body, metadata)) => Ok(PostContentsView { metadata: metadata@, body: body@ }),
        Err(e) => Err(e),
    }
}

/// The posts after the scan has gone through `found`, starting with
/// `posts`: each document adds its post, numbered by its place among the
/// posts; the first item at which the scan stops gives the error.
pub open spec fn gathered(posts: Seq<PostView>, found: Seq<ScanItem>) -> Result<
    Seq<PostView>,
    ScanFailure,
>
    decreases found.len(),
{
    if found.len() == 0 {
        Ok(posts)
    } else {
        match gathered(posts, found.drop_last()) {
            Err(e) => Err(e),
            Ok(before) => match found.last() {
                ScanItem::Failure(message) => Err(ScanFailure::Io(message)),
                ScanItem::Document(created, text) => added(before, created, parsed_post(text)),
            },
        }
    }
}

/// The result of scanning from `root`: the posts of the tree if the root is
/// a directory and the scan stops nowhere.
pub open spec fn scanned(root: SourceEntry) -> Result<Seq<PostView>, ScanFailure> {
    match root {
        SourceEntry::Directory(entries) => gathered(Seq::empty(), items_of(entries@)),
        SourceEntry::Unreadable(message) => Err(ScanFailure::Io(message@)),
        _ => Err(ScanFailure::NotADirectory),
    }
}

/// `post` is the post that the document `item` gives at place `place` of a
/// scan.
pub open spec fn is_post_of(post: PostView, item: ScanItem, place: int) -> bool {
    match item {
        ScanItem::Document(created, text) => post.id == place && post.creation_datetime
            == created && parsed_post(text) == Ok::<_, ParseError>(
            PostContentsView { metadata: post.metadata, body: post.body },
        ),
        ScanItem::Failure(_) => false,
    }
}

/// The views of the posts in `posts`.
pub open spec fn post_views(posts: Seq<Post>) -> Seq<PostView> {
    posts.map_values(|post: Post| post@)
}

/// Going through two runs of items one after the other is going through
/// their concatenation.
pub proof fn lemma_gathered_concat(posts: Seq<PostView>, a: Seq<ScanItem>, b: Seq<ScanItem>)
    ensures
        gathered(posts, a + b) == match gathered(posts, a) {
            Ok(before) => gathered(before, b),
            Err(e) => Err(e),
        },
    decreases b.len(),
{
    if b.len() == 0 {
        assert(a + b == a);
    } else {
        assert((a + b).drop_last() == a + b.drop_last());
        assert((a + b).last() == b.last());
        lemma_gathered_concat(posts, a, b.drop_last());
    }
}

/// A scan is all or nothing. It succeeds exactly when it stops at no item;
/// then every item has its post, at its own place, numbered by that place.
/// One document that does not parse, or one unreadable entry, anywhere in
/// the tree, fails the whole scan.
pub proof fn lemma_scan_all_or_nothing(found: Seq<ScanItem>)
    ensures
        gathered(Seq::empty(), found) is Ok <==> forall|i: int|
            0 <= i < found.len() ==> !fails(#[trigger] found[i]),
        gathered(Seq::empty(), found) matches Ok(posts) ==> posts.len() == found.len()
            && forall|i: int| 0 <= i < found.len() ==> is_post_of(#[trigger] posts[i], found[i], i),
    decreases found.len(),
{
    if found.len() > 0 {
        let front = found.drop_last();
        lemma_scan_all_or_nothing(front);
        if gathered(Seq::empty(), found) is Ok {
            assert forall|i: int| 0 <= i < found.len() implies !fails(#[trigger] found[i]) by {
                if i < front.len() {
                    assert(front[i] == found[i]);
                }
            }
        } else if gathered(Seq::empty(), front) is Err {
            let i = choose|i: int| 0 <= i < front.len() && fails(#[trigger] front[i]);
            assert(fails(found[i]));
        } else {
            assert(fails(found[found.len() - 1]));
        }
        if let Ok(posts) = gathered(Seq::empty(), found) {
            let before = gathered(Seq::empty(), front)->Ok_0;
            assert forall|i: int| 0 <= i < found.len() implies is_post_of(
                #[trigger] posts[i],
                found[i],
                i,
            ) by {
                if i < front.len() {
                    assert(posts[i] == before[i]);
                    assert(front[i] == found[i]);
                }
            }
        }
    }
}

/// The error that the scan gives when it stops at `item`.
pub open spec fn failure_of(item: ScanItem) -> ScanFailure {
    match item {
        ScanItem::Document(_, text) => ScanFailure::Parse(parsed_post(text)->Err_0),
        ScanItem::Failure(message) => ScanFailure::Io(message),
    }
}

/// The scan reports the first item at which it stops, whatever follows it.
pub proof fn lemma_first_failure_is_reported(found: Seq<ScanItem>, i: int)
    requires
        0 <= i < found.len(),
        fails(found[i]),
        forall|j: int| 0 <= j < i ==> !fails(#[trigger] found[j]),
    ensures
        gathered(Seq::empty(), found) == Err::<Seq<PostView>, _>(failure_of(found[i])),
{
    let sound = found.take(i);
    let upto = found.take(i + 1);
    assert forall|j: int| 0 <= j < sound.len() implies !fails(#[trigger] sound[j]) by {
        assert(sound[j] == found[j]);
    }
    lemma_scan_all_or_nothing(sound);
    assert(upto.drop_last() == sound);
    assert(upto.last() == found[i]);
    lemma_gathered_prefix_fails(Seq::empty(), upto, found);
}

/// One document that does not parse, or one entry that could not be read,
/// wherever it stands in the tree, fails the scan from the root of the tree:
/// no posts come back.
pub proof fn lemma_one_failure_fails_scan(root: SourceEntry, i: int)
    requires
        0 <= i < items(root).len(),
        fails(items(root)[i]),
    ensures
        scanned(root) is Err,
{
    if root is Directory {
        lemma_scan_all_or_nothing(items(root));
    }
}

/// A scan from a directory in which nothing fails gives one post for each
/// document of the tree, in the order of the scan.
pub proof fn lemma_sound_tree_scans(root: SourceEntry)
    requires
        root is Directory,
        forall|i: int| 0 <= i < items(root).len() ==> !fails(#[trigger] items(root)[i]),
    ensures
        scanned(root) matches Ok(posts) && posts.len() == items(root).len() && forall|i: int|
            0 <= i < posts.len() ==> is_post_of(#[trigger] posts[i], items(root)[i], i),
{
    lemma_scan_all_or_nothing(items(root));
}

/// A prefix of a list of entries gives no more items than the list.
proof fn lemma_items_of_prefix(entries: Seq<SourceEntry>, k: int)
    requires
        0 <= k <= entries.len(),
    ensures
        items_of(entries.take(k)).len() <= items_of(entries).len(),
        k < entries.len() ==> items_of(entries.take(k + 1)) == items_of(entries.take(k)) + items(
            entries[k],
        ),
    decreases entries.len() - k,
{
    if k < entries.len() {
        assert(entries.take(k + 1).drop_last() == entries.take(k));
        assert(entries.take(k + 1).last() == entries[k]);
        lemma_items_of_prefix(entries, k + 1);
    } else {
        assert(entries.take(k) == entries);
    }
}

/// Takes what parsing a document gave into the posts of a scan: its post is
/// added at the end, numbered by its place; a document that did not parse
/// fails the scan and leaves the posts as they were.
pub fn add_post(
    posts: &mut Vec<Post>,
    created: Timestamp,
    parsed: Result<(String, PostMetadata), ParseError>,
) -> (done: Result<(), ScanError>)
    requires
        old(posts).len() <= u32::MAX,
    ensures
        match done {
            Ok(_) => added(post_views(old(posts)@), created, parsed_view(parsed)) == Ok::<
                _,
                ScanFailure,
            >(post_views(final(posts)@)),
            Err(e) => added(post_views(old(posts)@), created, parsed_view(parsed)) == Err::<
                Seq<PostView>,
                _,
            >(e@) && final(posts)@ == old(posts)@,
        },
{
    match parsed {
        Ok((body, metadata)) => {
            let id = posts.len() as u32;
            let post = Post { id, creation_datetime: created, body, metadata };
            proof {
                assert(post_views(posts@.push(post)) == post_views(posts@).push(post@));
            }
            posts.push(post);
            Ok(())
        },
        Err(e) => Err(ScanError::Parse(e)),
    }
}

/// Scans one entry, adding its posts to `posts`.
fn scan_into(entry: &SourceEntry, posts: &mut Vec<Post>) -> (done: Result<(), ScanError>)
    requires
        old(posts).len() + items(*entry).len() <= u32::MAX,
    ensures
        match done {
            Ok(_) => gathered(post_views(old(posts)@), items(*entry)) == Ok::<_, ScanFailure>(
                post_views(final(posts)@),
            ),
            Err(e) => gathered(post_views(old(posts)@), items(*entry)) == Err::<Seq<PostView>, _>(
                e@,
            ),
        },
    decreases entry,
{
    match entry {
        SourceEntry::Directory(entries) => {
            let mut i: usize = 0;
            proof {
                assert(entries@.take(0).len() == 0);
            }
            while i < entries.len()
                invariant
                    i <= entries.len(),
                    *entry == SourceEntry::Directory(*entries),
                    old(posts).len() + items_of(entries@).len() <= u32::MAX,
                    gathered(post_views(old(posts)@), items_of(entries@.take(i as int))) == Ok::<
                        _,
                        ScanFailure,
                    >(post_views(posts@)),
                decreases entries.len() - i,
            {
                proof {
                    lemma_items_of_prefix(entries@, i as int);
                    lemma_items_of_prefix(entries@, i + 1);
                    lemma_gathered_len(post_views(old(posts)@), items_of(entries@.take(i as int)));
                    lemma_gathered_concat(
                        post_views(old(posts)@),
                        items_of(entries@.take(i as int)),
                        items(entries@[i as int]),
                    );
                    lemma_items_of_is_prefix(entries@, i + 1);
                    lemma_gathered_prefix_fails(
                        post_views(old(posts)@),
                        items_of(entries@.take(i + 1)),
                        items_of(entries@),
                    );
                }
                match scan_into(&entries[i], posts) {
                    Ok(_) => {},
                    Err(e) => {
                        return Err(e);
                    },
                }
                i += 1;
            }
            proof {
                assert(entries@.take(entries.len() as int) == entries@);
                assert(items(*entry) == items_of(entries@));
            }
            Ok(())
        },
        SourceEntry::Document(document) => {
            proof {
                let found = items(*entry);
                assert(found.drop_last().len() == 0);
                assert(found.last() == ScanItem::Document(document.created, document.text@));
                assert(gathered(post_views(posts@), found.drop_last()) == Ok::<_, ScanFailure>(
                    post_views(posts@),
                ));
            }
            add_post(posts, document.created, parse_post(document.text.as_str()))
        },
        SourceEntry::Other => Ok(()),
        SourceEntry::Unreadable(message) => {
            proof {
                let found = items(*entry);
                assert(found.drop_last().len() == 0);
                assert(found.last() == ScanItem::Failure(message@));
                assert(gathered(post_views(posts@), found.drop_last()) == Ok::<_, ScanFailure>(
                    post_views(posts@),
                ));
            }
            Err(ScanError::Io(message.clone()))
        },
    }
}

/// A successful scan adds one post for each item.
proof fn lemma_gathered_len(posts: Seq<PostView>, found: Seq<ScanItem>)
    ensures
        gathered(posts, found) matches Ok(after) ==> after.len() == posts.len() + found.len(),
    decreases found.len(),
{
    if found.len() > 0 {
        lemma_gathered_len(posts, found.drop_last());
    }
}

/// The items of a prefix of the entries are a prefix of the items.
proof fn lemma_items_of_is_prefix(entries: Seq<SourceEntry>, k: int)
    requires
        0 <= k <= entries.len(),
    ensures
        items_of(entries.take(k)).is_prefix_of(items_of(entries)),
    decreases entries.len() - k,
{
    if k < entries.len() {
        lemma_items_of_prefix(entries, k);
        lemma_items_of_is_prefix(entries, k + 1);
    } else {
        assert(entries.take(k) == entries);
    }
}

/// A scan that stops within a prefix of the items stops there with the same
/// error whatever follows.
proof fn lemma_gathered_prefix_fails(posts: Seq<PostView>, a: Seq<ScanItem>, all: Seq<ScanItem>)
    requires
        a.is_prefix_of(all),
    ensures
        gathered(posts, a) is Err ==> gathered(posts, all) == gathered(posts, a),
{
    let b = all.skip(a.len() as int);
    assert(all == a + b);
    lemma_gathered_concat(posts, a, b);
}

/// Adds the number of items of `entry` to `count`, as long as the sum is a
/// post number.
fn count_onto(entry: &SourceEntry, count: u32) -> (total: Option<u32>)
    ensures
        match total {
            Some(n) => n == count + items(*entry).len(),
            None => count + items(*entry).len() > u32::MAX,
        },
    decreases entry,
{
    match entry {
        SourceEntry::Directory(entries) => {
            let mut total: u32 = count;
            let mut i: usize = 0;
            proof {
                assert(entries@.take(0).len() == 0);
            }
            while i < entries.len()
                invariant
                    i <= entries.len(),
                    *entry == SourceEntry::Directory(*entries),
                    total == count + items_of(entries@.take(i as int)).len(),
                decreases entries.len() - i,
            {
                proof {
                    lemma_items_of_prefix(entries@, i as int);
                    lemma_items_of_prefix(entries@, i + 1);
                    assert(entry->Directory_0 == *entries);
                }
                match count_onto(&entries[i], total) {
                    Some(n) => {
                        total = n;
                    },
                    None => {
                        return None;
                    },
                }
                i += 1;
            }
            proof {
                assert(entries@.take(entries.len() as int) == entries@);
            }
            Some(total)
        },
        SourceEntry::Other => Some(count),
        _ => if count < u32::MAX {
            Some(count + 1)
        } else {
            None
        },
    }
}

/// Whether a scan from `root` has a number for every post: whether the tree
/// holds no more items than there are post numbers.
pub fn can_number_posts(root: &SourceEntry) -> (fits: bool)
    ensures
        fits == (items(*root).len() <= u32::MAX),
{
    count_onto(root, 0).is_some()
}

/// All posts under `root`, in the order in which the scan meets their
/// documents: the entries of a directory in the order of its listing, each
/// directory in full where it stands. Each post is numbered by its place in
/// the result. A root that is no directory is refused; the first document
/// that does not parse, or entry that could not be read, fails the scan,
/// and no post is returned then. The tree must hold no more items than there
/// are post numbers, which `can_number_posts` tells.
pub fn get_all_posts(root: &SourceEntry) -> (scan: Result<Vec<Post>, ScanError>)
    requires
        items(*root).len() <= u32::MAX,
    ensures
        match scan {
            Ok(posts) => scanned(*root) == Ok::<_, ScanFailure>(post_views(posts@)),
            Err(e) => scanned(*root) == Err::<Seq<PostView>, _>(e@),
        },
{
    match root {
        SourceEntry::Directory(_) => {
            let mut posts: Vec<Post> = Vec::new();
            assert(post_views(posts@) == Seq::<PostView>::empty());
            match scan_into(root, &mut posts) {
                Ok(_) => Ok(posts),
                Err(e) => Err(e),
            }
        },
        SourceEntry::Unreadable(message) => Err(ScanError::Io(message.clone())),
        _ => Err(ScanError::NotADirectory),
    }
}

} // verus!
