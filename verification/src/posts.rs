//! Posts, and the parser that reads one from a document.

use vstd::prelude::*;
use vstd::utf8::{decode_utf8, valid_utf8, valid_utf8_concat};
use crate::markup::{
    child_nodes, children, first_selected, fits_parser, nests_within, parse_html, parsed_tree,
    select, select_first, selection, serialization, serialize_into, text_contents, text_of,
    NESTING_LIMIT,
};
use crate::slug::{normalise_title_for_url, normalized};
use crate::text::{trim, trimmed};

verus! {

/// A point in time: seconds since the Unix epoch, and the nanoseconds past
/// that second.
#[derive(Clone, Copy, Debug, PartialEq, Eq)]
pub struct Timestamp {
    pub secs: i64,
    pub nanos: u32,
}

/// What a document says of its post besides the body.
#[derive(Debug, PartialEq, Eq)]
pub struct PostMetadata {
    pub title: String,
    pub normalised_title: String,
    pub tags: Vec<String>,
}

/// A parsed document: metadata and body.
#[derive(Debug, PartialEq, Eq)]
pub struct PostContents {
    pub metadata: PostMetadata,
    pub body: String,
}

/// One post of a scan.
#[derive(Debug, PartialEq, Eq)]
pub struct Post {
    pub id: u32,
    pub creation_datetime: Timestamp,
    pub body: String,
    pub metadata: PostMetadata,
}

/// Why a document is no post.
#[derive(Clone, Copy, Debug, PartialEq, Eq)]
pub enum ParseError {
    /// The document has no `title` element.
    MissingTitle,
    /// The markup cannot be taken: the text is longer than the parser
    /// takes, the body is nested deeper than the serializer takes, or what
    /// was handed in as the serialized body is no UTF-8.
    MalformedMarkup,
}

/// The mathematical value of a `PostMetadata`.
pub struct PostMetadataView {
    pub title: Seq<char>,
    pub normalised_title: Seq<char>,
    pub tags: Seq<Seq<char>>,
}

/// The mathematical value of a `PostContents`.
pub struct PostContentsView {
    pub metadata: PostMetadataView,
    pub body: Seq<char>,
}

/// The mathematical value of a `Post`.
pub struct PostView {
    pub id: nat,
    pub creation_datetime: Timestamp,
    pub body: Seq<char>,
    pub metadata: PostMetadataView,
}

/// The views of the strings in `strings`.
pub open spec fn texts(strings: Seq<String>) -> Seq<Seq<char>> {
    strings.map_values(|s: String| s@)
}

impl PostMetadataView {
    /// The slug is the one that the title determines.
    pub open spec fn well_formed(self) -> bool {
        self.normalised_title == normalized(self.title)
    }
}

impl View for PostMetadata {
    type V = PostMetadataView;

    open spec fn view(&self) -> PostMetadataView {
        PostMetadataView {
            title: self.title@,
            normalised_title: self.normalised_title@,
            tags: texts(self.tags@),
        }
    }
}

impl View for PostContents {
    type V = PostContentsView;

    open spec fn view(&self) -> PostContentsView {
        PostContentsView { metadata: self.metadata@, body: self.body@ }
    }
}

impl View for Post {
    type V = PostView;

    open spec fn view(&self) -> PostView {
        PostView {
            id: self.id as nat,
            creation_datetime: self.creation_datetime,
            body: self.body@,
            metadata: self.metadata@,
        }
    }
}

impl PostMetadata {
    /// The metadata of a post with this title and these tags; the slug is
    /// derived from the title.
    pub fn new(title: String, tags: Vec<String>) -> (metadata: PostMetadata)
        ensures
            metadata@ == (PostMetadataView {
                title: title@,
                normalised_title: normalized(title@),
                tags: texts(tags@),
            }),
            metadata@.well_formed(),
    {
        let normalised_title = normalise_title_for_url(title.as_str());
        PostMetadata { normalised_title, title, tags }
    }
}

/// The text of the first `title` element of the document, if it has one.
pub open spec fn document_title(text: Seq<char>) -> Option<Seq<char>> {
    match first_selected(parsed_tree(text), "title"@) {
        Some(node) => Some(text_contents(node)),
        None => None,
    }
}

/// The texts of the `tag` elements of the document, in document order.
pub open spec fn document_tags(text: Seq<char>) -> Seq<Seq<char>> {
    match selection(parsed_tree(text), "tag"@) {
        Some(nodes) => nodes.map_values(|node: kuchiki::NodeRef| text_contents(node)),
        None => Seq::empty(),
    }
}

/// The serialized nodes, one after the other.
pub open spec fn markup_of(nodes: Seq<kuchiki::NodeRef>) -> Seq<u8>
    decreases nodes.len(),
{
    if nodes.len() == 0 {
        Seq::empty()
    } else {
        markup_of(nodes.drop_last()) + serialization(nodes.last())
    }
}

/// Whether each of the nodes can be serialized: whether nothing below it is
/// nested deeper than `NESTING_LIMIT` levels.
pub open spec fn all_shallow(nodes: Seq<kuchiki::NodeRef>) -> bool {
    forall|i: int| 0 <= i < nodes.len() ==> nests_within(#[trigger] nodes[i], NESTING_LIMIT as nat)
}

/// What a document holds as its body.
pub enum BodyMarkup {
    /// There is no `contents` element.
    Absent,
    /// The children of the first `contents` element, serialized.
    Written(Seq<u8>),
    /// A child of the first `contents` element is nested too deep to be
    /// serialized.
    TooDeep,
}

/// The body markup of the document.
pub open spec fn document_markup(text: Seq<char>) -> BodyMarkup {
    match first_selected(parsed_tree(text), "contents"@) {
        Some(node) => if all_shallow(child_nodes(node)) {
            BodyMarkup::Written(markup_of(child_nodes(node)))
        } else {
            BodyMarkup::TooDeep
        },
        None => BodyMarkup::Absent,
    }
}

/// The post made of a title, tags and the serialized body markup, if there
/// is any: the body is the markup as text, trimmed, and empty without
/// markup; markup that is not UTF-8 makes no post.
pub open spec fn composed(
    title: Seq<char>,
    tags: Seq<Seq<char>>,
    markup: Option<Seq<u8>>,
) -> Result<PostContentsView, ParseError> {
    let metadata = PostMetadataView { title, normalised_title: normalized(title), tags };
    match markup {
        None => Ok(PostContentsView { metadata, body: Seq::empty() }),
        Some(bytes) => if valid_utf8(bytes) {
            Ok(PostContentsView { metadata, body: trimmed(decode_utf8(bytes)) })
        } else {
            Err(ParseError::MalformedMarkup)
        },
    }
}

/// What parsing the document gives: the post, or the reason why there is
/// none. A text too long for the parser is refused as malformed before
/// anything else; then a missing title comes before any fault of the body.
pub open spec fn parsed_post(text: Seq<char>) -> Result<PostContentsView, ParseError> {
    if !fits_parser(text) {
        Err(ParseError::MalformedMarkup)
    } else {
        match document_title(text) {
            None => Err(ParseError::MissingTitle),
            Some(title) => match document_markup(text) {
                BodyMarkup::Absent => composed(title, document_tags(text), None),
                BodyMarkup::Written(bytes) => composed(title, document_tags(text), Some(bytes)),
                BodyMarkup::TooDeep => Err(ParseError::MalformedMarkup),
            },
        }
    }
}

/// The document can be taken: the parser takes its text, and its body, if
/// it has one, is nested no deeper than the serializer takes.
pub open spec fn is_taken(text: Seq<char>) -> bool {
    fits_parser(text) && !(document_markup(text) is TooDeep)
}

/// The body markup of the document can be read as text: there is none, or
/// it is UTF-8.
pub open spec fn body_is_text(text: Seq<char>) -> bool {
    match document_markup(text) {
        BodyMarkup::Absent => true,
        BodyMarkup::Written(bytes) => valid_utf8(bytes),
        BodyMarkup::TooDeep => false,
    }
}

/// A document that the parser takes and whose body can be read as text
/// parses if and only if it has a `title` element.
pub proof fn lemma_parse_succeeds_iff_title(text: Seq<char>)
    requires
        fits_parser(text),
        body_is_text(text),
    ensures
        parsed_post(text) is Ok <==> document_title(text) is Some,
{
}

/// Tags and contents are optional. A document with a title and without a
/// `contents` element parses, with an empty body; one with a title and
/// without `tag` elements parses as soon as its body can be read as text,
/// with no tags.
pub proof fn lemma_tags_and_contents_are_optional(text: Seq<char>)
    requires
        fits_parser(text),
        document_title(text) is Some,
    ensures
        document_markup(text) is Absent ==> parsed_post(text) is Ok && parsed_post(
            text,
        )->Ok_0.body.len() == 0,
        document_tags(text).len() == 0 && body_is_text(text) ==> parsed_post(text) is Ok
            && parsed_post(text)->Ok_0.metadata.tags.len() == 0,
{
}

/// Every parsed post has the slug that its title determines.
pub proof fn lemma_parsed_post_is_well_formed(text: Seq<char>)
    ensures
        parsed_post(text) matches Ok(post) ==> post.metadata.well_formed(),
{
}

/// The view of serialized markup that may be absent.
pub open spec fn markup_view(markup: Option<Vec<u8>>) -> Option<Seq<u8>> {
    match markup {
        Some(bytes) => Some(bytes@),
        None => None,
    }
}

/// Puts a post together from what its document gave: the title, the tags,
/// and the serialized body markup if there was any.
pub fn compose_post(
    title: String,
    tags: Vec<String>,
    markup: Option<Vec<u8>>,
) -> (post: Result<PostContents, ParseError>)
    ensures
        match post {
            Ok(contents) => composed(title@, texts(tags@), markup_view(markup)) == Ok::<
                _,
                ParseError,
            >(contents@),
            Err(e) => composed(title@, texts(tags@), markup_view(markup)) == Err::<
                PostContentsView,
                _,
            >(e),
        },
{
    let body = match markup {
        Some(bytes) => match String::from_utf8(bytes) {
            Ok(text) => trim(text.as_str()),
            Err(_) => {
                return Err(ParseError::MalformedMarkup);
            },
        },
        None => String::new(),
    };
    Ok(PostContents { metadata: PostMetadata::new(title, tags), body })
}

/// The text of each node, in order.
fn texts_of(nodes: &Vec<kuchiki::NodeRef>) -> (found: Vec<String>)
    ensures
        texts(found@) == nodes@.map_values(|node: kuchiki::NodeRef| text_contents(node)),
{
    let mut found: Vec<String> = Vec::new();
    let mut i: usize = 0;
    while i < nodes.len()
        invariant
            i <= nodes.len(),
            texts(found@) == nodes@.take(i as int).map_values(
                |node: kuchiki::NodeRef| text_contents(node),
            ),
        decreases nodes.len() - i,
    {
        let text = text_of(&nodes[i]);
        proof {
            let f = |node: kuchiki::NodeRef| text_contents(node);
            assert(nodes@.take(i + 1) == nodes@.take(i as int).push(nodes@[i as int]));
            assert(nodes@.take(i + 1).map_values(f) == nodes@.take(i as int).map_values(f).push(
                text@,
            ));
            assert(texts(found@.push(text)) == texts(found@).push(text@));
        }
        found.push(text);
        i += 1;
    }
    proof {
        assert(nodes@.take(nodes.len() as int) == nodes@);
    }
    found
}

/// Tells whether nothing below `node` is nested more than `levels` levels
/// deep.
fn is_shallow(node: &kuchiki::NodeRef, levels: usize) -> (shallow: bool)
    ensures
        shallow == nests_within(*node, levels as nat),
    decreases levels,
{
    let nodes = children(node);
    if nodes.len() == 0 {
        return true;
    }
    if levels == 0 {
        return false;
    }
    let mut i: usize = 0;
    while i < nodes.len()
        invariant
            i <= nodes.len(),
            levels > 0,
            nodes.len() > 0,
            nodes@ == child_nodes(*node),
            forall|j: int| 0 <= j < i ==> #[trigger] nests_within(nodes@[j], (levels - 1) as nat),
        decreases nodes.len() - i,
    {
        if !is_shallow(&nodes[i], levels - 1) {
            proof {
                lemma_nesting_goes_by_children(*node, levels as nat);
                assert(!nests_within(child_nodes(*node)[i as int], (levels as nat - 1) as nat));
            }
            return false;
        }
        i += 1;
    }
    proof {
        lemma_nesting_goes_by_children(*node, levels as nat);
        assert forall|j: int| 0 <= j < child_nodes(*node).len() implies nests_within(
            #[trigger] child_nodes(*node)[j],
            (levels as nat - 1) as nat,
        ) by {
            assert(nests_within(nodes@[j], (levels - 1) as nat));
        }
    }
    true
}

/// A node with children is nested within some levels exactly when each
/// child is nested within one level less.
proof fn lemma_nesting_goes_by_children(node: kuchiki::NodeRef, levels: nat)
    requires
        child_nodes(node).len() > 0,
        levels > 0,
    ensures
        nests_within(node, levels) <==> forall|i: int|
            0 <= i < child_nodes(node).len() ==> nests_within(
                #[trigger] child_nodes(node)[i],
                (levels - 1) as nat,
            ),
{
}

/// Serializes the nodes one after the other into one buffer, unless one of
/// them is nested too deep.
fn serialize_all(nodes: &Vec<kuchiki::NodeRef>) -> (markup: Option<Vec<u8>>)
    ensures
        markup is Some <==> all_shallow(nodes@),
        markup matches Some(bytes) ==> bytes@ == markup_of(nodes@) && valid_utf8(bytes@),
{
    let mut out: Vec<u8> = Vec::new();
    let mut i: usize = 0;
    while i < nodes.len()
        invariant
            i <= nodes.len(),
            out@ == markup_of(nodes@.take(i as int)),
            valid_utf8(out@),
            forall|j: int| 0 <= j < i ==> nests_within(#[trigger] nodes@[j], NESTING_LIMIT as nat),
        decreases nodes.len() - i,
    {
        if !is_shallow(&nodes[i], NESTING_LIMIT) {
            return None;
        }
        proof {
            assert(nodes@.take(i + 1).drop_last() == nodes@.take(i as int));
            assert(nodes@.take(i + 1).last() == nodes@[i as int]);
        }
        let ghost before = out@;
        let _ = serialize_into(&nodes[i], &mut out);
        proof {
            assert(out@.skip(before.len() as int) == serialization(nodes@[i as int]));
            valid_utf8_concat(before, serialization(nodes@[i as int]));
        }
        i += 1;
    }
    proof {
        assert(nodes@.take(nodes.len() as int) == nodes@);
    }
    Some(out)
}

/// Parses a document into the body and the metadata of its post.
///
/// The title is the text of the first `title` element, and a document
/// without one is refused. The tags are the texts of all `tag` elements in
/// document order. The body is the markup of the children of the first
/// `contents` element, trimmed; without such an element it is empty. With a
/// title the document parses, whatever else it holds or lacks. A text of
/// more bytes than the parser takes, or with a body nested deeper than the
/// serializer takes, is refused as malformed.
pub fn parse_post(contents: &str) -> (parsed: Result<(String, PostMetadata), ParseError>)
    ensures
        match parsed {
            Ok((body, metadata)) => parsed_post(contents@) == Ok::<_, ParseError>(
                PostContentsView { metadata: metadata@, body: body@ },
            ) && metadata@.well_formed(),
            Err(e) => parsed_post(contents@) == Err::<PostContentsView, _>(e),
        },
        parsed is Ok <==> is_taken(contents@) && document_title(contents@) is Some,
        parsed matches Err(e) ==> (e is MalformedMarkup <==> !fits_parser(contents@)
            || document_title(contents@) is Some),
{
    if contents.as_bytes().len() > 715_827_882 {
        return Err(ParseError::MalformedMarkup);
    }
    let document = parse_html(contents);
    let title = match select_first(&document, "title") {
        Some(node) => text_of(&node),
        None => {
            return Err(ParseError::MissingTitle);
        },
    };
    let tags = match select(&document, "tag") {
        Some(nodes) => texts_of(&nodes),
        None => Vec::new(),
    };
    assert(texts(tags@) =~= document_tags(contents@));
    let markup = match select_first(&document, "contents") {
        Some(node) => match serialize_all(&children(&node)) {
            Some(bytes) => Some(bytes),
            None => {
                return Err(ParseError::MalformedMarkup);
            },
        },
        None => None,
    };
    match compose_post(title, tags, markup) {
        Ok(post) => Ok((post.body, post.metadata)),
        Err(e) => Err(e),
    }
}

} // verus!
