//! The markup tree of a document, as the `kuchiki` parser builds it.
//!
//! Nothing in this module is proved. Each item states what one function of
//! the parser returns, by a name for its result; the names say that the
//! result is a function of the arguments, and no more.
//!
//! A node stands here for what it holds and for its place in its tree. The
//! library builds a tree, reads it, and drops it; it never changes one and
//! never compares two nodes.

use vstd::prelude::*;
use vstd::utf8::{encode_utf8, valid_utf8};
use kuchiki::traits::TendrilSink;

verus! {

/// A node of a markup tree. What it holds is seen only through the functions
/// below.
#[verifier::external_type_specification]
#[verifier::external_body]
pub struct ExNodeRef(kuchiki::NodeRef);

/// `std::io::Error`, with which a serializer reports that its writer failed.
#[verifier::external_type_specification]
#[verifier::external_body]
pub struct ExIoError(std::io::Error);

/// The root of the tree that the parser builds from `text`.
pub uninterp spec fn parsed_tree(text: Seq<char>) -> kuchiki::NodeRef;

/// The elements among `root` and its descendants that match `selectors`, in
/// tree order; `None` where `selectors` is no selector list that the parser
/// accepts.
pub uninterp spec fn selection(root: kuchiki::NodeRef, selectors: Seq<char>) -> Option<
    Seq<kuchiki::NodeRef>,
>;

/// The text of all text nodes in the subtree of `node`, concatenated.
pub uninterp spec fn text_contents(node: kuchiki::NodeRef) -> Seq<char>;

/// The children of `node`, first to last.
pub uninterp spec fn child_nodes(node: kuchiki::NodeRef) -> Seq<kuchiki::NodeRef>;

/// The bytes that serializing `node` with its descendants writes.
pub uninterp spec fn serialization(node: kuchiki::NodeRef) -> Seq<u8>;

/// Whether the parser takes a text of this length. The parser gathers the
/// pieces of a document in buffers that grow by doubling and hold at most
/// 2^31 bytes, and a piece can take three times the bytes that it has in the
/// text.
pub open spec fn fits_parser(text: Seq<char>) -> bool {
    3 * encode_utf8(text).len() <= 0x8000_0000
}

/// How many levels of nesting below a node the serializer is handed at
/// most.
pub const NESTING_LIMIT: usize = 512;

/// Whether nothing below `node` is nested more than `levels` levels deep: a
/// node without children is nested no levels deep, its parent one.
pub open spec fn nests_within(node: kuchiki::NodeRef, levels: nat) -> bool
    decreases levels,
{
    child_nodes(node).len() == 0 || (levels > 0 && forall|i: int|
        0 <= i < child_nodes(node).len() ==> nests_within(
            #[trigger] child_nodes(node)[i],
            (levels - 1) as nat,
        ))
}

/// The first element of the selection, if the selector list is accepted and
/// anything matches.
pub open spec fn first_selected(root: kuchiki::NodeRef, selectors: Seq<char>) -> Option<
    kuchiki::NodeRef,
> {
    match selection(root, selectors) {
        Some(nodes) => if nodes.len() > 0 {
            Some(nodes[0])
        } else {
            None
        },
        None => None,
    }
}

/// Calls `kuchiki::parse_html` and feeds the parser the whole text. The
/// parser repairs what is malformed and always returns a document node. It
/// panics where one of its buffers would pass 2^31 bytes, which the
/// precondition keeps every text from.
#[verifier::external_body]
pub(crate) fn parse_html(text: &str) -> (root: kuchiki::NodeRef)
    requires
        fits_parser(text@),
    ensures
        root == parsed_tree(text@),
{
    kuchiki::parse_html().one(text)
}

/// Calls `NodeRef::select` and collects the node of each element it yields.
/// The call fails only on the selector list, before any node is looked at.
#[verifier::external_body]
pub(crate) fn select(root: &kuchiki::NodeRef, selectors: &str) -> (found: Option<
    Vec<kuchiki::NodeRef>,
>)
    ensures
        match found {
            Some(nodes) => selection(*root, selectors@) == Some(nodes@),
            None => selection(*root, selectors@) is None,
        },
{
    root.select(selectors).ok().map(|elements| elements.map(|e| e.as_node().clone()).collect())
}

/// Calls `NodeRef::select_first`, which runs `select` and takes the first
/// element; it fails where `select` fails and where nothing matches.
#[verifier::external_body]
pub(crate) fn select_first(root: &kuchiki::NodeRef, selectors: &str) -> (found: Option<
    kuchiki::NodeRef,
>)
    ensures
        found == first_selected(*root, selectors@),
{
    root.select_first(selectors).ok().map(|e| e.as_node().clone())
}

/// Calls `NodeRef::text_contents`.
#[verifier::external_body]
pub(crate) fn text_of(node: &kuchiki::NodeRef) -> (text: String)
    ensures
        text@ == text_contents(*node),
{
    node.text_contents()
}

/// Calls `NodeRef::children` and collects what it yields.
#[verifier::external_body]
pub(crate) fn children(node: &kuchiki::NodeRef) -> (nodes: Vec<kuchiki::NodeRef>)
    ensures
        nodes@ == child_nodes(*node),
{
    node.children().collect()
}

/// Calls `NodeRef::serialize` with `out` as the writer. The serializer
/// fails only where its writer fails, which a vector never does, and it
/// writes strings only: the call succeeds, and the bytes of the node, which
/// are UTF-8, stand after what `out` held. The serializer calls itself once
/// for each level of nesting below the node, and a few hundred bytes of
/// stack go to each call; the precondition keeps the levels to
/// `NESTING_LIMIT`.
#[verifier::external_body]
pub(crate) fn serialize_into(node: &kuchiki::NodeRef, out: &mut Vec<u8>) -> (done: Result<
    (),
    std::io::Error,
>)
    requires
        nests_within(*node, NESTING_LIMIT as nat),
    ensures
        done is Ok,
        final(out)@ == old(out)@ + serialization(*node),
        valid_utf8(final(out)@.skip(old(out)@.len() as int)),
{
    node.serialize(out)
}

} // verus!
