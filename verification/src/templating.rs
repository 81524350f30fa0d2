//! Pages: what a post hands to the template engine, what becomes of the
//! engine's answer, and where the page goes.
//!
//! The engine itself is not called here. It panics on a template that
//! computes a number which is no finite float, and nothing that a caller
//! could test tells such a template from another; so the caller renders, and
//! the library takes the outcome.

use vstd::prelude::*;
use vstd::string::StringExecFns;
use crate::posts::{texts, Post, PostView};
use crate::scan::ScanError;

verus! {

/// The values that a template is rendered with.
#[verifier::external_type_specification]
#[verifier::external_body]
pub struct ExContext(tera::Context);

/// The error of the template engine.
#[verifier::external_type_specification]
#[verifier::external_body]
pub struct ExTeraError(tera::Error);

/// The entries of `context` whose values are strings, by their keys.
pub uninterp spec fn context_entries(context: tera::Context) -> Map<Seq<char>, Seq<char>>;

/// What `error` and the errors behind it display: first the message of
/// `error` itself, then that of its source, of the source of that, and so on.
pub uninterp spec fn error_chain(error: tera::Error) -> Seq<Seq<char>>;

/// The map without entries.
pub open spec fn no_entries() -> Map<Seq<char>, Seq<char>> {
    Map::empty()
}

/// Calls `tera::Context::new`, which makes a context without entries.
#[verifier::external_body]
pub(crate) fn new_context() -> (context: tera::Context)
    ensures
        context_entries(context) == no_entries(),
{
    tera::Context::new()
}

/// Calls `tera::Context::insert` with a string value: the entry is added,
/// in place of any other under that key.
#[verifier::external_body]
pub(crate) fn insert_text(context: &mut tera::Context, key: &str, value: &str)
    ensures
        context_entries(*final(context)) == context_entries(*old(context)).insert(key@, value@),
{
    context.insert(key, value)
}

/// Formats a `tera::Error` and each error behind it by its `Display`,
/// following `source` from one to the next.
#[verifier::external_body]
pub(crate) fn describe(error: &tera::Error) -> (chain: Vec<String>)
    ensures
        texts(chain@) == error_chain(*error),
{
    let first: Option<&(dyn std::error::Error + 'static)> = Some(error);
    std::iter::successors(first, |e| e.source()).map(|e| e.to_string()).collect()
}

/// Why a rebuild stopped.
#[derive(Debug, PartialEq, Eq)]
pub enum BuildError {
    /// The scan of the source tree failed.
    Scan(ScanError),
    /// The template engine refused a post, with its message and, after it,
    /// the messages of the errors behind it.
    Render(Vec<String>),
    /// A page could not be written, with the reason.
    Io(String),
}

/// A rendered page and the path of its file.
#[derive(Debug, PartialEq, Eq)]
pub struct Page {
    pub path: String,
    pub html: String,
}

/// The name of the template that every post is rendered with.
pub const POST_TEMPLATE: &'static str = "post.html";

/// What the template of a post is rendered with: the title, the body, and
/// the base path of the site.
pub open spec fn page_entries(post: PostView, base_path: Seq<char>) -> Map<Seq<char>, Seq<char>> {
    no_entries().insert("title"@, post.metadata.title).insert("body"@, post.body).insert(
        "base_path"@,
        base_path,
    )
}

/// The path of the page of a post: `<output_root>/post/<slug>.html`.
pub open spec fn output_path_of(output_root: Seq<char>, slug: Seq<char>) -> Seq<char> {
    output_root + "/post/"@ + slug + ".html"@
}

/// The context that the template of `post` is rendered with.
pub fn post_context(post: &Post, base_path: &str) -> (context: tera::Context)
    ensures
        context_entries(context) == page_entries(post@, base_path@),
{
    let mut context = new_context();
    insert_text(&mut context, "title", post.metadata.title.as_str());
    insert_text(&mut context, "body", post.body.as_str());
    insert_text(&mut context, "base_path", base_path);
    context
}

/// Turns what the template engine gave for a page into the page or the
/// build error: the text as it is, the engine's error as its messages.
pub fn rendered(outcome: Result<String, tera::Error>) -> (page: Result<String, BuildError>)
    ensures
        match outcome {
            Ok(html) => page == Ok::<_, BuildError>(html),
            Err(error) => page matches Err(BuildError::Render(chain)) && texts(chain@)
                == error_chain(error),
        },
{
    match outcome {
        Ok(html) => Ok(html),
        Err(error) => Err(BuildError::Render(describe(&error))),
    }
}

/// The path of the file that the page of `post` is written to.
pub fn output_path(output_root: &str, post: &Post) -> (path: String)
    ensures
        path@ == output_path_of(output_root@, post.metadata.normalised_title@),
{
    let mut path = String::from_str(output_root);
    path.append("/post/");
    path.append(post.metadata.normalised_title.as_str());
    path.append(".html");
    path
}

} // verus!
