//! The order of a rebuild: scan, clear the output, then one page per post.
//!
//! The rebuild itself touches no file and renders nothing. It says what is
//! to be done next; the caller does it and, for a rendering, hands back the
//! outcome.

use vstd::prelude::*;
use vstd::string::StringExecFns;
use crate::posts::{Post, PostView};
use crate::scan::{post_views, ScanError};
use crate::templating::{
    context_entries, output_path, output_path_of, page_entries, post_context, BuildError, Page,
};

verus! {

/// What the caller of a rebuild is to do next.
#[derive(Debug, PartialEq)]
pub enum RebuildStep {
    /// Remove the output tree, and do not mind if that fails.
    ClearOutput,
    /// Render the template `POST_TEMPLATE` with this context, and hand the
    /// outcome to `take_rendered`.
    RenderPage(tera::Context),
    /// Create the file of this page, with the directories above it, and
    /// write the page to it. A file that is already there is an error.
    WritePage(Page),
    /// Nothing: the rebuild is complete.
    Done,
}

/// A rebuild under way.
pub struct Rebuild {
    posts: Vec<Post>,
    written: usize,
    cleared: bool,
    output_root: String,
    base_path: String,
}

impl Rebuild {
    #[verifier::type_invariant]
    spec fn counts_pages(self) -> bool {
        self.written <= self.posts.len()
    }

    /// The posts of this rebuild, in the order of their pages.
    pub closed spec fn posts(&self) -> Seq<PostView> {
        post_views(self.posts@)
    }

    /// How many pages have been handed out.
    pub closed spec fn written(&self) -> nat {
        self.written as nat
    }

    /// Whether the clearing of the output tree has been handed out.
    pub closed spec fn cleared(&self) -> bool {
        self.cleared
    }

    /// The root of the output tree.
    pub closed spec fn output_root(&self) -> Seq<char> {
        self.output_root@
    }

    /// The base path that every page is rendered with.
    pub closed spec fn base_path(&self) -> Seq<char> {
        self.base_path@
    }

    /// Whether the next thing due is the page of a post: the output tree has
    /// been cleared and a post is left.
    pub open spec fn awaits(&self) -> bool {
        self.cleared() && self.written() < self.posts().len()
    }

    /// The post whose page is due next.
    pub open spec fn next_post(&self) -> PostView
        recommends
            self.awaits(),
    {
        self.posts()[self.written() as int]
    }

    /// Begins a rebuild with the result of a scan. A failed scan ends the
    /// rebuild before anything is touched.
    pub fn start(scan: Result<Vec<Post>, ScanError>, output_root: &str, base_path: &str) -> (begun:
        Result<Rebuild, BuildError>)
        ensures
            match scan {
                Ok(posts) => begun matches Ok(rebuild) && rebuild.posts() == post_views(posts@)
                    && rebuild.written() == 0 && !rebuild.cleared() && rebuild.output_root()
                    == output_root@ && rebuild.base_path() == base_path@,
                Err(e) => begun matches Err(BuildError::Scan(cause)) && cause == e,
            },
    {
        match scan {
            Ok(posts) => Ok(
                Rebuild {
                    posts,
                    written: 0,
                    cleared: false,
                    output_root: String::from_str(output_root),
                    base_path: String::from_str(base_path),
                },
            ),
            Err(e) => Err(BuildError::Scan(e)),
        }
    }

    /// Tells whether the page of a post is due next.
    pub fn awaits_page(&self) -> (due: bool)
        ensures
            due == self.awaits(),
    {
        proof {
            use_type_invariant(self);
        }
        self.cleared && self.written < self.posts.len()
    }

    /// The context that the page due next is rendered with: the title and
    /// the body of the next post, and the base path of the rebuild.
    pub fn next_context(&self) -> (context: tera::Context)
        requires
            self.awaits(),
        ensures
            context_entries(context) == page_entries(self.next_post(), self.base_path()),
    {
        post_context(&self.posts[self.written], self.base_path.as_str())
    }

    /// Takes what rendering the page due next gave. A rendered text becomes
    /// the page of the next post, at the path that its slug gives, to be
    /// written as it is; the rebuild moves on to the post after it. An error
    /// ends the rebuild as it is, and the post stays due.
    pub fn take_rendered(&mut self, outcome: Result<String, BuildError>) -> (step: Result<
        RebuildStep,
        BuildError,
    >)
        requires
            old(self).awaits(),
        ensures
            final(self).posts() == old(self).posts(),
            final(self).output_root() == old(self).output_root(),
            final(self).base_path() == old(self).base_path(),
            final(self).cleared(),
            match outcome {
                Ok(html) => step matches Ok(RebuildStep::WritePage(page)) && page.html@ == html@
                    && page.path@ == output_path_of(
                    old(self).output_root(),
                    old(self).next_post().metadata.normalised_title,
                ) && final(self).written() == old(self).written() + 1,
                Err(e) => step == Err::<RebuildStep, BuildError>(e) && final(self).written()
                    == old(self).written(),
            },
    {
        match outcome {
            Ok(html) => {
                let path = output_path(self.output_root.as_str(), &self.posts[self.written]);
                assert(self.written < self.posts.len());
                self.written = self.written + 1;
                Ok(RebuildStep::WritePage(Page { path, html }))
            },
            Err(e) => Err(e),
        }
    }

    /// Says what is to be done next. First the output tree is cleared; then
    /// the page of each post is asked for, in the order of the posts, with
    /// the context of that post; then the rebuild is done. The page of a
    /// post stays due until `take_rendered` has taken its text.
    pub fn next_step(&mut self) -> (step: RebuildStep)
        ensures
            final(self).posts() == old(self).posts(),
            final(self).output_root() == old(self).output_root(),
            final(self).base_path() == old(self).base_path(),
            final(self).written() == old(self).written(),
            final(self).cleared(),
            match step {
                RebuildStep::ClearOutput => !old(self).cleared(),
                RebuildStep::RenderPage(context) => old(self).awaits() && context_entries(context)
                    == page_entries(old(self).next_post(), old(self).base_path()),
                RebuildStep::WritePage(_) => false,
                RebuildStep::Done => old(self).cleared() && old(self).written() == old(
                    self,
                ).posts().len(),
            },
    {
        proof {
            use_type_invariant(&*self);
        }
        if !self.cleared {
            self.cleared = true;
            RebuildStep::ClearOutput
        } else if self.written == self.posts.len() {
            RebuildStep::Done
        } else {
            RebuildStep::RenderPage(self.next_context())
        }
    }
}

} // verus!
