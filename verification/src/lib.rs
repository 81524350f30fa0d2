//! A static-site compiler's core: slugs, post documents, source-tree scans,
//! page construction and the debounce rule of the watch loop.
//!
//! Every function here carries a contract that Verus proves. Calls into the
//! markup parser and the template engine go through a small set of trusted
//! declarations, each documented where it stands.

pub mod markup;
pub mod posts;
pub mod rebuild;
pub mod scan;
pub mod slug;
pub mod templating;
pub mod text;
pub mod watch;

pub use posts::{parse_post, ParseError, Post, PostContents, PostMetadata, Timestamp};
pub use rebuild::{Rebuild, RebuildStep};
pub use scan::{classify_entry, get_all_posts, EntryKind, ScanError, SourceDocument, SourceEntry};
pub use slug::normalise_title_for_url;
pub use templating::{output_path, post_context, rendered, BuildError, Page, POST_TEMPLATE};
pub use watch::{Debouncer, EventKind, WatchAction};
