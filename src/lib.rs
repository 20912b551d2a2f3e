//! Ingestion of podcast episode documents: content hygiene, front-matter
//! framing, episode records, the duplicate-media guard, and the load of a
//! tree of series directories.

pub mod document;
pub mod duplicates;
pub mod episode;
pub mod error;
pub mod laws;
pub mod loader;
pub mod text;

pub use document::{check_hygiene, frame_document, Framed, ABNORMAL_DASH};
pub use duplicates::{check_duplicates, find_duplicate};
pub use episode::{empty_path, empty_string, Episode, FrontMatter, Record, Timestamp};
pub use error::{Failure, LoadError};
pub use loader::{is_markdown_path, load_document, load_tree, Document};
pub use text::chars_of;
