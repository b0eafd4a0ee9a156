//! Loads an EPUB container into a self-contained in-memory book: metadata,
//! chapters in reading order with their text, a flattened table of contents
//! and the cover image.
//!
//! The container itself is opened and read by `rbook`. What this library
//! adds is the document model and the rules that build it: which metadata
//! value is kept, which entries of the reading order become chapters and how
//! they are numbered, how the navigation forest becomes an indented list,
//! and when loading fails.
//!
//! The caller opens the container, from a path or from bytes and with strict
//! checking off, and hands the outcome to [`open_epub`] or
//! [`open_epub_bytes`]; an opened container goes to [`load_epub_data`].

pub mod assemble;
pub mod chapters;
pub mod cover;
pub mod failure;
pub mod loader;
pub mod metadata;
pub mod model;
pub mod query;
pub mod snapshot;
pub mod source;
pub mod text;
pub mod toc;
pub mod toc_laws;

pub use assemble::{assemble_book, Package};
pub use chapters::{load_chapters, ManifestItem};
pub use cover::resolve_cover;
pub use failure::{open_bytes_failure, open_failure, range_failure, read_failure};
pub use loader::{load_epub_data, open_epub, open_epub_bytes};
pub use metadata::{extract_metadata, PackageMetadata};
pub use model::{ChapterInfo, EpubBook, EpubError, EpubMetadata, TocEntry};
pub use query::{get_chapter_count, get_chapters, get_cover, get_metadata, get_toc, read_chapter};
pub use toc::{flatten_toc, push_toc_entries, NavNode};
