//! The document model: the values a loaded book is made of, and their
//! mathematical views.

use vstd::prelude::*;

verus! {

/// Descriptive metadata of a book. Every field may be absent.
#[derive(Debug)]
pub struct EpubMetadata {
    pub title: Option<String>,
    pub creator: Option<String>,
    pub language: Option<String>,
    pub identifier: Option<String>,
    pub publisher: Option<String>,
    pub description: Option<String>,
}

/// Mathematical view of [`EpubMetadata`].
pub struct MetadataView {
    pub title: Option<Seq<char>>,
    pub creator: Option<Seq<char>>,
    pub language: Option<Seq<char>>,
    pub identifier: Option<Seq<char>>,
    pub publisher: Option<Seq<char>>,
    pub description: Option<Seq<char>>,
}

/// The characters of an optional string.
pub open spec fn opt_text(s: Option<String>) -> Option<Seq<char>> {
    match s {
        Some(t) => Some(t@),
        None => None,
    }
}

impl View for EpubMetadata {
    type V = MetadataView;

    open spec fn view(&self) -> MetadataView {
        MetadataView {
            title: opt_text(self.title),
            creator: opt_text(self.creator),
            language: opt_text(self.language),
            identifier: opt_text(self.identifier),
            publisher: opt_text(self.publisher),
            description: opt_text(self.description),
        }
    }
}

impl Clone for EpubMetadata {
    fn clone(&self) -> (copy: Self)
        ensures
            copy == *self,
    {
        EpubMetadata {
            title: clone_opt_string(&self.title),
            creator: clone_opt_string(&self.creator),
            language: clone_opt_string(&self.language),
            identifier: clone_opt_string(&self.identifier),
            publisher: clone_opt_string(&self.publisher),
            description: clone_opt_string(&self.description),
        }
    }
}

/// One line of the flattened table of contents.
#[derive(Debug)]
pub struct TocEntry {
    /// The label, indented by two spaces per nesting level.
    pub title: String,
    /// The link target, empty where the navigation entry has none.
    pub href: String,
}

/// Mathematical view of [`TocEntry`].
pub struct TocEntryView {
    pub title: Seq<char>,
    pub href: Seq<char>,
}

impl View for TocEntry {
    type V = TocEntryView;

    open spec fn view(&self) -> TocEntryView {
        TocEntryView { title: self.title@, href: self.href@ }
    }
}

impl DeepView for TocEntry {
    type V = TocEntryView;

    open spec fn deep_view(&self) -> TocEntryView {
        self@
    }
}

impl Clone for TocEntry {
    fn clone(&self) -> (copy: Self)
        ensures
            copy == *self,
    {
        TocEntry { title: self.title.clone(), href: self.href.clone() }
    }
}

/// A chapter of the reading order.
#[derive(Debug)]
pub struct ChapterInfo {
    /// Position of the chapter in the chapter list.
    pub index: usize,
    /// Identifier of the manifest item.
    pub id: String,
    /// Path of the resource.
    pub href: String,
    /// MIME type of the resource.
    pub media_type: String,
}

/// Mathematical view of [`ChapterInfo`].
pub struct ChapterView {
    pub index: nat,
    pub id: Seq<char>,
    pub href: Seq<char>,
    pub media_type: Seq<char>,
}

impl View for ChapterInfo {
    type V = ChapterView;

    open spec fn view(&self) -> ChapterView {
        ChapterView {
            index: self.index as nat,
            id: self.id@,
            href: self.href@,
            media_type: self.media_type@,
        }
    }
}

impl DeepView for ChapterInfo {
    type V = ChapterView;

    open spec fn deep_view(&self) -> ChapterView {
        self@
    }
}

impl Clone for ChapterInfo {
    fn clone(&self) -> (copy: Self)
        ensures
            copy == *self,
    {
        ChapterInfo {
            index: self.index,
            id: self.id.clone(),
            href: self.href.clone(),
            media_type: self.media_type.clone(),
        }
    }
}

/// A fully loaded book. It owns all of its data.
#[derive(Debug)]
pub struct EpubBook {
    pub metadata: EpubMetadata,
    pub chapters: Vec<ChapterInfo>,
    pub toc: Vec<TocEntry>,
    pub cover_image: Option<Vec<u8>>,
    pub chapter_contents: Vec<String>,
}

/// Mathematical view of [`EpubBook`].
pub struct BookView {
    pub metadata: MetadataView,
    pub chapters: Seq<ChapterView>,
    pub toc: Seq<TocEntryView>,
    pub cover_image: Option<Seq<u8>>,
    pub chapter_contents: Seq<Seq<char>>,
}

impl BookView {
    /// The chapter list and the content list run in parallel, and every
    /// chapter records its own position.
    pub open spec fn aligned(self) -> bool {
        &&& self.chapters.len() == self.chapter_contents.len()
        &&& forall|i: int| 0 <= i < self.chapters.len() ==> (#[trigger] self.chapters[i]).index == i
    }
}

/// The bytes of an optional buffer.
pub open spec fn opt_bytes(b: Option<Vec<u8>>) -> Option<Seq<u8>> {
    match b {
        Some(v) => Some(v@),
        None => None,
    }
}

impl View for EpubBook {
    type V = BookView;

    open spec fn view(&self) -> BookView {
        BookView {
            metadata: self.metadata@,
            chapters: self.chapters.deep_view(),
            toc: self.toc.deep_view(),
            cover_image: opt_bytes(self.cover_image),
            chapter_contents: self.chapter_contents.deep_view(),
        }
    }
}

impl Clone for EpubBook {
    fn clone(&self) -> (copy: Self)
        ensures
            copy@ == self@,
    {
        EpubBook {
            metadata: self.metadata.clone(),
            chapters: self.chapters.clone(),
            toc: self.toc.clone(),
            cover_image: match &self.cover_image {
                Some(bytes) => Some(bytes.clone()),
                None => None,
            },
            chapter_contents: self.chapter_contents.clone(),
        }
    }
}

/// A failure of loading or querying, with a message for people.
#[derive(Debug)]
pub struct EpubError {
    pub message: String,
}

impl View for EpubError {
    type V = Seq<char>;

    open spec fn view(&self) -> Seq<char> {
        self.message@
    }
}

impl Clone for EpubError {
    fn clone(&self) -> (copy: Self)
        ensures
            copy == *self,
    {
        EpubError { message: self.message.clone() }
    }
}

impl EpubError {
    /// The message, as an owned string.
    pub fn to_string(&self) -> (text: String)
        ensures
            text@ == self@,
    {
        self.message.clone()
    }
}

/// Copies an optional string.
pub fn clone_opt_string(s: &Option<String>) -> (copy: Option<String>)
    ensures
        copy == *s,
{
    match s {
        Some(t) => Some(t.clone()),
        None => None,
    }
}

} // verus!
