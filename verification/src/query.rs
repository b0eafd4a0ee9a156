//! The queries on a loaded book. Each hands out a copy: the book itself is
//! never changed through them.

use crate::failure::{range_failure, range_failure_text};
use crate::model::{ChapterInfo, EpubBook, EpubError, EpubMetadata, TocEntry};
use vstd::prelude::*;

verus! {

/// The text of the chapter at `index`, or a failure that names the index
/// where the book has no such chapter.
pub fn read_chapter(book: &EpubBook, index: usize) -> (outcome: Result<String, EpubError>)
    ensures
        index < book@.chapter_contents.len() ==> outcome is Ok && outcome->Ok_0@
            == book@.chapter_contents[index as int],
        index >= book@.chapter_contents.len() ==> outcome is Err && outcome->Err_0@
            == range_failure_text(index as nat),
        book@.aligned() ==> (outcome is Ok <==> index < book@.chapters.len()),
{
    if index < book.chapter_contents.len() {
        Ok(book.chapter_contents[index].clone())
    } else {
        Err(range_failure(index))
    }
}

/// The number of chapters of the book.
pub fn get_chapter_count(book: &EpubBook) -> (count: usize)
    ensures
        count == book@.chapters.len(),
{
    book.chapters.len()
}

/// A copy of the metadata of the book.
pub fn get_metadata(book: &EpubBook) -> (metadata: EpubMetadata)
    ensures
        metadata == book.metadata,
{
    book.metadata.clone()
}

/// A copy of the table of contents of the book.
pub fn get_toc(book: &EpubBook) -> (toc: Vec<TocEntry>)
    ensures
        toc@ == book.toc@,
{
    book.toc.clone()
}

/// A copy of the chapter list of the book.
pub fn get_chapters(book: &EpubBook) -> (chapters: Vec<ChapterInfo>)
    ensures
        chapters@ == book.chapters@,
{
    book.chapters.clone()
}

/// A copy of the cover image of the book, if it has one.
pub fn get_cover(book: &EpubBook) -> (cover: Option<Vec<u8>>)
    ensures
        cover is Some <==> book.cover_image is Some,
        cover is Some ==> cover->0@ == book.cover_image->0@,
{
    match &book.cover_image {
        Some(bytes) => Some(bytes.clone()),
        None => None,
    }
}

} // verus!
