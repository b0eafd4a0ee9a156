//! The entry points of loading: from an opened container, or from the
//! outcome of opening one.
//!
//! Opening itself is not done here. Reading a path is the caller's, and so
//! is the parse of bytes: the reader's parser does unchecked arithmetic on
//! numbers taken from the package, which can panic, and this library does
//! not panic. The caller opens with strict checking off and hands the
//! outcome in.

use crate::assemble::{assemble_book, assembled, lemma_assembly_fails_with_read_failure, PackageView};
use crate::chapters::{
    lemma_resolved_records, lemma_unnamed_entries_resolve_to_nothing,
    lemma_unreadable_last_is_resolved, named_records, record_chapters, RecordView,
};
use crate::cover::cover_of;
use crate::failure::{
    is_open_bytes_failure, is_open_failure, is_read_failure, open_bytes_failure, open_failure,
};
use crate::metadata::metadata_of;
use crate::model::{BookView, EpubBook, EpubError};
use crate::snapshot::{lists_roots, read_package, snapshot_of};
use crate::toc::{flat_forest, NavTree};
use crate::source::{failure_text, held, ContainerView};
use rbook::ebook::errors::EbookError;
use rbook::epub::Epub;
use vstd::prelude::*;

verus! {

/// Mathematical view of the outcome of loading.
pub open spec fn outcome_view(outcome: Result<EpubBook, EpubError>) -> Result<BookView, Seq<char>> {
    match outcome {
        Ok(book) => Ok(book@),
        Err(e) => Err(e@),
    }
}

/// `outcome` is what assembling `package` gives, and `package` is a reading
/// of `container`.
pub open spec fn loads_as(
    package: PackageView,
    container: ContainerView,
    outcome: Result<BookView, Seq<char>>,
) -> bool {
    snapshot_of(package, container) && assembled(package) == outcome
}

/// No entry of the reading order names a manifest item.
pub open spec fn names_no_item(records: Seq<Option<RecordView>>) -> bool {
    forall|i: int| 0 <= i < records.len() ==> (#[trigger] records[i]) is None
}

/// `outcome` is what loading a container that holds `container` gives.
///
/// It is the assembly of a reading of the container: of the declared
/// metadata, of the reading order with the texts as the archive gave them, of
/// the cover source and of the navigation entries. So a book has the
/// declared metadata, with the first creator and the first publisher; its
/// chapters are the items that the reading order names, numbered by
/// position, and its texts run in parallel to them; its table of contents is
/// the flattened list of the navigation entries, list by list; and it has a
/// cover only where one is declared. Loading fails only with the failure of
/// a chapter whose text could not be read. Where the reading order names no
/// item, no text is read and a book is returned.
pub open spec fn loaded(container: ContainerView, outcome: Result<BookView, Seq<char>>) -> bool {
    &&& exists|package: PackageView| #[trigger] loads_as(package, container, outcome)
    &&& names_no_item(container.spine) ==> outcome is Ok
    &&& outcome matches Ok(book) ==> {
        &&& book.aligned()
        &&& book.metadata == metadata_of(container.metadata)
        &&& book.chapters == record_chapters(named_records(container.spine))
        &&& exists|forest: Seq<NavTree>| #[trigger]
            lists_roots(forest, container.trees) && book.toc == flat_forest(forest, 0)
        &&& book.cover_image is Some ==> container.declares_cover
    }
    &&& outcome matches Err(message) ==> is_read_failure(message)
}

/// Loads all data of an opened container into a book: reads the container
/// into a package and assembles it.
///
/// The texts and the cover bytes come from the archive, of which nothing is
/// known here; all else is fixed by what the container holds.
pub fn load_epub_data(epub: &Epub) -> (outcome: Result<EpubBook, EpubError>)
    ensures
        loaded(held(*epub), outcome_view(outcome)),
{
    let package = read_package(epub);
    let outcome = assemble_book(&package);
    proof {
        assert(loads_as(package@, held(*epub), outcome_view(outcome)));
        if names_no_item(held(*epub).spine) {
            lemma_unnamed_entries_resolve_to_nothing(package@.spine);
        }
        if outcome is Err {
            lemma_assembly_fails_with_read_failure(package@);
        }
        if outcome is Ok {
            let spine = package@.spine;
            let records = held(*epub).spine;
            assert(cover_of(package@.cover) is Some ==> package@.cover is Some);
            if spine.len() < records.len() {
                lemma_unreadable_last_is_resolved(spine);
            }
            lemma_resolved_records(spine, records);
            assert(lists_roots(package@.toc, held(*epub).trees));
        }
    }
    outcome
}

/// Loads the book of a container that was to be opened from a path, given the
/// outcome of opening it. Where opening failed, the result is that failure,
/// with the text of its cause; otherwise it is what loading the opened
/// container gives.
pub fn open_epub(opened: Result<Epub, EbookError>) -> (outcome: Result<EpubBook, EpubError>)
    ensures
        match opened {
            Ok(epub) => loaded(held(epub), outcome_view(outcome)),
            Err(_) => outcome is Err && is_open_failure(outcome->Err_0@),
        },
{
    match opened {
        Ok(epub) => load_epub_data(&epub),
        Err(error) => {
            let cause = failure_text(&error);
            Err(open_failure(cause.as_str()))
        },
    }
}

/// Loads the book of a container that was to be opened from bytes, given the
/// outcome of opening it. Where opening failed, the result is that failure,
/// with the text of its cause; otherwise it is what loading the opened
/// container gives.
pub fn open_epub_bytes(opened: Result<Epub, EbookError>) -> (outcome: Result<EpubBook, EpubError>)
    ensures
        match opened {
            Ok(epub) => loaded(held(epub), outcome_view(outcome)),
            Err(_) => outcome is Err && is_open_bytes_failure(outcome->Err_0@),
        },
{
    match opened {
        Ok(epub) => load_epub_data(&epub),
        Err(error) => {
            let cause = failure_text(&error);
            Err(open_bytes_failure(cause.as_str()))
        },
    }
}

} // verus!
