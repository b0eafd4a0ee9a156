//! The document assembler: from the parts that a package provides to one
//! self-contained book.

use crate::chapters::{
    all_readable, chapters_outcome, first_unreadable, lemma_some_item_is_first_unreadable,
    load_chapters, resolved, ItemView, ManifestItem,
};
use crate::failure::{is_read_failure, read_failure_text};
use crate::cover::{cover_of, cover_view, resolve_cover};
use crate::metadata::{extract_metadata, metadata_of, PackageMetadata, PackageMetadataView};
use crate::model::{BookView, EpubBook, EpubError};
use crate::toc::{flat_forest, flatten_toc, NavNode, NavTree};
use vstd::prelude::*;

verus! {

/// What an opened package provides: its declared metadata, its cover source,
/// its reading order and its navigation forest. All of it is plain data.
#[derive(Debug)]
pub struct Package {
    /// The declared metadata.
    pub metadata: PackageMetadata,
    /// `None` where no cover is declared; otherwise the bytes of the declared
    /// cover, or the reason why they could not be read.
    pub cover: Option<Result<Vec<u8>, String>>,
    /// The reading order. An entry is `None` where it names no manifest item.
    pub spine: Vec<Option<ManifestItem>>,
    /// The navigation forest, in document order.
    pub toc: Vec<NavNode>,
}

/// Mathematical view of [`Package`].
pub struct PackageView {
    pub metadata: PackageMetadataView,
    pub cover: Option<Result<Seq<u8>, Seq<char>>>,
    pub spine: Seq<Option<ItemView>>,
    pub toc: Seq<NavTree>,
}

impl View for Package {
    type V = PackageView;

    open spec fn view(&self) -> PackageView {
        PackageView {
            metadata: self.metadata@,
            cover: cover_view(self.cover),
            spine: self.spine.deep_view(),
            toc: self.toc.deep_view(),
        }
    }
}

/// The book that a package assembles to, or the message of the failure.
pub open spec fn assembled(package: PackageView) -> Result<BookView, Seq<char>> {
    match chapters_outcome(package.spine) {
        Ok((chapters, contents)) => Ok(
            BookView {
                metadata: metadata_of(package.metadata),
                chapters,
                toc: flat_forest(package.toc, 0),
                cover_image: cover_of(package.cover),
                chapter_contents: contents,
            },
        ),
        Err(message) => Err(message),
    }
}

/// Assembles a book from a package: extracts the metadata, resolves the
/// cover, loads the chapters of the reading order and flattens the navigation
/// forest. It fails only where a chapter could not be read.
pub fn assemble_book(package: &Package) -> (outcome: Result<EpubBook, EpubError>)
    ensures
        outcome is Ok <==> all_readable(resolved(package@.spine)),
        match outcome {
            Ok(book) => assembled(package@) == Ok::<BookView, Seq<char>>(book@)
                && book@.aligned(),
            Err(e) => assembled(package@) == Err::<BookView, Seq<char>>(e@),
        },
{
    let metadata = extract_metadata(&package.metadata);
    let cover_image = resolve_cover(&package.cover);
    match load_chapters(&package.spine) {
        Ok((chapters, chapter_contents)) => {
            let toc = flatten_toc(&package.toc);
            Ok(EpubBook { metadata, chapters, toc, cover_image, chapter_contents })
        },
        Err(e) => Err(e),
    }
}

/// Every assembled book has as many chapters as chapter texts, and each
/// chapter records its own position in the list.
pub proof fn lemma_assembled_book_is_aligned(package: PackageView)
    requires
        assembled(package) is Ok,
    ensures
        assembled(package)->Ok_0.aligned(),
{
}

/// Assembly succeeds exactly where every resolved chapter could be read:
/// neither the metadata, nor the cover, nor the navigation forest can make it
/// fail.
pub proof fn lemma_assembly_succeeds_iff_chapters_readable(package: PackageView)
    ensures
        assembled(package) is Ok <==> all_readable(resolved(package.spine)),
{
}

/// Where assembly fails, its message is that of a chapter whose text could
/// not be read: the first such chapter of the reading order.
pub proof fn lemma_assembly_fails_with_read_failure(package: PackageView)
    requires
        assembled(package) is Err,
    ensures
        is_read_failure(assembled(package)->Err_0),
        exists|k: int| #[trigger]
            first_unreadable(resolved(package.spine), k) && assembled(package)->Err_0
                == read_failure_text(
                resolved(package.spine)[k].id,
                resolved(package.spine)[k].text->Err_0,
            ),
{
    let items = resolved(package.spine);
    let j = choose|j: int| 0 <= j < items.len() && !((#[trigger] items[j]).text is Ok);
    lemma_some_item_is_first_unreadable(items, j);
    let k = choose|k: int| first_unreadable(items, k);
    assert(first_unreadable(items, k));
    assert(assembled(package)->Err_0 == read_failure_text(items[k].id, items[k].text->Err_0));
}

/// A package that declares no title, creator, language, publisher or
/// description still assembles, given readable chapters. Each of these fields
/// is then absent in its book, and the identifier is as the package has it.
pub proof fn lemma_missing_metadata_is_tolerated(package: PackageView)
    requires
        all_readable(resolved(package.spine)),
        package.metadata.title is None,
        package.metadata.creators.len() == 0,
        package.metadata.language is None,
        package.metadata.publishers.len() == 0,
        package.metadata.description is None,
    ensures
        assembled(package) is Ok,
        assembled(package)->Ok_0.metadata.title is None,
        assembled(package)->Ok_0.metadata.creator is None,
        assembled(package)->Ok_0.metadata.language is None,
        assembled(package)->Ok_0.metadata.publisher is None,
        assembled(package)->Ok_0.metadata.description is None,
        assembled(package)->Ok_0.metadata.identifier == package.metadata.identifier,
{
}

/// A cover that is declared but could not be read leaves the book without a
/// cover and does not make assembly fail.
pub proof fn lemma_unreadable_cover_is_tolerated(package: PackageView)
    requires
        all_readable(resolved(package.spine)),
        package.cover is Some,
        package.cover->Some_0 is Err,
    ensures
        assembled(package) is Ok,
        assembled(package)->Ok_0.cover_image is None,
{
}

} // verus!
