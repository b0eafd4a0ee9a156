//! The door to the EPUB reader: the `rbook` types that pass through this
//! library and one function for each use that loading makes of `rbook`.
//!
//! Nothing here is proved. What an opened container holds has a name,
//! [`held`], and so has the tree under a navigation entry, [`nav_tree_of`];
//! each function states in its contract what it claims of `rbook` over these
//! names. Of what is read from the archive, the text of a resource or its
//! bytes, nothing is claimed.

use crate::chapters::RecordView;
use crate::metadata::PackageMetadataView;
use crate::model::opt_text;
use crate::toc::NavTree;
use rbook::ebook::epub::manifest::EpubManifestEntry;
use rbook::ebook::epub::toc::EpubTocEntry;
use rbook::ebook::errors::EbookError;
use rbook::ebook::manifest::{Manifest, ManifestEntry};
use rbook::ebook::metadata::{MetaEntry, Metadata};
use rbook::ebook::spine::{Spine, SpineEntry};
use rbook::ebook::toc::{TocChildren, TocEntry};
use rbook::ebook::Ebook;
use rbook::epub::Epub;
use vstd::multiset::Multiset;
use vstd::prelude::*;

verus! {

/// An opened EPUB container of `rbook`.
#[verifier::external_type_specification]
#[verifier::external_body]
pub struct ExEpub(Epub);

/// The error of `rbook`'s operations.
#[verifier::external_type_specification]
#[verifier::external_body]
pub struct ExEbookError(EbookError);

/// A manifest entry of an opened container.
#[verifier::external_type_specification]
#[verifier::external_body]
pub struct ExEpubManifestEntry<'a>(EpubManifestEntry<'a>);

/// A navigation entry of an opened container.
#[verifier::external_type_specification]
#[verifier::external_body]
pub struct ExEpubTocEntry<'a>(EpubTocEntry<'a>);

/// What an opened container holds, as far as the container itself fixes it.
pub struct ContainerView {
    /// The declared metadata: the main title, language and description, the
    /// primary identifier, and all creators and publishers in their order.
    pub metadata: PackageMetadataView,
    /// For each entry of the reading order, in order, the record of the
    /// manifest item that it names, or `None` where the manifest has no such
    /// item.
    pub spine: Seq<Option<RecordView>>,
    /// The trees under the root navigation entries. The container keeps the
    /// roots in no fixed order.
    pub trees: Multiset<NavTree>,
    /// Whether the manifest declares a cover image.
    pub declares_cover: bool,
}

/// What the opened container `epub` holds.
pub uninterp spec fn held(epub: Epub) -> ContainerView;

/// The tree under the navigation entry `entry`: its label, its link target
/// and the trees under the entries nested in it, in order.
pub uninterp spec fn nav_tree_of(entry: EpubTocEntry<'_>) -> NavTree;

/// The trees under the navigation entries `entries`, in the same order.
pub open spec fn nav_trees_of(entries: Seq<EpubTocEntry<'_>>) -> Seq<NavTree> {
    Seq::new(entries.len(), |i: int| nav_tree_of(entries[i]))
}

/// The `Display` text of an `EbookError`. Nothing is claimed of it.
#[verifier::external_body]
pub(crate) fn failure_text(error: &EbookError) -> String {
    error.to_string()
}

/// `Metadata::title`: the value of the main title, if there is one.
#[verifier::external_body]
pub(crate) fn declared_title(epub: &Epub) -> (title: Option<String>)
    ensures
        opt_text(title) == held(*epub).metadata.title,
{
    epub.metadata().title().map(|entry| entry.value().to_string())
}

/// `Metadata::creators`: the values of all creators, in the iterator's order.
#[verifier::external_body]
pub(crate) fn declared_creators(epub: &Epub) -> (creators: Vec<String>)
    ensures
        creators.deep_view() == held(*epub).metadata.creators,
{
    epub.metadata().creators().map(|entry| entry.value().to_string()).collect()
}

/// `Metadata::language`: the value of the main language, if there is one.
#[verifier::external_body]
pub(crate) fn declared_language(epub: &Epub) -> (language: Option<String>)
    ensures
        opt_text(language) == held(*epub).metadata.language,
{
    epub.metadata().language().map(|entry| entry.value().to_string())
}

/// `Metadata::identifier`: the value of the primary identifier, if there is
/// one.
#[verifier::external_body]
pub(crate) fn declared_identifier(epub: &Epub) -> (identifier: Option<String>)
    ensures
        opt_text(identifier) == held(*epub).metadata.identifier,
{
    epub.metadata().identifier().map(|entry| entry.value().to_string())
}

/// `Metadata::publishers`: the values of all publishers, in the iterator's
/// order.
#[verifier::external_body]
pub(crate) fn declared_publishers(epub: &Epub) -> (publishers: Vec<String>)
    ensures
        publishers.deep_view() == held(*epub).metadata.publishers,
{
    epub.metadata().publishers().map(|entry| entry.value().to_string()).collect()
}

/// `Metadata::description`: the value of the main description, if there is
/// one.
#[verifier::external_body]
pub(crate) fn declared_description(epub: &Epub) -> (description: Option<String>)
    ensures
        opt_text(description) == held(*epub).metadata.description,
{
    epub.metadata().description().map(|entry| entry.value().to_string())
}

/// `Manifest::cover_image`: a manifest entry declared as the cover. There is
/// one exactly where the manifest declares a cover; which one it is, where
/// several are declared, is not claimed.
#[verifier::external_body]
pub(crate) fn cover_entry<'a>(epub: &'a Epub) -> (entry: Option<EpubManifestEntry<'a>>)
    ensures
        entry is Some <==> held(*epub).declares_cover,
{
    epub.manifest().cover_image()
}

/// `ManifestEntry::read_bytes`: the bytes of the entry's resource. Nothing is
/// claimed of the outcome.
#[verifier::external_body]
pub(crate) fn entry_bytes(entry: &EpubManifestEntry<'_>) -> Result<Vec<u8>, EbookError> {
    entry.read_bytes()
}

/// `ManifestEntry::read_str`: the text of the entry's resource. Nothing is
/// claimed of the outcome.
#[verifier::external_body]
pub(crate) fn entry_text(entry: &EpubManifestEntry<'_>) -> Result<String, EbookError> {
    entry.read_str()
}

/// `Spine::len`: the number of entries of the reading order.
#[verifier::external_body]
pub(crate) fn spine_len(epub: &Epub) -> (count: usize)
    ensures
        count == held(*epub).spine.len(),
{
    epub.spine().len()
}

/// `Spine::by_order`, then `SpineEntry::manifest_entry`: the manifest entry
/// that the reading order names at `position`, with its identifier
/// (`EpubManifestEntry::id`), its path (`EpubManifestEntry::href`, as its
/// `Display` writes it) and its MIME type (`EpubManifestEntry::media_type`).
/// There is none where the reading order has no such position, or names an
/// item there that the manifest lacks.
#[verifier::external_body]
pub(crate) fn spine_item<'a>(epub: &'a Epub, position: usize) -> (item: Option<
    (String, String, String, EpubManifestEntry<'a>),
>)
    ensures
        match item {
            Some(found) => position < held(*epub).spine.len() && held(*epub).spine[position as int]
                == Some(RecordView { id: found.0@, href: found.1@, media_type: found.2@ }),
            None => position < held(*epub).spine.len() ==> held(*epub).spine[position as int]
                is None,
        },
{
    let entry = epub.spine().by_order(position)?.manifest_entry()?;
    Some((entry.id().to_string(), entry.href().to_string(), entry.media_type().to_string(), entry))
}

/// The root navigation entries that iterating over `Ebook::toc` walks, in
/// the order of the walk: all roots, each once.
#[verifier::external_body]
pub(crate) fn toc_roots<'a>(epub: &'a Epub) -> (roots: Vec<EpubTocEntry<'a>>)
    ensures
        nav_trees_of(roots@).to_multiset() == held(*epub).trees,
{
    epub.toc().into_iter().map(|(_, root)| root).collect()
}

/// `TocEntry::label`.
#[verifier::external_body]
pub(crate) fn toc_label(entry: &EpubTocEntry<'_>) -> (label: String)
    ensures
        label@ == nav_tree_of(*entry).label,
{
    entry.label().to_string()
}

/// `EpubTocEntry::href`, as written by its `Display`, if the entry has one.
#[verifier::external_body]
pub(crate) fn toc_href(entry: &EpubTocEntry<'_>) -> (href: Option<String>)
    ensures
        opt_text(href) == nav_tree_of(*entry).href,
{
    entry.href().map(|target| target.to_string())
}

/// `TocChildren::len` of `TocEntry::children`: the number of entries nested
/// directly in the entry.
#[verifier::external_body]
pub(crate) fn toc_child_count(entry: &EpubTocEntry<'_>) -> (count: usize)
    ensures
        count == nav_tree_of(*entry).children.len(),
{
    entry.children().len()
}

/// `TocChildren::get` of `TocEntry::children`: the nested entry at
/// `position`, which there is exactly where `position` is less than the
/// number of nested entries.
#[verifier::external_body]
pub(crate) fn toc_child<'a>(entry: &EpubTocEntry<'a>, position: usize) -> (child: Option<
    EpubTocEntry<'a>,
>)
    ensures
        match child {
            Some(nested) => position < nav_tree_of(*entry).children.len() && nav_tree_of(nested)
                == nav_tree_of(*entry).children[position as int],
            None => position >= nav_tree_of(*entry).children.len(),
        },
{
    entry.children().get(position)
}

} // verus!
