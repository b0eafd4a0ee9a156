//! The metadata extractor: from what a package declares to the flat record
//! of a book.

use crate::model::{clone_opt_string, opt_text, EpubMetadata, MetadataView};
use vstd::prelude::*;

verus! {

/// The descriptive metadata that a package declares. Creators and publishers
/// are lists, in the order of the package.
#[derive(Debug)]
pub struct PackageMetadata {
    pub title: Option<String>,
    pub creators: Vec<String>,
    pub language: Option<String>,
    pub identifier: Option<String>,
    pub publishers: Vec<String>,
    pub description: Option<String>,
}

/// Mathematical view of [`PackageMetadata`].
pub struct PackageMetadataView {
    pub title: Option<Seq<char>>,
    pub creators: Seq<Seq<char>>,
    pub language: Option<Seq<char>>,
    pub identifier: Option<Seq<char>>,
    pub publishers: Seq<Seq<char>>,
    pub description: Option<Seq<char>>,
}

impl View for PackageMetadata {
    type V = PackageMetadataView;

    open spec fn view(&self) -> PackageMetadataView {
        PackageMetadataView {
            title: opt_text(self.title),
            creators: self.creators.deep_view(),
            language: opt_text(self.language),
            identifier: opt_text(self.identifier),
            publishers: self.publishers.deep_view(),
            description: opt_text(self.description),
        }
    }
}

/// The first value of a list, if it has one.
pub open spec fn first_value(values: Seq<Seq<char>>) -> Option<Seq<char>> {
    if values.len() > 0 {
        Some(values[0])
    } else {
        None
    }
}

/// The record of a book for the metadata of a package: each single-valued
/// field as it is, and of each list its first value.
pub open spec fn metadata_of(source: PackageMetadataView) -> MetadataView {
    MetadataView {
        title: source.title,
        creator: first_value(source.creators),
        language: source.language,
        identifier: source.identifier,
        publisher: first_value(source.publishers),
        description: source.description,
    }
}

/// Copies the first value of a list, if it has one.
pub fn first_of(values: &Vec<String>) -> (first: Option<String>)
    ensures
        opt_text(first) == first_value(values.deep_view()),
{
    if values.len() > 0 {
        Some(values[0].clone())
    } else {
        None
    }
}

/// Extracts the metadata of a book from the metadata of a package. A field
/// that the package does not declare is absent in the record.
pub fn extract_metadata(source: &PackageMetadata) -> (metadata: EpubMetadata)
    ensures
        metadata@ == metadata_of(source@),
{
    EpubMetadata {
        title: clone_opt_string(&source.title),
        creator: first_of(&source.creators),
        language: clone_opt_string(&source.language),
        identifier: clone_opt_string(&source.identifier),
        publisher: first_of(&source.publishers),
        description: clone_opt_string(&source.description),
    }
}

} // verus!
