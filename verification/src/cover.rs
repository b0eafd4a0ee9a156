//! The cover resolver.

use crate::model::opt_bytes;
use vstd::prelude::*;

verus! {

/// Mathematical view of a cover source: no cover declared, or the outcome of
/// reading the declared one.
pub open spec fn cover_view(source: Option<Result<Vec<u8>, String>>) -> Option<
    Result<Seq<u8>, Seq<char>>,
> {
    match source {
        Some(Ok(bytes)) => Some(Ok(bytes@)),
        Some(Err(cause)) => Some(Err(cause@)),
        None => None,
    }
}

/// The cover of a book for a cover source: the bytes where a cover is
/// declared and could be read, nothing otherwise.
pub open spec fn cover_of(source: Option<Result<Seq<u8>, Seq<char>>>) -> Option<Seq<u8>> {
    match source {
        Some(Ok(bytes)) => Some(bytes),
        _ => None,
    }
}

/// Resolves the cover image. `source` is `None` where the package declares no
/// cover, and otherwise the outcome of reading the declared resource. A cover
/// that could not be read counts as absent.
pub fn resolve_cover(source: &Option<Result<Vec<u8>, String>>) -> (cover: Option<Vec<u8>>)
    ensures
        opt_bytes(cover) == cover_of(cover_view(*source)),
{
    match source {
        Some(Ok(bytes)) => Some(bytes.clone()),
        _ => None,
    }
}

} // verus!
