//! The failures of loading and querying, and the text of their messages.

use crate::model::EpubError;
use crate::text::{decimal, push_decimal};
use vstd::prelude::*;

verus! {

/// The message for a container that could not be opened from a path.
pub open spec fn open_failure_text(cause: Seq<char>) -> Seq<char> {
    "Failed to open EPUB: "@ + cause
}

/// The message for a container that could not be opened from bytes.
pub open spec fn open_bytes_failure_text(cause: Seq<char>) -> Seq<char> {
    "Failed to open EPUB from bytes: "@ + cause
}

/// The message for a chapter whose text could not be read.
pub open spec fn read_failure_text(id: Seq<char>, cause: Seq<char>) -> Seq<char> {
    "Failed to read chapter content ("@ + id + "): "@ + cause
}

/// The message for a chapter index that no chapter has.
pub open spec fn range_failure_text(index: nat) -> Seq<char> {
    "Chapter index "@ + decimal(index) + " out of range"@
}

/// `message` reports that a container could not be opened from a path.
pub open spec fn is_open_failure(message: Seq<char>) -> bool {
    exists|cause: Seq<char>| message == #[trigger] open_failure_text(cause)
}

/// `message` reports that a container could not be opened from bytes.
pub open spec fn is_open_bytes_failure(message: Seq<char>) -> bool {
    exists|cause: Seq<char>| message == #[trigger] open_bytes_failure_text(cause)
}

/// `message` reports that the text of a chapter could not be read.
pub open spec fn is_read_failure(message: Seq<char>) -> bool {
    exists|id: Seq<char>, cause: Seq<char>| message == #[trigger] read_failure_text(id, cause)
}

/// The failure of opening a container from a path.
pub fn open_failure(cause: &str) -> (e: EpubError)
    ensures
        e@ == open_failure_text(cause@),
{
    let mut message = String::from_str("Failed to open EPUB: ");
    message.append(cause);
    EpubError { message }
}

/// The failure of opening a container from bytes.
pub fn open_bytes_failure(cause: &str) -> (e: EpubError)
    ensures
        e@ == open_bytes_failure_text(cause@),
{
    let mut message = String::from_str("Failed to open EPUB from bytes: ");
    message.append(cause);
    EpubError { message }
}

/// The failure of reading the text of the chapter with manifest identifier
/// `id`.
pub fn read_failure(id: &str, cause: &str) -> (e: EpubError)
    ensures
        e@ == read_failure_text(id@, cause@),
{
    let mut message = String::from_str("Failed to read chapter content (");
    message.append(id);
    message.append("): ");
    message.append(cause);
    EpubError { message }
}

/// The failure of asking for the chapter at `index` where there is none.
pub fn range_failure(index: usize) -> (e: EpubError)
    ensures
        e@ == range_failure_text(index as nat),
{
    let mut message = String::from_str("Chapter index ");
    push_decimal(&mut message, index);
    message.append(" out of range");
    EpubError { message }
}

} // verus!
