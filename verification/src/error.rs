//! Error types
//!
//! The general strategy of this crate is to avoid sum error types, or if
//! necessary to only include the variants that are actually possible for that
//! function.

use std::fmt::Debug;
use vstd::prelude::*;
use vstd::string::StringExecFns;

verus! {

/// `format!` with the `Debug` text of `id`. The text is what the `Debug`
/// impl of `I` writes, so nothing is claimed of it.
#[verifier::external_body]
fn debug_text<I: Debug>(id: &I) -> String {
    format!("{:?}", id)
}

/// The text of the error about the ID whose `Debug` text is `id_text`.
pub open spec fn invalid_id_text(id_text: Seq<char>) -> Seq<char> {
    "ID "@ + id_text + " is invalid"@
}

/// The text of the error about the ID whose `Debug` text is `id_text`.
pub fn invalid_id_message(id_text: &str) -> (text: String)
    ensures
        text@ == invalid_id_text(id_text@),
{
    "ID ".to_owned().concat(id_text).concat(" is invalid")
}

/// Error returned when the ID is invalid. Holds the ID.
#[derive(Debug, PartialEq, Eq)]
pub struct InvalidIdError<I>(pub I);

impl<I: Debug> InvalidIdError<I> {
    /// The text of this error, which names the ID by its `Debug` text.
    pub fn message(&self) -> (text: String)
        ensures
            exists|id_text: Seq<char>| text@ == #[trigger] invalid_id_text(id_text),
    {
        let id_text = debug_text(&self.0);
        invalid_id_message(id_text.as_str())
    }
}

/// Error returned when the operation failed because we ran out of the
/// resources.
#[derive(Debug, Clone, Copy, PartialEq, Eq, Structural)]
pub struct OomError;

impl OomError {
    /// The text of this error.
    pub fn message(&self) -> (text: String)
        ensures
            text@ == "ran out of memory / resources"@,
    {
        "ran out of memory / resources".to_owned()
    }
}

} // verus!
