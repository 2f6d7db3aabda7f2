//! Errors surfaced by a run.
//!
//! Every failure names its kind and, where one input is at fault, that
//! input's identifier, so the invoking context can report it verbatim.

use vstd::prelude::*;

verus! {

/// A failure of one run.
#[derive(Debug)]
pub enum RunError {
    /// The named input's source could not be opened or read to completion.
    /// Raised only under the digest strategy, which is the only one that
    /// reads content.
    InputUnreadable { input: String },
    /// The configuration handed to the engine is unusable: an empty input
    /// list, or a filter name outside the recognized set.
    ConfigurationInvalid,
}

} // verus!
