//! Uniqueness detection over a sequence of input sources.
//!
//! Each input source is reduced to a comparable fingerprint under a
//! selectable strategy, and classified as the first occurrence of that
//! fingerprint (unique) or a repeat (duplicate). Classification is
//! deterministic, first-seen-wins, and preserves the input order.

pub mod engine;
pub mod errors;
pub mod filters;
pub mod options;
pub mod report;
