//! The failures that the library reports.

use vstd::prelude::*;

verus! {

/// Why an operation of the library failed.
#[derive(Debug, PartialEq, Eq)]
pub enum Error {
    /// A chapter selection that does not follow the selection grammar.
    InvalidRangeSyntax,
    /// A file location that names no file.
    InvalidPath,
    /// A chapter that was to be published has no font file.
    MissingFontPath { index: usize },
    /// The protection step failed for the chapter with this title; the
    /// diagnostic is what the step wrote to its error stream.
    CapabilityFailure { title: String, diagnostic: String },
    /// The commit store gave back an empty commit identifier.
    CommitHashUnavailable,
    /// A command of the commit store did not succeed, or a step of the
    /// publication protocol was taken out of order.
    CommitStoreFailure,
    /// An interval whose total length is negative.
    NegativeInterval,
    /// An interval that is longer than a duration can hold.
    IntervalOverflow,
    /// The publication time of the chapter at this 1-based position cannot
    /// be represented.
    ScheduleOverflow { position: usize },
}

} // verus!
