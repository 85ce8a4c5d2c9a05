//! Runtime detection of the C standard library that a Linux host runs,
//! modelled as verified, side-effect-free logic: version-string parsing,
//! the per-architecture probe registry, outcome classification, and the
//! fallback state machine that folds probe results into one report.
//!
//! Running the probe processes themselves is left to the embedding
//! application; this crate decides what to run and what the captured
//! output means.

use vstd::prelude::*;

pub mod detect;
pub mod parse;
pub mod outcome;
pub mod registry;

verus! {

/// The family of libc implementation.
#[derive(Debug, Clone, Copy, Hash, PartialEq, Eq, Structural)]
pub enum LibCFamily {
    /// GNU libc
    GLibC,
    /// musl libc
    Musl,
}

} // verus!
