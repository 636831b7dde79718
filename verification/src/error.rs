//! Shared error vocabulary for every slab backend.

use vstd::prelude::*;

verus! {

/// Slabbable error types are shared across the implementations. Every
/// implementation that speaks the shared vocabulary uses this type, so a
/// caller can swap backends without changing its error handling.
#[derive(Debug, PartialEq)]
pub enum SlabbableError {
    /// At capacity, not able to take more. Carries the fixed capacity.
    AtCapacity(usize),
    /// Invalid index referred in the request.
    InvalidIndex(usize),
    /// Internal bookkeeping contradiction. Surfaced rather than silently
    /// corrected, so a defective backend fails loudly.
    Bug(&'static str),
}

} // verus!
