//! The errors a transformation can end with.
//!
//! A document with any structural defect produces no units at all: each of
//! these errors aborts the whole transformation of the enclosing document.

use vstd::prelude::*;

verus! {

/// Why a transformation failed.
#[derive(Clone, Copy, Debug, PartialEq, Eq, Structural)]
pub enum TransformError {
    /// The token stream does not follow the block grammar; carries the index
    /// of the offending token.
    Syntax(usize),
    /// A group declared a second `before_each` or a second `after_each`.
    DuplicateHook,
    /// A leaf block lacks its description or its body, or a group block
    /// lacks its name.
    MalformedItem,
    /// Two siblings canonicalize to the same identifier.
    IdentifierCollision,
}

} // verus!
