//! What can go wrong.

use vstd::prelude::*;

verus! {

/// Why a text is no schema.
#[derive(Debug, Clone, Copy, PartialEq, Eq)]
pub enum ParsingError {
    /// The text does not go on as a schema does after `position` bytes.
    Parsing { position: usize },
}

/// Why no code can be generated for a schema.
#[derive(Debug, Clone, Copy, PartialEq, Eq, Structural)]
pub enum GenError {
    /// A declaration has no id yet.
    UnresolvedId,
    /// A term names a type that the schema does not declare.
    UnresolvedIdentifier,
    /// The schema holds a shape for which no rule of generation is defined.
    UnsupportedConstruct,
}

} // verus!
