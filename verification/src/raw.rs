//! What generated code and the wire codec share: the error of decoding, the
//! id of a type, the pairing of a request with its response, flags words and
//! bare vectors.

use vstd::prelude::*;
use crate::deserialize::Deserializable;
use crate::serialize::Serializable;

verus! {

/// Why bytes could not be decoded.
#[derive(Debug, Clone, Copy, PartialEq, Eq, Structural)]
pub enum CodecError {
    /// The input ended before the value did.
    IO,
    /// The bytes of a string are no UTF-8.
    InvalidUtf8,
    /// A vector does not begin with the marker of vectors, or its length is
    /// negative.
    InvalidVector,
    /// A value of a sum type begins with the id of none of its constructors.
    InvalidId,
}

/// A type with a 32-bit id.
pub trait Identificable {
    const ID: u32;
}

/// A request, which is written, and the response to it, which is read.
pub trait Request: Serializable {
    type Response: Deserializable;
}

/// A vector that is written without the marker of vectors: its length,
/// then its elements.
#[derive(Debug, PartialEq, Eq)]
pub struct RawVec<T>(pub Vec<T>);

/// The bit of a flags word that says whether a field is present.
pub open spec fn bit(present: bool, index: u32) -> u32 {
    if present {
        1u32 << index
    } else {
        0
    }
}

/// The bit of a flags word for a field: bit `index` where the field is
/// present, nothing where it is absent. A flags word is the `|` of the bits
/// of its fields.
pub fn flag_bit(present: bool, index: u32) -> (r: u32)
    requires
        index < 32,
    ensures
        r == bit(present, index),
{
    if present {
        1u32 << index
    } else {
        0
    }
}

/// Whether a flags word says that the field of bit `index` is present.
pub open spec fn flagged(flags: u32, index: u32) -> bool {
    flags & (1u32 << index) != 0
}

/// Whether a flags word says that the field of bit `index` is present.
pub fn has_flag(flags: u32, index: u32) -> (r: bool)
    requires
        index < 32,
    ensures
        r == flagged(flags, index),
{
    flags & (1u32 << index) != 0
}

} // verus!
