//! A compiler for the TL schema language: a parser for schema text, the
//! grouping of declarations into records and sum types, a generator of
//! serialization code, and the wire codec that the generated code calls.
//!
//! Generated code names the codec by the root of the crate that holds it:
//! `crate::Serializable`, `crate::Identificable`, `crate::flag_bit`. These
//! are the names exported here.

pub mod basics;
pub mod cloning;
pub mod codec_laws;
pub mod combinators;
pub mod conversions;
pub mod deserialize;
pub mod enums;
pub mod equality;
pub mod errors;
pub mod formatter;
pub mod generate;
pub mod grammar;
pub mod grammar_laws;
pub mod identity;
pub mod metadata;
pub mod ordering;
pub mod raw;
pub mod resolve;
pub mod serialize;
pub mod stats;
pub mod structs;
pub mod text;
pub mod types;

pub use crate::deserialize::Deserializable;
pub use crate::raw::{flag_bit, has_flag, CodecError, Identificable, RawVec, Request};
pub use crate::serialize::Serializable;
