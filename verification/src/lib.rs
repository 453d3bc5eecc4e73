//! A builder and a verifier for a zero-copy binary serialization format that is compatible
//! with FlatBuffers byte for byte, together with the schema model and the helpers of a code
//! generator for it.
//!
//! - `alignment`, `scalar`, `types`: the arithmetic and the encodings of the format.
//! - `builder`: assembles a buffer from a tree of components.
//! - `validation`: checks a buffer against a schema before it is read.
//! - `schema`: the normalized schema with the layout of every object.
//! - `codegen`, `exit_code`: what the code generator decides.

pub mod alignment;
pub mod builder;
pub mod codegen;
pub mod exit_code;
pub mod scalar;
pub mod schema;
pub mod types;
pub mod validation;
