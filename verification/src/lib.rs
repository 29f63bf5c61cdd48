//! A verified single-pass recursive-descent decoder for a restricted JSON
//! grammar.
//!
//! The input is materialized as a character sequence and decoded into an
//! in-memory value tree. The grammar covers the literals `null`, `true` and
//! `false`, signed 64-bit decimal integers, verbatim strings without escape
//! decoding, and arrays and objects represented as singly-linked node chains.
//! Failure is a single uninformative signal: the decoder either returns the
//! whole tree or nothing.
//!
//! The exact language accepted and the tree returned for every input are
//! defined by the specification functions in [`grammar`]; the executable
//! decoder in [`parser`] is proved to return exactly what those functions
//! say. General facts about the grammar stand in [`laws`].

pub mod grammar;
pub mod laws;
pub mod parser;
pub mod value;

pub use parser::MorokoshiJsonParser;
pub use value::JsonObject;
pub use value::ListObject;
pub use value::MapObject;
pub use value::SpecValue;
