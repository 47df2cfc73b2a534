//! Decoder for precompiled Lua 5.3 binary chunks.
//!
//! A chunk is the serialized output of the Lua compiler: a fixed-layout
//! header followed by a recursively nested tree of function prototypes.
//! The decoder validates the header against the single supported layout and
//! turns the byte stream into an owned [`chunk::Prototype`] tree, reporting
//! every malformed input as a [`chunk::DecodeError`] value rather than a
//! panic.

pub mod chunk;
pub mod laws;
pub mod model;
pub mod reader;
