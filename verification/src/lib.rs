//! Flatten single fields into nested serialized paths.
//!
//! A record or tagged-union type may declare that one of its fields should
//! appear, in serialized form, at the end of a multi-level nested path of
//! keys (field `x` encoded as `{"a":{"b":{"c": <value>}}}`) while the
//! in-memory type keeps `x` as a single flat field.
//!
//! The crate models type definitions and their annotations as plain data
//! ([`model`]), rewrites them ([`generate`]): each annotated field is
//! redirected through a chain of single-field wrapper links, one per path
//! segment, collected in a generated namespace. The runtime meaning of such
//! a chain — how a value is nested under the path's keys on encode and
//! unwrapped again on decode — lives in [`codec`], together with the
//! round-trip proofs. General laws of the rewrite itself are in [`laws`].

pub mod codec;
pub mod extract;
pub mod generate;
pub mod laws;
pub mod model;
