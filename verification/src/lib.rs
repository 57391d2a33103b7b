//! A typed-value runtime: a closed algebra of data types (primitives,
//! tuples, sums, products, named structures and enumerations) paired with
//! values that are constructed from, and serialized back to, raw big-endian
//! byte buffers.
//!
//! Every type knows its layout size, its canonical name, and how to decode a
//! buffer into a value; every value knows its type, its exact byte image, and
//! how to refresh itself in place from a buffer.

pub mod encoding;
pub mod factory;
pub mod identity;
pub mod laws;
pub mod model;
pub mod parse;
pub mod types;
pub mod value;
