//! The type side of the library: every data type implements
//! [`concept::DataType`], and [`concept::Type`] is the shared handle over
//! them all.

pub mod concept;
pub mod primitive;
pub mod sequence;
pub mod algebraic;
pub mod typedef;
pub mod functional;
