//! The value side of the library: every concrete value implements
//! [`concept::DataValue`], and [`concept::ValueCell`] is the handle over
//! them all.

pub mod concept;
pub mod error;
pub mod boolean;
pub mod byte;
pub mod number;
pub mod reference;
pub mod list;
pub mod sequence;
pub mod record;
pub mod union;
pub mod operations;

