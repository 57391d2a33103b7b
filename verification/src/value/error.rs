//! The error taxonomy returned by every fallible operation of the library.

use vstd::prelude::*;
use crate::model::TypeErrorV;
use crate::types::concept::Type;

verus! {

/// Errors raised by sum types and their values.
#[derive(Debug)]
pub enum SumTypeError {
    /// The value's type does not match the declared variant at the tag.
    InvalidTag { expected_type: Type, provided_type: Type, provided_tag: usize },
    /// The tag selects no variant.
    InvalidCase { provided_type: Type },
}

/// Errors raised by sequences and product values.
#[derive(Debug)]
pub enum SequenceError {
    /// The declared types and the supplied values differ in number.
    SequenceLengthMismatch { expected: usize, provided: usize },
}

/// Any error of the type system.
#[derive(Debug)]
pub enum TypeError {
    SumTypeError(SumTypeError),
    ProductTypeError(SequenceError),
    /// A generic type mismatch, width mismatches included.
    InvalidType { expected: Type, provided: Type },
    /// An operation with no dedicated error form.
    Message(String),
}

pub type TypeResult<T> = Result<T, TypeError>;

pub type CanTypeError = TypeResult<()>;

impl View for SumTypeError {
    type V = TypeErrorV;

    open spec fn view(&self) -> TypeErrorV {
        match self {
            SumTypeError::InvalidTag { expected_type, provided_type, provided_tag } => {
                TypeErrorV::InvalidTag {
                    expected: expected_type@,
                    provided: provided_type@,
                    tag: *provided_tag as nat,
                }
            },
            SumTypeError::InvalidCase { provided_type } => {
                TypeErrorV::InvalidCase { provided: provided_type@ }
            },
        }
    }
}

impl View for SequenceError {
    type V = TypeErrorV;

    open spec fn view(&self) -> TypeErrorV {
        match self {
            SequenceError::SequenceLengthMismatch { expected, provided } => {
                TypeErrorV::LengthMismatch {
                    expected: *expected as nat,
                    provided: *provided as nat,
                }
            },
        }
    }
}

impl View for TypeError {
    type V = TypeErrorV;

    open spec fn view(&self) -> TypeErrorV {
        match self {
            TypeError::SumTypeError(e) => e@,
            TypeError::ProductTypeError(e) => e@,
            TypeError::InvalidType { expected, provided } => TypeErrorV::InvalidType {
                expected: expected@,
                provided: provided@,
            },
            TypeError::Message(m) => TypeErrorV::Message(m@),
        }
    }
}

impl SumTypeError {
    /// Promotes to the common error type, keeping the abstract error.
    pub fn promote(self) -> (r: TypeError)
        ensures
            r@ == self@,
    {
        TypeError::SumTypeError(self)
    }
}

impl SequenceError {
    /// Promotes to the common error type, keeping the abstract error.
    pub fn promote(self) -> (r: TypeError)
        ensures
            r@ == self@,
    {
        TypeError::ProductTypeError(self)
    }
}

} // verus!
