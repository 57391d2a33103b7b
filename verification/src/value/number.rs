//! Numeric values: the eight-byte signed [`Integer`] and the eight-byte
//! [`Float`] bit pattern.

use vstd::prelude::*;
use crate::parse::{Parsed, parse_slice};
use crate::encoding::{be_value, be_decode, be_encode, pow256, lemma_be_value_bound};
use crate::model::{ValueV, bits_i64};
use crate::types::concept::Type;
use crate::types::primitive::Primitive;
use crate::value::concept::{DataValue, ValueCell};

verus! {

/// A 64-bit floating-point value, carried as its big-endian bit pattern.
///
/// The library stores and moves the eight bytes; it does no floating-point
/// arithmetic.  The host converts between this pattern and its native float
/// type.
#[derive(Clone, Copy, Debug)]
pub struct Float(pub u64);

impl View for Float {
    type V = ValueV;

    open spec fn view(&self) -> ValueV {
        ValueV::Float(self.0)
    }
}

impl Float {
    /// Wraps this float as a value handle.
    pub fn to_cell(self) -> (r: ValueCell)
        ensures
            r@ == self@,
    {
        ValueCell::Float(self)
    }

    /// Parses a float pattern off the front of the input: eight bytes.
    pub fn parse_float(input: &[u8]) -> (r: Parsed<Self>)
        ensures
            match r.0 {
                Some(f) => input@.len() >= 8 && f@ == (ValueV::Float(
                    be_value(input@.take(8)) as u64,
                )) && r.1@ == input@.skip(8),
                None => input@.len() < 8 && r.1@ == input@,
            },
    {
        let (head, rest) = parse_slice(input, 8);
        match head {
            Some(raw) => (Some(Self::from(raw)), rest),
            None => (None, input),
        }
    }

    /// Reads a float pattern from an eight-byte big-endian buffer.
    pub fn from(raw: &[u8]) -> (r: Self)
        requires
            raw@.len() == 8,
        ensures
            r@ == ValueV::Float(be_value(raw@) as u64),
    {
        proof {
            lemma_be_value_bound(raw@);
            assert(pow256(8) == 0x10000000000000000) by {
                reveal_with_fuel(pow256, 9);
            }
        }
        Float(be_decode(raw) as u64)
    }
}

impl DataValue for Float {
    fn data_type(&self) -> (t: Type) {
        Primitive::Float.to_rc()
    }

    fn raw(&self) -> (r: Vec<u8>) {
        be_encode(self.0 as u128, 8)
    }

    fn set(&mut self, raw: &[u8])
        ensures
            final(self)@ == (ValueV::Float(be_value(raw@) as u64)),
    {
        *self = Self::from(raw);
    }
}

/// A 64-bit signed integer, laid out big-endian in two's complement.
#[derive(Clone, Copy, Debug)]
pub struct Integer(pub i64);

impl View for Integer {
    type V = ValueV;

    open spec fn view(&self) -> ValueV {
        ValueV::Integer(self.0)
    }
}

impl Integer {
    pub fn new(value: i64) -> (r: Self)
        ensures
            r@ == ValueV::Integer(value),
    {
        Integer(value)
    }

    pub fn value(&self) -> (r: i64)
        ensures
            r == self@->Integer_0,
    {
        self.0
    }

    /// Wraps this integer as a value handle.
    pub fn to_cell(self) -> (r: ValueCell)
        ensures
            r@ == self@,
    {
        ValueCell::Integer(self)
    }

    /// Parses an integer off the front of the input: eight big-endian
    /// two's-complement bytes.
    pub fn parse(input: &[u8]) -> (r: Parsed<Self>)
        ensures
            match r.0 {
                Some(i) => input@.len() >= 8 && i@ == (ValueV::Integer(
                    bits_i64(be_value(input@.take(8))),
                )) && r.1@ == input@.skip(8),
                None => input@.len() < 8 && r.1@ == input@,
            },
    {
        let (head, rest) = parse_slice(input, 8);
        match head {
            Some(raw) => (Some(Self::from(raw)), rest),
            None => (None, input),
        }
    }

    /// Reads an integer from an eight-byte big-endian two's-complement
    /// buffer.
    pub fn from(raw: &[u8]) -> (r: Self)
        requires
            raw@.len() == 8,
        ensures
            r@ == ValueV::Integer(bits_i64(be_value(raw@))),
    {
        proof {
            lemma_be_value_bound(raw@);
            assert(pow256(8) == 0x10000000000000000) by {
                reveal_with_fuel(pow256, 9);
            }
        }
        let bits = be_decode(raw) as u64;
        let value = #[verifier::truncate] (bits as i64);
        proof {
            assert(bits < 0x8000000000000000 ==> (bits as i64) == bits) by (bit_vector);
            assert(bits >= 0x8000000000000000 ==> (#[verifier::truncate] (bits as i64)) as int
                == bits - 0x10000000000000000) by (bit_vector);
        }
        Integer(value)
    }
}

impl DataValue for Integer {
    fn data_type(&self) -> (t: Type) {
        Primitive::Integer.to_rc()
    }

    fn set(&mut self, raw: &[u8])
        ensures
            final(self)@ == (ValueV::Integer(bits_i64(be_value(raw@)))),
    {
        *self = Self::from(raw);
    }

    fn raw(&self) -> (r: Vec<u8>) {
        let bits = #[verifier::truncate] (self.0 as u64);
        proof {
            let x = self.0;
            assert(x >= 0 ==> (#[verifier::truncate] (x as u64)) == x) by (bit_vector);
            assert(x < 0 ==> (#[verifier::truncate] (x as u64)) as int == x
                + 0x10000000000000000) by (bit_vector);
        }
        be_encode(bits as u128, 8)
    }
}

} // verus!
