//! The boolean value: one byte, zero for false, anything else for true.

use vstd::prelude::*;
use crate::parse::{Parsed, parse_slice};
use crate::model::{ValueV, value_raw};
use crate::types::concept::Type;
use crate::types::primitive::Primitive;
use crate::value::concept::{DataValue, ValueCell};

verus! {

/// A truth value.
#[derive(Clone, Copy, Debug)]
pub struct Boolean(pub bool);

impl View for Boolean {
    type V = ValueV;

    open spec fn view(&self) -> ValueV {
        ValueV::Boolean(self.0)
    }
}

impl Boolean {
    pub fn create_true() -> (r: Self)
        ensures
            r@ == ValueV::Boolean(true),
    {
        Boolean(true)
    }

    pub fn create_false() -> (r: Self)
        ensures
            r@ == ValueV::Boolean(false),
    {
        Boolean(false)
    }

    pub fn get(&self) -> (r: bool)
        ensures
            r == self@->Boolean_0,
    {
        self.0
    }

    /// Wraps this boolean as a value handle.
    pub fn to_cell(self) -> (r: ValueCell)
        ensures
            r@ == self@,
    {
        ValueCell::Boolean(self)
    }

    /// Parses a boolean off the front of the input: one byte, zero for
    /// false, anything else for true.
    pub fn parse(input: &[u8]) -> (r: Parsed<Self>)
        ensures
            match r.0 {
                Some(b) => input@.len() >= 1 && b@ == (ValueV::Boolean(input@[0] != 0)) && r.1@
                    == input@.skip(1),
                None => input@.len() < 1 && r.1@ == input@,
            },
    {
        let (head, rest) = parse_slice(input, 1);
        match head {
            Some(raw) => (Some(Self::from(raw)), rest),
            None => (None, input),
        }
    }

    /// Reads a boolean from the first byte of a buffer: zero is false,
    /// anything else true.
    pub fn from(raw: &[u8]) -> (r: Self)
        requires
            raw@.len() >= 1,
        ensures
            r@ == ValueV::Boolean(raw@[0] != 0),
    {
        Boolean(raw[0] != 0)
    }
}

impl DataValue for Boolean {
    fn data_type(&self) -> (t: Type) {
        Primitive::Boolean.to_rc()
    }

    fn raw(&self) -> (r: Vec<u8>) {
        let mut r: Vec<u8> = Vec::new();
        r.push(if self.0 {
            1u8
        } else {
            0u8
        });
        proof {
            assert(r@ =~= value_raw(self@));
        }
        r
    }

    fn set(&mut self, raw: &[u8])
        ensures
            final(self)@ == (ValueV::Boolean(raw@[0] != 0)),
    {
        *self = Self::from(raw);
    }
}

} // verus!
