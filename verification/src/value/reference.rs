//! The reference value: an eight-byte address retaining a value of a known
//! type.  The address itself is opaque to the library; the pointee type is
//! carried for type checking alone.

use vstd::prelude::*;
use crate::encoding::{be_value, be_decode, be_encode, pow256, lemma_be_value_bound};
use crate::model::ValueV;
use crate::types::concept::{Type, type_view};
use crate::types::primitive::Primitive;
use crate::value::concept::{DataValue, ValueCell};

verus! {

/// A typed address.
#[derive(Debug)]
pub struct Reference {
    pub to_type: Type,
    pub address: u64,
}

impl View for Reference {
    type V = ValueV;

    open spec fn view(&self) -> ValueV {
        ValueV::Reference { to_type: type_view(self.to_type), address: self.address }
    }
}

impl Reference {
    pub fn new(to_type: Type, address: u64) -> (r: Self)
        ensures
            r@ == (ValueV::Reference { to_type: to_type@, address }),
    {
        Self { to_type, address }
    }

    pub fn get_address(&self) -> (r: u64)
        ensures
            r == self@->Reference_address,
    {
        self.address
    }

    /// Wraps this reference as a value handle.
    pub fn to_cell(self) -> (r: ValueCell)
        ensures
            r@ == self@,
    {
        ValueCell::Reference(self)
    }

    /// The type of the referenced value.
    pub fn referenced(&self) -> (r: &Type)
        ensures
            r@ == self@->Reference_to_type,
    {
        &self.to_type
    }

    /// Reads a reference to a value of type `t` from an eight-byte
    /// big-endian buffer.
    pub fn from(t: Type, raw: &[u8]) -> (r: Self)
        requires
            raw@.len() == 8,
        ensures
            r@ == (ValueV::Reference { to_type: t@, address: be_value(raw@) as u64 }),
    {
        proof {
            lemma_be_value_bound(raw@);
            assert(pow256(8) == 0x10000000000000000) by {
                reveal_with_fuel(pow256, 9);
            }
        }
        Self::new(t, be_decode(raw) as u64)
    }
}

impl Clone for Reference {
    fn clone(&self) -> (r: Self)
        ensures
            r@ == self@,
    {
        Reference { to_type: self.to_type.clone(), address: self.address }
    }
}

impl DataValue for Reference {
    fn data_type(&self) -> (t: Type) {
        Primitive::Reference(Box::new(self.to_type.clone())).to_rc()
    }

    fn raw(&self) -> (r: Vec<u8>) {
        be_encode(self.address as u128, 8)
    }

    fn set(&mut self, raw: &[u8])
        ensures
            final(self)@ == (ValueV::Reference {
                to_type: old(self)@->Reference_to_type,
                address: be_value(raw@) as u64,
            }),
    {
        proof {
            lemma_be_value_bound(raw@);
            assert(pow256(8) == 0x10000000000000000) by {
                reveal_with_fuel(pow256, 9);
            }
        }
        self.address = be_decode(raw) as u64;
    }
}

} // verus!
