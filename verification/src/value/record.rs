//! Product values and records: the value forms of [`ProductType`] and
//! [`Structure`].

use vstd::prelude::*;
use crate::identity::{Label, Labelled, bank_lookup};
use crate::model::{ValueV, TypeErrorV, validated_sequence, decode, decode_tuple, sizes_sum, set_ok, after_set};
use crate::types::concept::{DataType, Type, types_view, product_view, structure_view};
use crate::types::algebraic::ProductType;
use crate::types::typedef::Structure;
use crate::value::concept::{DataValue, ValueCell, values_view, lemma_values_view_take};
use crate::value::error::TypeResult;
use crate::value::sequence::{Sequence, sequence_set};
use crate::value::concept::{product_value_view, record_view, sequence_value_view};

verus! {

/// The value of a product type: one member value per member type.
#[derive(Debug)]
pub struct ProductValue {
    pub product: ProductType,
    pub value: Sequence,
}

impl View for ProductValue {
    type V = ValueV;

    open spec fn view(&self) -> ValueV {
        crate::value::concept::product_value_view(*self)
    }
}

impl ProductValue {
    /// Assembles a product value, validating the members as
    /// [`Sequence::new`] does.
    pub fn new(product: ProductType, values: &[ValueCell]) -> (r: TypeResult<Self>)
        ensures
            match r {
                Ok(pv) => match validated_sequence(product@->Product_0, values_view(values@)) {
                    Ok(s) => pv@ == (ValueV::Product {
                        types: product@->Product_0,
                        value: Box::new(s),
                    }),
                    Err(_) => false,
                },
                Err(e) => validated_sequence(product@->Product_0, values_view(values@))
                    == Err::<ValueV, TypeErrorV>(e@),
            },
    {
        let sequence = product.to_tuple();
        match Sequence::new(sequence, values) {
            Ok(s) => Ok(ProductValue { product, value: s }),
            Err(e) => Err(e),
        }
    }

    /// The member sequence, consuming the product value.
    pub fn to_sequence(self) -> (r: Sequence)
        ensures
            self@ matches ValueV::Product { value, .. } && r@ == *value,
    {
        self.value
    }

    /// A copy of the member sequence.
    pub fn clone_sequence(&self) -> (r: Sequence)
        ensures
            self@ matches ValueV::Product { value, .. } && r@ == *value,
    {
        self.value.clone()
    }

    /// The member sequence, borrowed.
    pub fn as_sequence(&self) -> (r: &Sequence)
        ensures
            self@ matches ValueV::Product { value, .. } && r@ == *value,
    {
        &self.value
    }

    /// A copy of the member at the given position, or nothing when out of
    /// range.
    pub fn get_element(&self, nth: usize) -> (r: Option<ValueCell>)
        ensures
            match r {
                Some(v) => {
                    &&& self@ matches ValueV::Product { value, .. }
                    &&& *value matches ValueV::Sequence { values, .. }
                    &&& nth < values.len() && v@ == values[nth as int]
                },
                None => {
                    &&& self@ matches ValueV::Product { value, .. }
                    &&& *value matches ValueV::Sequence { values, .. }
                    &&& nth >= values.len()
                },
            },
    {
        proof {
            lemma_values_view_take(self.value.values@, 0);
        }
        if nth < self.value.values.len() {
            proof {
                lemma_values_view_take(self.value.values@, nth as int);
            }
            Some(self.value.values[nth].clone())
        } else {
            None
        }
    }

    /// Wraps this product value as a value handle.
    pub fn to_cell(self) -> (r: ValueCell)
        ensures
            r@ == self@,
    {
        ValueCell::Product(self)
    }

    /// Decodes a product value from a buffer, reading the member sequence as
    /// [`Sequence::from`] does.
    pub fn from(product: ProductType, raw: &[u8]) -> (r: TypeResult<Self>)
        requires
            sizes_sum(types_view(product.0@)) <= usize::MAX,
        ensures
            match r {
                Ok(pv) => decode_tuple(types_view(product.0@), raw@) matches Ok(s) && pv@ == (
                ValueV::Product { types: types_view(product.0@), value: Box::new(s) }),
                Err(e) => decode_tuple(types_view(product.0@), raw@) == Err::<
                    ValueV,
                    TypeErrorV,
                >(e@),
            },
        decreases types_view(product.0@), 4nat,
    {
        let tuple = product.to_tuple();
        match Sequence::from(tuple, raw) {
            Ok(s) => Ok(ProductValue { product, value: s }),
            Err(e) => Err(e),
        }
    }
}

impl Clone for ProductValue {
    fn clone(&self) -> (r: Self)
        ensures
            r@ == self@,
    {
        ProductValue { product: self.product.clone(), value: self.value.clone() }
    }
}

impl DataValue for ProductValue {
    fn data_type(&self) -> (t: Type) {
        Type::Product(self.product.clone())
    }

    fn raw(&self) -> (r: Vec<u8>) {
        self.value.raw()
    }

    fn set(&mut self, raw: &[u8])
        ensures
            final(self)@ == after_set(old(self)@, raw@),
    {
        product_set(self, raw)
    }
}

/// Refreshes a product value in place, refreshing its member sequence as
/// [`sequence_set`] does.
pub fn product_set(p: &mut ProductValue, raw: &[u8])
    requires
        set_ok(old(p)@, raw@),
    ensures
        final(p)@ == after_set(old(p)@, raw@),
    decreases product_value_view(*old(p)), 1nat,
{
    proof {
        assert(set_ok(old(p)@, raw@) == set_ok(sequence_value_view(old(p).value), raw@));
    }
    sequence_set(&mut p.value, raw);
    proof {
        assert(after_set(old(p)@, raw@) == (ValueV::Product {
            types: crate::types::concept::types_view(old(p).product.0@),
            value: Box::new(after_set(sequence_value_view(old(p).value), raw@)),
        }));
    }
}

/// Refreshes a record in place, refreshing its field sequence as
/// [`sequence_set`] does.
pub fn record_set(r: &mut Record, raw: &[u8])
    requires
        set_ok(old(r)@, raw@),
    ensures
        final(r)@ == after_set(old(r)@, raw@),
    decreases record_view(*old(r)), 1nat,
{
    proof {
        assert(set_ok(old(r)@, raw@) == set_ok(product_value_view(old(r).value), raw@));
        assert(set_ok(product_value_view(old(r).value), raw@) == set_ok(
            sequence_value_view(old(r).value.value),
            raw@,
        ));
    }
    sequence_set(&mut r.value.value, raw);
    proof {
        assert(after_set(product_value_view(old(r).value), raw@) == (ValueV::Product {
            types: crate::types::concept::types_view(old(r).value.product.0@),
            value: Box::new(after_set(sequence_value_view(old(r).value.value), raw@)),
        }));
        assert(after_set(old(r)@, raw@) == (ValueV::Record {
            structure: crate::types::concept::structure_view(old(r).of_type),
            value: Box::new(after_set(product_value_view(old(r).value), raw@)),
        }));
    }
}

/// The value of a [`Structure`]: a labelled product value.
#[derive(Debug)]
pub struct Record {
    pub of_type: Structure,
    pub value: ProductValue,
}

impl View for Record {
    type V = ValueV;

    open spec fn view(&self) -> ValueV {
        crate::value::concept::record_view(*self)
    }
}

impl Record {
    /// Assembles a record of the given structure, validating the field
    /// values as [`Sequence::new`] does.
    pub fn new(structure_type: Structure, values: &[ValueCell]) -> (r: TypeResult<Self>)
        ensures
            match r {
                Ok(rec) => match validated_sequence(
                    structure_type@->Structure_product->Product_0,
                    values_view(values@),
                ) {
                    Ok(s) => rec@ == (ValueV::Record {
                        structure: structure_type@,
                        value: Box::new(
                            ValueV::Product {
                                types: structure_type@->Structure_product->Product_0,
                                value: Box::new(s),
                            },
                        ),
                    }),
                    Err(_) => false,
                },
                Err(e) => validated_sequence(
                    structure_type@->Structure_product->Product_0,
                    values_view(values@),
                ) == Err::<ValueV, TypeErrorV>(e@),
            },
    {
        let product = structure_type.product_type.clone();
        match ProductValue::new(product, values) {
            Ok(pv) => Ok(Record { of_type: structure_type, value: pv }),
            Err(e) => Err(e),
        }
    }

    /// Wraps this record as a value handle.
    pub fn to_cell(self) -> (r: ValueCell)
        ensures
            r@ == self@,
    {
        ValueCell::Record(self)
    }

    /// The field sequence, consuming the record.
    pub fn to_sequence(self) -> (r: Sequence)
        ensures
            self@ matches ValueV::Record { value, .. } && *value matches ValueV::Product {
                value: inner,
                ..
            } && r@ == *inner,
    {
        self.value.to_sequence()
    }

    /// A copy of the field sequence.
    pub fn clone_sequence(&self) -> (r: Sequence)
        ensures
            self@ matches ValueV::Record { value, .. } && *value matches ValueV::Product {
                value: inner,
                ..
            } && r@ == *inner,
    {
        self.value.clone_sequence()
    }

    /// The field sequence, borrowed.
    pub fn as_sequence(&self) -> (r: &Sequence)
        ensures
            self@ matches ValueV::Record { value, .. } && *value matches ValueV::Product {
                value: inner,
                ..
            } && r@ == *inner,
    {
        self.value.as_sequence()
    }

    /// Decodes a record from a buffer, reading the field sequence as
    /// [`Sequence::from`] does.
    pub fn from(structure_type: Structure, raw: &[u8]) -> (r: TypeResult<Self>)
        requires
            sizes_sum(types_view(structure_type.product_type.0@)) <= usize::MAX,
        ensures
            match r {
                Ok(rec) => decode(structure_type@, raw@) == Ok::<ValueV, TypeErrorV>(rec@),
                Err(e) => decode(structure_type@, raw@) == Err::<ValueV, TypeErrorV>(e@),
            },
        decreases types_view(structure_type.product_type.0@), 5nat,
    {
        proof {
            assert(structure_type@ == structure_view(structure_type));
            assert(structure_view(structure_type)->Structure_product == Box::new(
                product_view(structure_type.product_type),
            ));
        }
        let product = structure_type.product_type.clone();
        match ProductValue::from(product, raw) {
            Ok(pv) => Ok(Record { of_type: structure_type, value: pv }),
            Err(e) => Err(e),
        }
    }

    /// A copy of the field at the given position, or nothing when out of
    /// range.
    pub fn get_field(&self, field: usize) -> (r: Option<ValueCell>)
        ensures
            match r {
                Some(v) => {
                    &&& self@ matches ValueV::Record { value, .. }
                    &&& *value matches ValueV::Product { value: inner, .. }
                    &&& *inner matches ValueV::Sequence { values, .. }
                    &&& field < values.len() && v@ == values[field as int]
                },
                None => {
                    &&& self@ matches ValueV::Record { value, .. }
                    &&& *value matches ValueV::Product { value: inner, .. }
                    &&& *inner matches ValueV::Sequence { values, .. }
                    &&& field >= values.len()
                },
            },
    {
        self.value.get_element(field)
    }

    /// A copy of the field under the given name, or nothing when the name
    /// is unknown or its position out of range.
    pub fn field_from_name(&self, field: &str) -> (r: Option<ValueCell>)
        ensures
            match r {
                Some(v) => {
                    &&& self@ matches ValueV::Record { value, .. }
                    &&& *value matches ValueV::Product { value: inner, .. }
                    &&& *inner matches ValueV::Sequence { values, .. }
                    &&& bank_lookup(self.of_type.labels@, field@) matches Some(i)
                    &&& 0 <= i < values.len() && v@ == values[i]
                },
                None => {
                    &&& self@ matches ValueV::Record { value, .. }
                    &&& *value matches ValueV::Product { value: inner, .. }
                    &&& *inner matches ValueV::Sequence { values, .. }
                    &&& match bank_lookup(self.of_type.labels@, field@) {
                        Some(i) => i >= values.len(),
                        None => true,
                    }
                },
            },
    {
        self.labelled(&Label::new(field))
    }
}

impl Clone for Record {
    fn clone(&self) -> (r: Self)
        ensures
            r@ == self@,
    {
        Record { of_type: self.of_type.clone(), value: self.value.clone() }
    }
}

impl Labelled<ValueCell> for Record {
    /// Resolves a field label through the structure's bank to a copy of the
    /// field value.
    fn labelled(&self, label: &Label) -> (r: Option<ValueCell>)
        ensures
            match r {
                Some(v) => {
                    &&& self@ matches ValueV::Record { value, .. }
                    &&& *value matches ValueV::Product { value: inner, .. }
                    &&& *inner matches ValueV::Sequence { values, .. }
                    &&& bank_lookup(self.of_type.labels@, label@) matches Some(i)
                    &&& 0 <= i < values.len() && v@ == values[i]
                },
                None => {
                    &&& self@ matches ValueV::Record { value, .. }
                    &&& *value matches ValueV::Product { value: inner, .. }
                    &&& *inner matches ValueV::Sequence { values, .. }
                    &&& match bank_lookup(self.of_type.labels@, label@) {
                        Some(i) => i >= values.len(),
                        None => true,
                    }
                },
            },
    {
        match self.of_type.labels.labelled(label) {
            Some(index) => self.get_field(index),
            None => None,
        }
    }
}

impl DataValue for Record {
    fn data_type(&self) -> (t: Type) {
        Type::Structure(self.of_type.clone())
    }

    fn raw(&self) -> (r: Vec<u8>) {
        self.value.raw()
    }

    fn set(&mut self, raw: &[u8])
        ensures
            final(self)@ == after_set(old(self)@, raw@),
    {
        record_set(self, raw)
    }
}

} // verus!
