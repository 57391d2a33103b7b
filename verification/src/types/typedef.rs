//! The named types: a [`Structure`] is an identified product with labelled
//! fields, an [`Enumeration`] an identified sum with labelled variants.
//!
//! From the outside a named type is nominal: its name is its identifier's
//! rendering, whatever its members; the members are still checked
//! structurally.

use vstd::prelude::*;
use crate::identity::{Identified, Identifier, Label, LabelBank, Labelled, bank_lookup, split_ident};
use crate::model::TypeV;
use crate::value::concept::ValueCell;
use crate::value::error::TypeResult;
use crate::value::record::Record;
use crate::value::union::Union;
use crate::types::algebraic::{ProductType, SumType, sum_type_size};
use crate::types::sequence::sum_size;
use crate::types::concept::{DataType, Type, structure_view, enumeration_view};

verus! {

/// A named product type with labelled fields.
#[derive(Debug)]
pub struct Structure {
    pub identifier: Identifier,
    pub labels: LabelBank,
    pub product_type: ProductType,
}

impl View for Structure {
    type V = TypeV;

    open spec fn view(&self) -> TypeV {
        structure_view(*self)
    }
}

impl Structure {
    /// Names a product type, parsing `identifier` as an
    /// [`Identifier`] and banking the field labels.
    pub fn new(identifier: &str, labels: LabelBank, fields: ProductType) -> (r: Self)
        ensures
            r@ == (TypeV::Structure {
                identifier: split_ident(identifier@),
                labels: labels@,
                product: Box::new(fields@),
            }),
    {
        Structure { identifier: Identifier::new(identifier), labels, product_type: fields }
    }

    /// Wraps this structure as a shared type handle.
    pub fn to_rc(self) -> (r: Type)
        ensures
            r@ == self@,
    {
        Type::Structure(self)
    }
}

impl Clone for Structure {
    fn clone(&self) -> (r: Self)
        ensures
            r@ == self@,
    {
        Structure {
            identifier: self.identifier.clone(),
            labels: self.labels.clone(),
            product_type: self.product_type.clone(),
        }
    }
}

impl DataType for Structure {
    fn size(&self) -> (r: usize) {
        proof {
            assert(crate::model::type_size(self@) == crate::model::type_size(
                crate::types::concept::product_view(self.product_type),
            ));
            assert(crate::model::type_size(
                crate::types::concept::product_view(self.product_type),
            ) == crate::model::sizes_sum(
                crate::types::concept::types_view(self.product_type.0@),
            ));
        }
        sum_size(&self.product_type.0)
    }

    fn typename(&self) -> (r: String) {
        self.identifier.to_text()
    }

    fn construct_from_raw(&self, raw: &[u8]) -> (r: TypeResult<ValueCell>) {
        proof {
            assert(crate::model::type_size(self@) == crate::model::type_size(
                crate::types::concept::product_view(self.product_type),
            ));
            assert(crate::model::type_size(
                crate::types::concept::product_view(self.product_type),
            ) == crate::model::sizes_sum(
                crate::types::concept::types_view(self.product_type.0@),
            ));
        }
        match Record::from(self.clone(), raw) {
            Ok(rec) => Ok(rec.to_cell()),
            Err(e) => Err(e),
        }
    }
}

impl Identified for Structure {
    open spec fn spec_identifier(&self) -> crate::model::IdentV {
        self.identifier@
    }

    fn identifier(&self) -> (r: Identifier) {
        self.identifier.clone()
    }
}

impl Labelled<Type> for Structure {
    /// Resolves a field label through the bank to the field's type.
    fn labelled(&self, label: &Label) -> (r: Option<Type>)
        ensures
            match r {
                Some(t) => {
                    &&& bank_lookup(self.labels@, label@) matches Some(i)
                    &&& 0 <= i < self@->Structure_product->Product_0.len()
                    &&& t@ == self@->Structure_product->Product_0[i]
                },
                None => match bank_lookup(self.labels@, label@) {
                    Some(i) => i >= self@->Structure_product->Product_0.len(),
                    None => true,
                },
            },
    {
        match self.labels.labelled(label) {
            Some(index) => self.product_type.field(index),
            None => None,
        }
    }
}

/// A named sum type with labelled variants.
#[derive(Debug)]
pub struct Enumeration {
    pub identifier: Identifier,
    pub labels: LabelBank,
    pub sum_type: SumType,
}

impl View for Enumeration {
    type V = TypeV;

    open spec fn view(&self) -> TypeV {
        enumeration_view(*self)
    }
}

impl Enumeration {
    /// Names a sum type, parsing `identifier` as an [`Identifier`] and
    /// banking the variant labels.
    pub fn new(identifier: &str, labels: LabelBank, sum_type: SumType) -> (r: Self)
        ensures
            r@ == (TypeV::Enumeration {
                identifier: split_ident(identifier@),
                labels: labels@,
                sum: Box::new(sum_type@),
            }),
    {
        Enumeration { identifier: Identifier::new(identifier), labels, sum_type }
    }

    /// The variant type at position `tag`, or nothing when out of range.
    pub fn variant(&self, tag: usize) -> (r: Option<Type>)
        ensures
            match r {
                Some(t) => tag < self@->Enumeration_sum->Sum_0.len() && t@
                    == self@->Enumeration_sum->Sum_0[tag as int],
                None => tag >= self@->Enumeration_sum->Sum_0.len(),
            },
    {
        self.sum_type.variant(tag)
    }

    /// Wraps this enumeration as a shared type handle.
    pub fn to_rc(self) -> (r: Type)
        ensures
            r@ == self@,
    {
        Type::Enumeration(self)
    }
}

impl Clone for Enumeration {
    fn clone(&self) -> (r: Self)
        ensures
            r@ == self@,
    {
        Enumeration {
            identifier: self.identifier.clone(),
            labels: self.labels.clone(),
            sum_type: self.sum_type.clone(),
        }
    }
}

impl DataType for Enumeration {
    fn size(&self) -> (r: usize) {
        proof {
            assert(crate::model::type_size(self@) == crate::model::type_size(
                crate::types::concept::sum_view(self.sum_type),
            ));
        }
        sum_type_size(&self.sum_type)
    }

    fn typename(&self) -> (r: String) {
        self.identifier.to_text()
    }

    fn construct_from_raw(&self, raw: &[u8]) -> (r: TypeResult<ValueCell>) {
        proof {
            assert(crate::model::type_size(self@) == crate::model::type_size(
                crate::types::concept::sum_view(self.sum_type),
            ));
        }
        match Union::from(self.clone(), raw) {
            Ok(u) => Ok(u.to_cell()),
            Err(e) => Err(e),
        }
    }
}

impl Identified for Enumeration {
    open spec fn spec_identifier(&self) -> crate::model::IdentV {
        self.identifier@
    }

    fn identifier(&self) -> (r: Identifier) {
        self.identifier.clone()
    }
}

impl Labelled<Type> for Enumeration {
    /// Resolves a variant label through the bank to the variant's type.
    fn labelled(&self, label: &Label) -> (r: Option<Type>)
        ensures
            match r {
                Some(t) => {
                    &&& bank_lookup(self.labels@, label@) matches Some(i)
                    &&& 0 <= i < self@->Enumeration_sum->Sum_0.len()
                    &&& t@ == self@->Enumeration_sum->Sum_0[i]
                },
                None => match bank_lookup(self.labels@, label@) {
                    Some(i) => i >= self@->Enumeration_sum->Sum_0.len(),
                    None => true,
                },
            },
    {
        match self.labels.labelled(label) {
            Some(index) => self.variant(index),
            None => None,
        }
    }
}

} // verus!
