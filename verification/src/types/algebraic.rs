//! The algebraic data types: [`SumType`] (one-of) and [`ProductType`]
//! (all-of), both built over a [`Tuple`] of member types.

use vstd::prelude::*;
use vstd::string::*;
use crate::model::{
    TypeV, ValueV, TypeErrorV, type_size, name_of, sizes_sum, sizes_max, decode_tuple,
    decode_sum, lemma_sizes_max_take,
};
use crate::types::concept::{DataType, Type, sum_view, product_view, types_view, size_of_type};
use crate::types::sequence::{Tuple, sum_size, join, clone_types, clone_type_slice, lemma_types_view_take};
use crate::value::concept::ValueCell;
use crate::value::error::TypeResult;
use crate::value::sequence::Sequence;
use crate::value::union::SumValue;

verus! {

/// A type whose value is of exactly one of its variants.
#[derive(Debug)]
pub struct SumType(pub Tuple);

impl View for SumType {
    type V = TypeV;

    open spec fn view(&self) -> TypeV {
        sum_view(*self)
    }
}

impl SumType {
    pub fn new(types: &[Type]) -> (r: Self)
        ensures
            r@ == TypeV::Sum(types_view(types@)),
    {
        SumType(clone_type_slice(types))
    }

    /// A copy of the member types.
    pub fn to_tuple(&self) -> (r: Tuple)
        ensures
            types_view(r@) == self@->Sum_0,
    {
        clone_types(&self.0)
    }

    /// The type at position `tag`, or nothing when the tag is out of range.
    pub fn variant(&self, tag: usize) -> (r: Option<Type>)
        ensures
            match r {
                Some(t) => tag < self@->Sum_0.len() && t@ == self@->Sum_0[tag as int],
                None => tag >= self@->Sum_0.len(),
            },
    {
        proof {
            lemma_types_view_take(self.0@, 0);
        }
        if tag < self.0.len() {
            proof {
                lemma_types_view_take(self.0@, tag as int);
            }
            Some(self.0[tag].clone())
        } else {
            None
        }
    }

    /// Wraps this sum as a shared type handle.
    pub fn to_rc(self) -> (r: Type)
        ensures
            r@ == self@,
    {
        Type::Sum(self)
    }
}

impl Clone for SumType {
    fn clone(&self) -> (r: Self)
        ensures
            r@ == self@,
    {
        SumType(clone_types(&self.0))
    }
}

/// The layout size of a sum type: its largest variant's size, zero with no
/// variants.
pub fn sum_type_size(s: &SumType) -> (r: usize)
    requires
        type_size(s@) <= usize::MAX,
    ensures
        r == type_size(s@),
    decreases *s,
{
    let ghost full = types_view(s.0@);
    let mut r: usize = 0;
    let mut i: usize = 0;
    proof {
        crate::types::sequence::lemma_types_view_len(s.0@);
        assert(full.take(0) =~= Seq::<TypeV>::empty());
    }
    while i < s.0.len()
        invariant
            i <= s.0@.len(),
            full == types_view(s.0@),
            full.len() == s.0@.len(),
            sizes_max(full) <= usize::MAX,
            r == sizes_max(full.take(i as int)),
        decreases s.0@.len() - i,
    {
        proof {
            lemma_types_view_take(s.0@, i as int);
            lemma_sizes_max_take(full, i as int);
            lemma_sizes_max_take(full, i as int + 1);
        }
        let next = size_of_type(&s.0[i]);
        if next > r {
            r = next;
        }
        i = i + 1;
    }
    proof {
        assert(full.take(s.0@.len() as int) =~= full);
    }
    r
}

/// The canonical name of a sum type.
pub fn sum_type_name(s: &SumType) -> (r: String)
    ensures
        r@ == name_of(s@),
    decreases *s,
{
    let mut r = String::from_str("<");
    r.append(join(&s.0, "|").as_str());
    r.append(">");
    proof {
        assert(r@ =~= name_of(s@));
    }
    r
}

/// The canonical name of a product type.
pub fn product_type_name(p: &ProductType) -> (r: String)
    ensures
        r@ == name_of(p@),
    decreases *p,
{
    let mut r = String::from_str("<");
    r.append(join(&p.0, "&").as_str());
    r.append(">");
    proof {
        assert(r@ =~= name_of(p@));
    }
    r
}

impl DataType for SumType {
    fn size(&self) -> (r: usize) {
        sum_type_size(self)
    }

    fn typename(&self) -> (r: String) {
        sum_type_name(self)
    }

    fn construct_from_raw(&self, raw: &[u8]) -> (r: TypeResult<ValueCell>) {
        proof {
            assert(crate::model::decode(self@, raw@) == decode_sum(types_view(self.0@), raw@));
            assert(type_size(self@) == sizes_max(types_view(self.0@)));
        }
        match SumValue::from(self.clone(), raw) {
            Ok(sv) => Ok(sv.to_cell()),
            Err(e) => Err(e),
        }
    }
}

/// A type with a value for each one of its member types.
#[derive(Debug)]
pub struct ProductType(pub Tuple);

impl View for ProductType {
    type V = TypeV;

    open spec fn view(&self) -> TypeV {
        product_view(*self)
    }
}

impl ProductType {
    /// The unit type: the empty product, with one trivial inhabitant of size
    /// zero.
    pub fn unit_type() -> (r: Self)
        ensures
            r@ == TypeV::Product(Seq::<TypeV>::empty()),
    {
        let r = ProductType(Vec::new());
        proof {
            assert(types_view(r.0@) =~= Seq::<TypeV>::empty());
        }
        r
    }

    pub fn new(types: &[Type]) -> (r: Self)
        ensures
            r@ == TypeV::Product(types_view(types@)),
    {
        ProductType(clone_type_slice(types))
    }

    /// A copy of the member types.
    pub fn to_tuple(&self) -> (r: Tuple)
        ensures
            types_view(r@) == self@->Product_0,
    {
        clone_types(&self.0)
    }

    /// Whether this is the unit type.
    pub fn is_unit_type(&self) -> (r: bool)
        ensures
            r == (self@->Product_0.len() == 0),
    {
        proof {
            lemma_types_view_take(self.0@, 0);
        }
        self.0.len() == 0
    }

    /// The field type at the given position, or nothing when out of range.
    pub fn field(&self, index: usize) -> (r: Option<Type>)
        ensures
            match r {
                Some(t) => index < self@->Product_0.len() && t@ == self@->Product_0[index as int],
                None => index >= self@->Product_0.len(),
            },
    {
        proof {
            lemma_types_view_take(self.0@, 0);
        }
        if index < self.0.len() {
            proof {
                lemma_types_view_take(self.0@, index as int);
            }
            Some(self.0[index].clone())
        } else {
            None
        }
    }

    /// Wraps this product as a shared type handle.
    pub fn to_rc(self) -> (r: Type)
        ensures
            r@ == self@,
    {
        Type::Product(self)
    }
}

impl Clone for ProductType {
    fn clone(&self) -> (r: Self)
        ensures
            r@ == self@,
    {
        ProductType(clone_types(&self.0))
    }
}

impl DataType for ProductType {
    fn size(&self) -> (r: usize) {
        sum_size(&self.0)
    }

    fn typename(&self) -> (r: String) {
        product_type_name(self)
    }

    fn construct_from_raw(&self, raw: &[u8]) -> (r: TypeResult<ValueCell>) {
        proof {
            assert(crate::model::decode(self@, raw@) == decode_tuple(types_view(self.0@), raw@));
            assert(type_size(self@) == sizes_sum(types_view(self.0@)));
        }
        match Sequence::from(self.to_tuple(), raw) {
            Ok(s) => Ok(s.to_cell()),
            Err(e) => Err(e),
        }
    }
}

/// The `never` type: the empty sum, with no inhabitant.
pub fn bottom_type() -> (r: Type)
    ensures
        r@ == TypeV::Sum(Seq::<TypeV>::empty()),
{
    let r = SumType::new(&[]);
    r.to_rc()
}

} // verus!
