//! Sum values and unions: the value forms of [`SumType`] and
//! [`Enumeration`].  A sum value is one active value together with the tag
//! naming the variant it claims to be.

use vstd::prelude::*;
use vstd::slice::slice_subrange;
use crate::encoding::{be_bytes, be_encode, be_decode, pow256, lemma_be_value_bound};
use crate::model::{
    ValueV, TypeErrorV, value_raw, sum_new, decode, decode_sum, type_size, sizes_max,
    set_ok, after_set, lemma_sizes_max_take,
};
use crate::types::concept::{DataType, Type, types_view, sum_view, enumeration_view, construct_of_type};
use crate::types::sequence::lemma_types_view_take;
use crate::types::algebraic::SumType;
use crate::types::typedef::Enumeration;
use crate::value::concept::{DataValue, ValueCell, cell_raw, clone_cell, cell_set, sum_value_view};
use crate::value::error::{CanTypeError, SumTypeError, TypeError, TypeResult};

verus! {

/// The value of a sum type: the active value and its claimed tag.
#[derive(Debug)]
pub struct SumValue {
    pub sum: SumType,
    pub value: Box<ValueCell>,
    pub tag: usize,
}

impl View for SumValue {
    type V = ValueV;

    open spec fn view(&self) -> ValueV {
        crate::value::concept::sum_value_view(*self)
    }
}

impl SumValue {
    /// Assembles a sum value: the tag must select a variant and the value's
    /// type name must match that variant's name.
    pub fn new(sum: SumType, tag: usize, value: ValueCell) -> (r: TypeResult<Self>)
        ensures
            match r {
                Ok(sv) => sum_new(sum@->Sum_0, tag as nat, value@) == Ok::<ValueV, TypeErrorV>(
                    sv@,
                ),
                Err(e) => sum_new(sum@->Sum_0, tag as nat, value@) == Err::<ValueV, TypeErrorV>(
                    e@,
                ),
            },
    {
        let provided_type = crate::value::concept::cell_data_type(&value);
        match sum.variant(tag) {
            Some(expected_type) => {
                if crate::types::concept::typename_of(&expected_type)
                    == crate::types::concept::typename_of(&provided_type) {
                    Ok(Self { sum, value: Box::new(value), tag })
                } else {
                    Err(
                        SumTypeError::InvalidTag {
                            expected_type,
                            provided_type,
                            provided_tag: tag,
                        }.promote(),
                    )
                }
            },
            None => Err(SumTypeError::InvalidCase { provided_type }.promote()),
        }
    }

    /// The declared type of the active variant.
    pub fn current_type(&self) -> (t: Type)
        requires
            self@->Sum_tag < self@->Sum_variants.len(),
        ensures
            t@ == self@->Sum_variants[self@->Sum_tag as int],
    {
        match self.sum.variant(self.tag) {
            Some(t) => t,
            None => vstd::pervasive::unreached(),
        }
    }

    /// The active value, borrowed.
    pub fn current_value(&self) -> (r: &ValueCell)
        ensures
            r@ == *self@->Sum_value,
    {
        &*self.value
    }

    /// The claimed tag.
    pub fn tag(&self) -> (r: usize)
        ensures
            r == self@->Sum_tag,
    {
        self.tag
    }

    /// Replaces tag and value together: either both change and the result
    /// is validly tagged, or an error returns and nothing changes.
    pub fn set_cell(&mut self, tag: usize, new_value: ValueCell) -> (r: CanTypeError)
        ensures
            match r {
                Ok(_) => match sum_new(old(self)@->Sum_variants, tag as nat, new_value@) {
                    Ok(sv) => final(self)@ == sv,
                    Err(_) => false,
                },
                Err(e) => {
                    &&& sum_new(old(self)@->Sum_variants, tag as nat, new_value@)
                        == Err::<ValueV, TypeErrorV>(e@)
                    &&& final(self)@ == old(self)@
                },
            },
    {
        match Self::new(self.sum.clone(), tag, new_value) {
            Ok(sv) => {
                *self = sv;
                Ok(())
            },
            Err(e) => Err(e),
        }
    }

    /// Wraps this sum value as a value handle.
    pub fn to_cell(self) -> (r: ValueCell)
        ensures
            r@ == self@,
    {
        ValueCell::Sum(self)
    }

    /// Decodes a sum value from a buffer: an eight-byte big-endian tag that
    /// must select a variant, then exactly that variant's bytes.
    pub fn from(t: SumType, raw: &[u8]) -> (r: TypeResult<Self>)
        requires
            sizes_max(types_view(t.0@)) <= usize::MAX,
        ensures
            match r {
                Ok(sv) => decode_sum(types_view(t.0@), raw@) == Ok::<ValueV, TypeErrorV>(sv@),
                Err(e) => decode_sum(types_view(t.0@), raw@) == Err::<ValueV, TypeErrorV>(e@),
            },
        decreases types_view(t.0@), 2nat,
    {
        let ghost ts = types_view(t.0@);
        proof {
            crate::types::sequence::lemma_types_view_len(t.0@);
        }
        if raw.len() < 8 {
            return Err(
                TypeError::InvalidType {
                    expected: Type::Sum(t),
                    provided: crate::types::primitive::Primitive::Bytes(raw.len()).to_rc(),
                },
            );
        }
        let tag_bytes = slice_subrange(raw, 0, 8);
        let tag64 = be_decode(tag_bytes);
        proof {
            lemma_be_value_bound(tag_bytes@);
            assert(pow256(8) == 0x10000000000000000) by {
                reveal_with_fuel(pow256, 9);
            }
        }
        if tag64 >= t.0.len() as u128 {
            return Err(SumTypeError::InvalidCase { provided_type: Type::Sum(t) }.promote());
        }
        let tag = tag64 as usize;
        let variant_type = match t.variant(tag) {
            Some(vt) => vt,
            None => vstd::pervasive::unreached(),
        };
        proof {
            lemma_types_view_take(t.0@, tag as int);
            lemma_sizes_max_take(ts, tag as int);
            lemma_sizes_max_take(ts, tag as int + 1);
            assert(type_size(ts[tag as int]) <= sizes_max(ts));
        }
        let rest = slice_subrange(raw, 8, raw.len());
        proof {
            assert(rest@ =~= raw@.subrange(8, raw@.len() as int));
        }
        let value = match construct_of_type(&variant_type, rest) {
            Ok(v) => v,
            Err(e) => {
                return Err(e);
            },
        };
        Self::new(t, tag, value)
    }
}

impl Clone for SumValue {
    fn clone(&self) -> (r: Self)
        ensures
            r@ == self@,
    {
        SumValue {
            sum: self.sum.clone(),
            value: Box::new(clone_cell(&*self.value)),
            tag: self.tag,
        }
    }
}

/// The byte image of a sum value: the eight-byte big-endian tag, then the
/// active value's bytes.
pub fn sum_value_raw(s: &SumValue) -> (r: Vec<u8>)
    ensures
        r@ == value_raw(s@),
    decreases *s,
{
    let mut r = be_encode(s.tag as u128, 8);
    let mut rest = cell_raw(&*s.value);
    r.append(&mut rest);
    proof {
        assert(be_bytes(s.tag as nat, 8) + value_raw((*s.value)@) == value_raw(s@));
    }
    r
}

/// Refreshes a sum value in place: the whole buffer refreshes the active
/// value; the tag stays untouched.
pub fn sum_set(s: &mut SumValue, raw: &[u8])
    requires
        set_ok(old(s)@, raw@),
    ensures
        final(s)@ == after_set(old(s)@, raw@),
    decreases sum_value_view(*old(s)), 1nat,
{
    cell_set(&mut *s.value, raw);
}

impl DataValue for SumValue {
    fn data_type(&self) -> (t: Type) {
        Type::Sum(self.sum.clone())
    }

    fn raw(&self) -> (r: Vec<u8>) {
        sum_value_raw(self)
    }

    fn set(&mut self, raw: &[u8])
        ensures
            final(self)@ == after_set(old(self)@, raw@),
    {
        sum_set(self, raw)
    }
}

/// The value of an [`Enumeration`]: a labelled sum value.
#[derive(Debug)]
pub struct Union {
    pub of_type: Enumeration,
    pub value: SumValue,
}

impl View for Union {
    type V = ValueV;

    open spec fn view(&self) -> ValueV {
        crate::value::concept::union_view(*self)
    }
}

impl Union {
    /// Assembles a union of the given enumeration, validating tag and value
    /// as [`SumValue::new`] does.
    pub fn new(union: Enumeration, tag: usize, value: ValueCell) -> (r: TypeResult<Self>)
        ensures
            match r {
                Ok(u) => match sum_new(union@->Enumeration_sum->Sum_0, tag as nat, value@) {
                    Ok(sv) => u@ == (ValueV::Union {
                        enumeration: union@,
                        value: Box::new(sv),
                    }),
                    Err(_) => false,
                },
                Err(e) => sum_new(union@->Enumeration_sum->Sum_0, tag as nat, value@)
                    == Err::<ValueV, TypeErrorV>(e@),
            },
    {
        let sum = union.sum_type.clone();
        match SumValue::new(sum, tag, value) {
            Ok(sv) => Ok(Self { of_type: union, value: sv }),
            Err(e) => Err(e),
        }
    }

    /// The declared type of the active variant.
    pub fn current_type(&self) -> (t: Type)
        requires
            *self@->Union_value matches ValueV::Sum { variants, tag, .. } && tag < variants.len(),
        ensures
            *self@->Union_value matches ValueV::Sum { variants, tag, .. } && t@ == variants[
                tag as int
            ],
    {
        self.value.current_type()
    }

    /// The active value, borrowed.
    pub fn current_value(&self) -> (r: &ValueCell)
        ensures
            *self@->Union_value matches ValueV::Sum { value, .. } && r@ == *value,
    {
        self.value.current_value()
    }

    /// The claimed tag.
    pub fn tag(&self) -> (r: usize)
        ensures
            *self@->Union_value matches ValueV::Sum { tag, .. } && r == tag,
    {
        self.value.tag
    }

    /// Replaces tag and value together: either both change and the result
    /// is validly tagged, or an error returns and nothing changes.
    pub fn set_cell(&mut self, tag: usize, new_value: ValueCell) -> (r: CanTypeError)
        ensures
            *old(self)@->Union_value matches ValueV::Sum { variants, .. } ==> match r {
                Ok(_) => match sum_new(variants, tag as nat, new_value@) {
                    Ok(sv) => final(self)@ == (ValueV::Union {
                        enumeration: old(self)@->Union_enumeration,
                        value: Box::new(sv),
                    }),
                    Err(_) => false,
                },
                Err(e) => {
                    &&& sum_new(variants, tag as nat, new_value@) == Err::<ValueV, TypeErrorV>(
                        e@,
                    )
                    &&& final(self)@ == old(self)@
                },
            },
    {
        self.value.set_cell(tag, new_value)
    }

    /// Wraps this union as a value handle.
    pub fn to_cell(self) -> (r: ValueCell)
        ensures
            r@ == self@,
    {
        ValueCell::Union(self)
    }

    /// Decodes a union from a buffer, reading its sum value as
    /// [`SumValue::from`] does.
    pub fn from(t: Enumeration, raw: &[u8]) -> (r: TypeResult<Self>)
        requires
            sizes_max(types_view(t.sum_type.0@)) <= usize::MAX,
        ensures
            match r {
                Ok(u) => decode(t@, raw@) == Ok::<ValueV, TypeErrorV>(u@),
                Err(e) => decode(t@, raw@) == Err::<ValueV, TypeErrorV>(e@),
            },
        decreases types_view(t.sum_type.0@), 3nat,
    {
        proof {
            assert(t@ == enumeration_view(t));
            assert(enumeration_view(t)->Enumeration_sum == Box::new(sum_view(t.sum_type)));
        }
        let sum = t.sum_type.clone();
        match SumValue::from(sum, raw) {
            Ok(sv) => Ok(Self { of_type: t, value: sv }),
            Err(e) => Err(e),
        }
    }
}

impl Clone for Union {
    fn clone(&self) -> (r: Self)
        ensures
            r@ == self@,
    {
        Union { of_type: self.of_type.clone(), value: self.value.clone() }
    }
}

impl DataValue for Union {
    fn data_type(&self) -> (t: Type) {
        Type::Enumeration(self.of_type.clone())
    }

    fn raw(&self) -> (r: Vec<u8>) {
        self.value.raw()
    }

    fn set(&mut self, raw: &[u8])
        ensures
            final(self)@ == after_set(old(self)@, raw@),
    {
        sum_set(&mut self.value, raw)
    }
}

} // verus!
