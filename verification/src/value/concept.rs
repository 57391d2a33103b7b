//! The [`DataValue`] capability and the [`ValueCell`] handle, together with
//! the views taking every concrete value to its abstract form.

use vstd::prelude::*;
use crate::model::{ValueV, TypeErrorV, value_type, value_raw, name_of, set_ok, after_set};
use crate::types::concept::{DataType, Type, type_view, types_view, typename_of, clone_type};
use crate::value::boolean::Boolean;
use crate::value::byte::Bytes;
use crate::value::error::{CanTypeError, TypeError};
use crate::value::list::List;
use crate::value::number::{Float, Integer};
use crate::value::record::{ProductValue, Record};
use crate::value::reference::Reference;
use crate::value::sequence::{Sequence, values_to_raw, clone_values};
use crate::value::union::{SumValue, Union, sum_value_raw};
use crate::types::algebraic::{ProductType, SumType};
use crate::types::typedef::Structure as StructureType;
use crate::types::sequence::clone_types;
use crate::types::primitive::Primitive;

verus! {

/// The handle to any concrete value of the library.
///
/// A value is owned by its holder and mutated in place through `&mut`; the
/// borrow checker enforces the single-writer discipline.
#[derive(Debug)]
pub enum ValueCell {
    Boolean(Boolean),
    Bytes(Bytes),
    Float(Float),
    Integer(Integer),
    Reference(Reference),
    List(List),
    Sequence(Sequence),
    Product(ProductValue),
    Record(Record),
    Sum(SumValue),
    Union(Union),
}

/// The abstract form of a value handle.
pub open spec fn value_view(v: ValueCell) -> ValueV
    decreases v,
{
    match v {
        ValueCell::Boolean(b) => ValueV::Boolean(b.0),
        ValueCell::Bytes(b) => bytes_view(b),
        ValueCell::Float(f) => ValueV::Float(f.0),
        ValueCell::Integer(i) => ValueV::Integer(i.0),
        ValueCell::Reference(r) => ValueV::Reference {
            to_type: type_view(r.to_type),
            address: r.address,
        },
        ValueCell::List(l) => list_view(l),
        ValueCell::Sequence(s) => sequence_value_view(s),
        ValueCell::Product(p) => product_value_view(p),
        ValueCell::Record(r) => record_view(r),
        ValueCell::Sum(s) => sum_value_view(s),
        ValueCell::Union(u) => union_view(u),
    }
}

/// The abstract form of a byte-group value.
pub open spec fn bytes_view(b: Bytes) -> ValueV {
    match b {
        Bytes::Byte(x) => ValueV::Byte(x.0),
        Bytes::Word(x) => ValueV::Word(x.0),
        Bytes::Quad(x) => ValueV::Quad(x.0),
        Bytes::Long(x) => ValueV::Long(x.0),
        Bytes::Wide(x) => ValueV::Wide(x.0),
        Bytes::Arch(x) => ValueV::Arch(x.0),
        Bytes::Bytes(data, width) => ValueV::Bytes { data: data@, width: width as nat },
    }
}

/// The abstract forms of a sequence of value handles, in order.
pub open spec fn values_view(vs: Seq<ValueCell>) -> Seq<ValueV>
    decreases vs,
{
    if vs.len() == 0 {
        Seq::empty()
    } else {
        values_view(vs.drop_last()).push(value_view(vs.last()))
    }
}

/// The abstract form of a list value.
pub open spec fn list_view(l: List) -> ValueV
    decreases l,
{
    ValueV::List { of_type: type_view(l.of_type), elements: values_view(l.elements@) }
}

/// The abstract form of a sequence value.
pub open spec fn sequence_value_view(s: Sequence) -> ValueV
    decreases s,
{
    ValueV::Sequence { definition: types_view(s.definition@), values: values_view(s.values@) }
}

/// The abstract form of a product value.
pub open spec fn product_value_view(p: ProductValue) -> ValueV
    decreases p,
{
    ValueV::Product {
        types: types_view(p.product.0@),
        value: Box::new(sequence_value_view(p.value)),
    }
}

/// The abstract form of a record.
pub open spec fn record_view(r: Record) -> ValueV
    decreases r,
{
    ValueV::Record {
        structure: type_view(Type::Structure(r.of_type)),
        value: Box::new(product_value_view(r.value)),
    }
}

/// The abstract form of a sum value.
pub open spec fn sum_value_view(s: SumValue) -> ValueV
    decreases s,
{
    ValueV::Sum {
        variants: types_view(s.sum.0@),
        tag: s.tag as nat,
        value: Box::new(value_view(*s.value)),
    }
}

/// The abstract form of a union.
pub open spec fn union_view(u: Union) -> ValueV
    decreases u,
{
    ValueV::Union {
        enumeration: type_view(Type::Enumeration(u.of_type)),
        value: Box::new(sum_value_view(u.value)),
    }
}

impl View for ValueCell {
    type V = ValueV;

    open spec fn view(&self) -> ValueV {
        value_view(*self)
    }
}

/// The capability every value offers: its type, its exact byte image, and
/// in-place refresh from a buffer (the refresh method joins the trait where
/// the decoding side is available).
pub trait DataValue: View<V = ValueV> + Sized {
    /// The type this value belongs to.
    fn data_type(&self) -> (t: Type)
        ensures
            t@ == value_type(self@),
    ;

    /// The exact byte image of this value.
    fn raw(&self) -> (r: Vec<u8>)
        ensures
            r@ == value_raw(self@),
    ;

    /// Refreshes this value in place from a buffer, without re-validating
    /// types: the trusted-caller contract of the library.  What the refresh
    /// yields is stated by each implementation.
    fn set(&mut self, raw: &[u8])
        requires
            set_ok(old(self)@, raw@),
    ;

    /// Checks this value against an expected type, comparing canonical
    /// names.
    fn validate_type(&self, expected_type: &Type) -> (r: CanTypeError)
        ensures
            match r {
                Ok(_) => name_of(value_type(self@)) == name_of((*expected_type)@),
                Err(e) => name_of(value_type(self@)) != name_of((*expected_type)@) && e@
                    == (TypeErrorV::InvalidType {
                    expected: (*expected_type)@,
                    provided: value_type(self@),
                }),
            },
    {
        let own = self.data_type();
        if own.typename() == expected_type.typename() {
            Ok(())
        } else {
            Err(TypeError::InvalidType { expected: expected_type.clone(), provided: own })
        }
    }
}

/// The view of a prefix of value handles is the prefix of their views.
pub proof fn lemma_values_view_take(vs: Seq<ValueCell>, i: int)
    requires
        0 <= i <= vs.len(),
    ensures
        values_view(vs).len() == vs.len(),
        values_view(vs.take(i)) == values_view(vs).take(i),
        i < vs.len() ==> values_view(vs)[i] == value_view(vs[i]),
    decreases vs.len(),
{
    lemma_values_view_len(vs);
    if vs.len() > 0 {
        if i == vs.len() {
            assert(vs.take(i) =~= vs);
            assert(values_view(vs).take(i) =~= values_view(vs));
        } else {
            lemma_values_view_take(vs.drop_last(), i);
            assert(vs.take(i) =~= vs.drop_last().take(i));
            assert(values_view(vs).take(i) =~= values_view(vs.drop_last()).take(i));
            if i < vs.len() - 1 {
                lemma_values_view_take(vs.drop_last(), i + 1);
                assert(values_view(vs.drop_last())[i] == value_view(vs.drop_last()[i]));
            }
        }
    } else {
        assert(values_view(vs.take(i)) =~= values_view(vs).take(i));
    }
}

/// A sequence of value handles views to as many abstract values.
pub proof fn lemma_values_view_len(vs: Seq<ValueCell>)
    ensures
        values_view(vs).len() == vs.len(),
    decreases vs.len(),
{
    if vs.len() > 0 {
        lemma_values_view_len(vs.drop_last());
    }
}

/// Dropping the first handle drops the first view.
pub proof fn lemma_values_view_drop_first(vs: Seq<ValueCell>)
    requires
        vs.len() > 0,
    ensures
        values_view(vs.drop_first()) == values_view(vs).drop_first(),
{
    lemma_values_view_index(vs);
    lemma_values_view_index(vs.drop_first());
    assert forall|i: int| 0 <= i < vs.len() - 1 implies values_view(vs.drop_first())[i]
        == values_view(vs).drop_first()[i] by {
        assert(vs.drop_first()[i] == vs[i + 1]);
    }
    assert(values_view(vs.drop_first()) =~= values_view(vs).drop_first());
}

/// Position by position, the views of value handles are the handles' views.
pub proof fn lemma_values_view_index(vs: Seq<ValueCell>)
    ensures
        values_view(vs).len() == vs.len(),
        forall|i: int| 0 <= i < vs.len() ==> values_view(vs)[i] == value_view(#[trigger] vs[i]),
    decreases vs.len(),
{
    lemma_values_view_len(vs);
    if vs.len() > 0 {
        lemma_values_view_index(vs.drop_last());
        assert forall|i: int| 0 <= i < vs.len() implies values_view(vs)[i] == value_view(
            #[trigger] vs[i],
        ) by {
            if i < vs.len() - 1 {
                assert(vs.drop_last()[i] == vs[i]);
            }
        }
    }
}

/// The exact byte image of a value handle.
pub fn cell_raw(v: &ValueCell) -> (r: Vec<u8>)
    ensures
        r@ == value_raw(v@),
    decreases *v,
{
    match v {
        ValueCell::Boolean(b) => b.raw(),
        ValueCell::Bytes(b) => b.raw(),
        ValueCell::Float(f) => f.raw(),
        ValueCell::Integer(i) => i.raw(),
        ValueCell::Reference(r) => r.raw(),
        ValueCell::List(l) => values_to_raw(l.elements.as_slice()),
        ValueCell::Sequence(s) => values_to_raw(s.values.as_slice()),
        ValueCell::Product(p) => {
            proof {
                assert(value_raw(v@) == value_raw(sequence_value_view(p.value)));
            }
            values_to_raw(p.value.values.as_slice())
        },
        ValueCell::Record(r) => {
            proof {
                assert(value_raw(v@) == value_raw(product_value_view(r.value)));
                assert(value_raw(product_value_view(r.value)) == value_raw(
                    sequence_value_view(r.value.value),
                ));
            }
            values_to_raw(r.value.value.values.as_slice())
        },
        ValueCell::Sum(s) => sum_value_raw(s),
        ValueCell::Union(u) => {
            proof {
                assert(value_raw(v@) == value_raw(sum_value_view(u.value)));
            }
            sum_value_raw(&u.value)
        },
    }
}

/// A copy of a value handle, keeping its view.
pub fn clone_cell(v: &ValueCell) -> (r: ValueCell)
    ensures
        r@ == v@,
    decreases *v,
{
    match v {
        ValueCell::Boolean(b) => ValueCell::Boolean(*b),
        ValueCell::Bytes(b) => ValueCell::Bytes(b.clone()),
        ValueCell::Float(f) => ValueCell::Float(*f),
        ValueCell::Integer(i) => ValueCell::Integer(*i),
        ValueCell::Reference(r) => ValueCell::Reference(r.clone()),
        ValueCell::List(l) => ValueCell::List(
            List { of_type: l.of_type.clone(), elements: clone_values(&l.elements) },
        ),
        ValueCell::Sequence(s) => ValueCell::Sequence(
            Sequence {
                definition: clone_types(&s.definition),
                values: clone_values(&s.values),
            },
        ),
        ValueCell::Product(p) => {
            let value = Sequence {
                definition: clone_types(&p.value.definition),
                values: clone_values(&p.value.values),
            };
            proof {
                assert(sequence_value_view(value) == sequence_value_view(p.value));
            }
            ValueCell::Product(
                ProductValue { product: ProductType(clone_types(&p.product.0)), value },
            )
        },
        ValueCell::Record(r) => {
            let value = Sequence {
                definition: clone_types(&r.value.value.definition),
                values: clone_values(&r.value.value.values),
            };
            proof {
                assert(sequence_value_view(value) == sequence_value_view(r.value.value));
            }
            let product_value = ProductValue {
                product: ProductType(clone_types(&r.value.product.0)),
                value,
            };
            proof {
                assert(product_value_view(product_value) == product_value_view(r.value));
            }
            ValueCell::Record(Record { of_type: r.of_type.clone(), value: product_value })
        },
        ValueCell::Sum(s) => {
            let sum = SumType(clone_types(&s.sum.0));
            proof {
                assert(crate::types::concept::sum_view(sum) == crate::types::concept::sum_view(
                    s.sum,
                ));
            }
            ValueCell::Sum(SumValue { sum, value: Box::new(clone_cell(&*s.value)), tag: s.tag })
        },
        ValueCell::Union(u) => {
            let sum = SumType(clone_types(&u.value.sum.0));
            proof {
                assert(crate::types::concept::sum_view(sum) == crate::types::concept::sum_view(
                    u.value.sum,
                ));
            }
            let value = SumValue {
                sum,
                value: Box::new(clone_cell(&*u.value.value)),
                tag: u.value.tag,
            };
            proof {
                assert(sum_value_view(value) == sum_value_view(u.value));
            }
            ValueCell::Union(Union { of_type: u.of_type.clone(), value })
        },
    }
}

impl Clone for ValueCell {
    fn clone(&self) -> (r: Self)
        ensures
            r@ == self@,
    {
        clone_cell(self)
    }
}

/// The type a value handle belongs to.
pub fn cell_data_type(v: &ValueCell) -> (t: Type)
    ensures
        t@ == value_type(v@),
{
    match v {
        ValueCell::Boolean(_) => Primitive::Boolean.to_rc(),
        ValueCell::Bytes(b) => match b {
            Bytes::Byte(_) => Primitive::Byte,
            Bytes::Arch(_) => Primitive::Bytes(8),
            Bytes::Word(_) => Primitive::Bytes(2),
            Bytes::Quad(_) => Primitive::Bytes(4),
            Bytes::Long(_) => Primitive::Bytes(8),
            Bytes::Wide(_) => Primitive::Bytes(16),
            Bytes::Bytes(_, l) => Primitive::Bytes(*l),
        }.to_rc(),
        ValueCell::Float(_) => Primitive::Float.to_rc(),
        ValueCell::Integer(_) => Primitive::Integer.to_rc(),
        ValueCell::Reference(r) => Primitive::Reference(
            Box::new(crate::types::concept::clone_type(&r.to_type)),
        ).to_rc(),
        ValueCell::List(l) => {
            proof {
                lemma_values_view_len(l.elements@);
            }
            Primitive::list(crate::types::concept::clone_type(&l.of_type), l.elements.len()).to_rc()
        },
        ValueCell::Sequence(s) => Type::Tuple(clone_types(&s.definition)),
        ValueCell::Product(p) => Type::Product(
            crate::types::algebraic::ProductType(clone_types(&p.product.0)),
        ),
        ValueCell::Record(r) => {
            let product_type = crate::types::algebraic::ProductType(
                clone_types(&r.of_type.product_type.0),
            );
            proof {
                assert(crate::types::concept::product_view(product_type)
                    == crate::types::concept::product_view(r.of_type.product_type));
            }
            Type::Structure(
                StructureType {
                    identifier: r.of_type.identifier.clone(),
                    labels: r.of_type.labels.clone(),
                    product_type,
                },
            )
        },
        ValueCell::Sum(s) => Type::Sum(SumType(clone_types(&s.sum.0))),
        ValueCell::Union(u) => {
            let sum_type = SumType(clone_types(&u.of_type.sum_type.0));
            proof {
                assert(crate::types::concept::sum_view(sum_type)
                    == crate::types::concept::sum_view(u.of_type.sum_type));
            }
            Type::Enumeration(
                crate::types::typedef::Enumeration {
                    identifier: u.of_type.identifier.clone(),
                    labels: u.of_type.labels.clone(),
                    sum_type,
                },
            )
        },
    }
}

/// Checks a value handle against an expected type, comparing canonical
/// names.
pub fn validate_cell(v: &ValueCell, expected_type: &Type) -> (r: CanTypeError)
    ensures
        match r {
            Ok(_) => name_of(value_type(v@)) == name_of((*expected_type)@),
            Err(e) => name_of(value_type(v@)) != name_of((*expected_type)@) && e@ == (
            TypeErrorV::InvalidType { expected: (*expected_type)@, provided: value_type(v@) }),
        },
{
    let own = cell_data_type(v);
    if typename_of(&own) == typename_of(expected_type) {
        Ok(())
    } else {
        Err(TypeError::InvalidType { expected: clone_type(expected_type), provided: own })
    }
}

/// Refreshes a value handle in place from a buffer, as [`after_set`] says.
pub fn cell_set(v: &mut ValueCell, raw: &[u8])
    requires
        set_ok(old(v)@, raw@),
    ensures
        final(v)@ == after_set(old(v)@, raw@),
    decreases old(v)@, 2nat,
{
    match v {
        ValueCell::Boolean(b) => {
            *b = Boolean(raw[0] != 0);
        },
        ValueCell::Bytes(b) => {
            *b = Bytes::from_raw(raw);
        },
        ValueCell::Float(f) => {
            *f = Float::from(raw);
        },
        ValueCell::Integer(i) => {
            *i = Integer::from(raw);
        },
        ValueCell::Reference(r) => {
            let to_type = clone_type(&r.to_type);
            *r = Reference::from(to_type, raw);
        },
        ValueCell::List(l) => {
            crate::value::list::list_set(l, raw);
        },
        ValueCell::Sequence(s) => {
            crate::value::sequence::sequence_set(s, raw);
        },
        ValueCell::Product(p) => {
            crate::value::record::product_set(p, raw);
        },
        ValueCell::Record(r) => {
            crate::value::record::record_set(r, raw);
        },
        ValueCell::Sum(s) => {
            crate::value::union::sum_set(s, raw);
        },
        ValueCell::Union(u) => {
            crate::value::union::sum_set(&mut u.value, raw);
        },
    }
}

impl DataValue for ValueCell {
    fn data_type(&self) -> (t: Type) {
        cell_data_type(self)
    }

    fn raw(&self) -> (r: Vec<u8>) {
        cell_raw(self)
    }

    fn set(&mut self, raw: &[u8])
        ensures
            final(self)@ == after_set(old(self)@, raw@),
    {
        cell_set(self, raw)
    }
}

} // verus!
