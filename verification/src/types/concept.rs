//! The [`DataType`] capability and the [`Type`] handle, together with the
//! views taking every concrete type to its abstract form.

use vstd::prelude::*;
use vstd::string::*;
use crate::model::{
    TypeV, ValueV, TypeErrorV, type_size, name_of, sizes_sum, sizes_max, decode, decode_tuple,
    decode_sum,
};
use crate::types::primitive::{Primitive, prim_size, prim_typename, prim_construct};
use crate::types::sequence::{Tuple, sum_size, join, clone_types};
use crate::types::algebraic::{SumType, ProductType, sum_type_size, sum_type_name, product_type_name};
use crate::types::typedef::{Structure, Enumeration};
use crate::types::functional::{FunctionType, function_type_name};
use crate::value::concept::{DataValue, ValueCell};
use crate::value::error::{TypeError, TypeResult};
use crate::value::record::Record;
use crate::value::sequence::Sequence;
use crate::value::union::{SumValue, Union};

verus! {

/// The shared handle to any data type of the library.
///
/// The set of types is closed, so the handle is an enum over the concrete
/// forms; it implements [`DataType`] by dispatch.
#[derive(Debug)]
pub enum Type {
    Primitive(Primitive),
    Tuple(Tuple),
    Sum(SumType),
    Product(ProductType),
    Structure(Structure),
    Enumeration(Enumeration),
    Function(FunctionType),
}

/// The abstract form of a type handle.
pub open spec fn type_view(t: Type) -> TypeV
    decreases t,
{
    match t {
        Type::Primitive(p) => prim_view(p),
        Type::Tuple(ts) => TypeV::Tuple(types_view(ts@)),
        Type::Sum(s) => sum_view(s),
        Type::Product(p) => product_view(p),
        Type::Structure(s) => structure_view(s),
        Type::Enumeration(e) => enumeration_view(e),
        Type::Function(f) => function_view(f),
    }
}

/// The abstract form of a primitive type.
pub open spec fn prim_view(p: Primitive) -> TypeV
    decreases p,
{
    match p {
        Primitive::Boolean => TypeV::Boolean,
        Primitive::Byte => TypeV::Byte,
        Primitive::Bytes(w) => TypeV::Bytes(w as nat),
        Primitive::Float => TypeV::Float,
        Primitive::Integer => TypeV::Integer,
        Primitive::Reference(t) => TypeV::Reference(Box::new(type_view(*t))),
        Primitive::List(l) => TypeV::List(Box::new(type_view(*l.0)), l.1 as nat),
    }
}

/// The abstract forms of a sequence of type handles, in order.
pub open spec fn types_view(ts: Seq<Type>) -> Seq<TypeV>
    decreases ts,
{
    if ts.len() == 0 {
        Seq::empty()
    } else {
        types_view(ts.drop_last()).push(type_view(ts.last()))
    }
}

/// The abstract form of a sum type.
pub open spec fn sum_view(s: SumType) -> TypeV
    decreases s,
{
    TypeV::Sum(types_view(s.0@))
}

/// The abstract form of a product type.
pub open spec fn product_view(p: ProductType) -> TypeV
    decreases p,
{
    TypeV::Product(types_view(p.0@))
}

/// The abstract form of a structure.
pub open spec fn structure_view(s: Structure) -> TypeV
    decreases s,
{
    TypeV::Structure {
        identifier: s.identifier@,
        labels: s.labels@,
        product: Box::new(product_view(s.product_type)),
    }
}

/// The abstract form of an enumeration.
pub open spec fn enumeration_view(e: Enumeration) -> TypeV
    decreases e,
{
    TypeV::Enumeration {
        identifier: e.identifier@,
        labels: e.labels@,
        sum: Box::new(sum_view(e.sum_type)),
    }
}

/// The abstract form of a function type.
pub open spec fn function_view(f: FunctionType) -> TypeV
    decreases f,
{
    TypeV::Function {
        arguments: types_view(f.arguments@),
        ret: Box::new(type_view(*f.return_type)),
    }
}

impl View for Type {
    type V = TypeV;

    open spec fn view(&self) -> TypeV {
        type_view(*self)
    }
}

/// The layout size of a type handle, in bytes.
pub fn size_of_type(t: &Type) -> (r: usize)
    requires
        type_size(t@) <= usize::MAX,
    ensures
        r == type_size(t@),
    decreases *t,
{
    match t {
        Type::Primitive(p) => prim_size(p),
        Type::Tuple(ts) => sum_size(ts),
        Type::Sum(s) => sum_type_size(s),
        Type::Product(p) => {
            proof {
                assert(type_size(t@) == type_size(product_view(*p)));
                assert(type_size(product_view(*p)) == sizes_sum(types_view(p.0@)));
            }
            sum_size(&p.0)
        },
        Type::Structure(s) => {
            proof {
                assert(type_size(t@) == type_size(product_view(s.product_type)));
                assert(type_size(product_view(s.product_type)) == sizes_sum(
                    types_view(s.product_type.0@),
                ));
            }
            sum_size(&s.product_type.0)
        },
        Type::Enumeration(e) => {
            proof {
                assert(type_size(t@) == type_size(sum_view(e.sum_type)));
            }
            sum_type_size(&e.sum_type)
        },
        Type::Function(_) => 8,
    }
}

/// The canonical name of a type handle.
pub fn typename_of(t: &Type) -> (r: String)
    ensures
        r@ == name_of(t@),
    decreases *t,
{
    match t {
        Type::Primitive(p) => prim_typename(p),
        Type::Tuple(ts) => join(ts, ","),
        Type::Sum(s) => sum_type_name(s),
        Type::Product(p) => product_type_name(p),
        Type::Structure(s) => s.identifier.to_text(),
        Type::Enumeration(e) => e.identifier.to_text(),
        Type::Function(f) => function_type_name(f),
    }
}

/// Decodes a buffer at a type handle, as [`decode`] says.
pub fn construct_of_type(t: &Type, raw: &[u8]) -> (r: TypeResult<ValueCell>)
    requires
        type_size(t@) <= usize::MAX,
    ensures
        match r {
            Ok(v) => decode(t@, raw@) == Ok::<ValueV, TypeErrorV>(v@),
            Err(e) => decode(t@, raw@) == Err::<ValueV, TypeErrorV>(e@),
        },
    decreases t@, 1nat,
{
    match t {
        Type::Primitive(p) => prim_construct(p, raw),
        Type::Tuple(ts) => {
            proof {
                assert(decode(t@, raw@) == decode_tuple(types_view(ts@), raw@));
            }
            match Sequence::from(clone_types(ts), raw) {
                Ok(s) => Ok(s.to_cell()),
                Err(e) => Err(e),
            }
        },
        Type::Sum(s) => {
            proof {
                assert(decode(t@, raw@) == decode_sum(types_view(s.0@), raw@));
                assert(type_size(t@) == sizes_max(types_view(s.0@)));
            }
            match SumValue::from(SumType(clone_types(&s.0)), raw) {
                Ok(sv) => Ok(sv.to_cell()),
                Err(e) => Err(e),
            }
        },
        Type::Product(p) => {
            proof {
                assert(decode(t@, raw@) == decode_tuple(types_view(p.0@), raw@));
                assert(type_size(t@) == type_size(product_view(*p)));
                assert(type_size(product_view(*p)) == sizes_sum(types_view(p.0@)));
            }
            match Sequence::from(clone_types(&p.0), raw) {
                Ok(s) => Ok(s.to_cell()),
                Err(e) => Err(e),
            }
        },
        Type::Structure(s) => {
            proof {
                assert(type_size(t@) == type_size(product_view(s.product_type)));
                assert(type_size(product_view(s.product_type)) == sizes_sum(
                    types_view(s.product_type.0@),
                ));
            }
            match Record::from(s.clone(), raw) {
                Ok(rec) => Ok(rec.to_cell()),
                Err(e) => Err(e),
            }
        },
        Type::Enumeration(e) => {
            proof {
                assert(type_size(t@) == type_size(sum_view(e.sum_type)));
            }
            match Union::from(e.clone(), raw) {
                Ok(u) => Ok(u.to_cell()),
                Err(e2) => Err(e2),
            }
        },
        Type::Function(_) => Err(
            TypeError::Message(
                String::from_str("a function type cannot construct a value from raw bytes"),
            ),
        ),
    }
}

/// A copy of a primitive type, keeping its view.
pub fn clone_prim(p: &Primitive) -> (r: Primitive)
    ensures
        r@ == p@,
    decreases *p,
{
    match p {
        Primitive::Boolean => Primitive::Boolean,
        Primitive::Byte => Primitive::Byte,
        Primitive::Bytes(w) => Primitive::Bytes(*w),
        Primitive::Float => Primitive::Float,
        Primitive::Integer => Primitive::Integer,
        Primitive::Reference(t) => Primitive::Reference(Box::new(clone_type(&**t))),
        Primitive::List(l) => Primitive::List((Box::new(clone_type(&*l.0)), l.1)),
    }
}

/// A copy of a type handle, keeping its view.
pub fn clone_type(t: &Type) -> (r: Type)
    ensures
        r@ == t@,
    decreases *t,
{
    match t {
        Type::Primitive(p) => Type::Primitive(clone_prim(p)),
        Type::Tuple(ts) => Type::Tuple(clone_types(ts)),
        Type::Sum(s) => Type::Sum(SumType(clone_types(&s.0))),
        Type::Product(p) => Type::Product(ProductType(clone_types(&p.0))),
        Type::Structure(s) => {
            let product_type = ProductType(clone_types(&s.product_type.0));
            proof {
                assert(product_view(product_type) == product_view(s.product_type));
            }
            Type::Structure(
                Structure {
                    identifier: s.identifier.clone(),
                    labels: s.labels.clone(),
                    product_type,
                },
            )
        },
        Type::Enumeration(e) => {
            let sum_type = SumType(clone_types(&e.sum_type.0));
            proof {
                assert(sum_view(sum_type) == sum_view(e.sum_type));
            }
            Type::Enumeration(
                Enumeration {
                    identifier: e.identifier.clone(),
                    labels: e.labels.clone(),
                    sum_type,
                },
            )
        },
        Type::Function(f) => Type::Function(
            FunctionType {
                arguments: clone_types(&f.arguments),
                return_type: Box::new(clone_type(&*f.return_type)),
            },
        ),
    }
}

/// The capability every data type offers: a layout size, a canonical name,
/// and decoding of raw buffers (the decoding method joins the trait where
/// the value side is available).
pub trait DataType: View<V = TypeV> + Sized {
    /// The layout size of this type, in bytes.
    fn size(&self) -> (r: usize)
        requires
            type_size(self@) <= usize::MAX,
        ensures
            r == type_size(self@),
    ;

    /// The canonical name of this type, the identity every runtime type
    /// check compares.
    fn typename(&self) -> (r: String)
        ensures
            r@ == name_of(self@),
    ;

    /// Decodes a buffer into a new value of this type, as [`decode`] says:
    /// the buffer must hold exactly this type's layout, and the value
    /// decoded from it is pinned down together with every error.
    fn construct_from_raw(&self, raw: &[u8]) -> (r: TypeResult<ValueCell>)
        requires
            type_size(self@) <= usize::MAX,
        ensures
            match r {
                Ok(v) => decode(self@, raw@) == Ok::<ValueV, TypeErrorV>(v@),
                Err(e) => decode(self@, raw@) == Err::<ValueV, TypeErrorV>(e@),
            },
    ;
}

impl DataType for Type {
    fn size(&self) -> (r: usize) {
        size_of_type(self)
    }

    fn typename(&self) -> (r: String) {
        typename_of(self)
    }

    fn construct_from_raw(&self, raw: &[u8]) -> (r: TypeResult<ValueCell>) {
        construct_of_type(self, raw)
    }
}

impl Clone for Type {
    fn clone(&self) -> (r: Self)
        ensures
            r@ == self@,
    {
        clone_type(self)
    }
}

} // verus!
