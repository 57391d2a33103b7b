//! The machine types: truth, byte groups, numbers, references and
//! fixed-length lists.

use vstd::prelude::*;
use vstd::string::*;
use crate::encoding::decimal_string;
use crate::model::{TypeV, ValueV, TypeErrorV, type_size, name_of, decode, width_error};
use crate::types::concept::{
    DataType, Type, prim_view, size_of_type, typename_of, clone_prim, clone_type,
    construct_of_type,
};
use crate::value::boolean::Boolean;
use crate::value::byte::Bytes;
use crate::value::concept::{DataValue, ValueCell};
use crate::value::error::{TypeError, TypeResult};
use crate::value::list::List as ListValue;
use crate::value::number::{Float, Integer};
use crate::value::reference::Reference;

verus! {

/// The element type and length of a list type.
pub type List = (Box<Type>, usize);

/// The primitive types.
#[derive(Debug)]
pub enum Primitive {
    /// One byte holding `true` or `false`.
    Boolean,
    /// A single byte, managed at the lowest level.
    Byte,
    /// A byte group of the given width; the widths two, four, eight and
    /// sixteen carry the canonical names word, quad, long and wide.
    Bytes(usize),
    /// An eight-byte floating-point bit pattern.
    Float,
    /// An eight-byte signed integer.
    Integer,
    /// An eight-byte address retaining a value of the given type.
    Reference(Box<Type>),
    /// A collection of a fixed number of elements of one type.
    List(List),
}

impl View for Primitive {
    type V = TypeV;

    open spec fn view(&self) -> TypeV {
        prim_view(*self)
    }
}

impl Primitive {
    /// Creates a new list type; the resulting type is `[t; len]`.
    pub fn list(t: Type, len: usize) -> (r: Self)
        ensures
            r@ == TypeV::List(Box::new(t@), len as nat),
    {
        Primitive::List((Box::new(t), len))
    }

    /// Wraps this primitive as a shared type handle.
    pub fn to_rc(self) -> (r: Type)
        ensures
            r@ == self@,
    {
        Type::Primitive(self)
    }
}

impl Clone for Primitive {
    fn clone(&self) -> (r: Self)
        ensures
            r@ == self@,
    {
        clone_prim(self)
    }
}

/// The layout size of a primitive type, in bytes.
pub fn prim_size(p: &Primitive) -> (r: usize)
    requires
        type_size(p@) <= usize::MAX,
    ensures
        r == type_size(p@),
    decreases *p,
{
    match p {
            Primitive::Boolean => 1,
            Primitive::Byte => 1,
            Primitive::Bytes(s) => *s,
            Primitive::Float => 8,
            Primitive::Integer => 8,
            Primitive::Reference(_) => 8,
            Primitive::List(l) => {
                if l.1 == 0 {
                    0
                } else {
                    proof {
                        let n = l.1 as nat;
                        let es = type_size(l.0@);
                        assert(es <= es * n) by (nonlinear_arith)
                            requires
                                n >= 1,
                        ;
                    }
                    size_of_type(&*l.0) * l.1
                }
            },
        }
    }

/// The canonical name of a primitive type.
pub fn prim_typename(p: &Primitive) -> (r: String)
    ensures
        r@ == name_of(p@),
    decreases *p,
{
    match p {
            Primitive::Boolean => String::from_str("boolean"),
            Primitive::Byte => String::from_str("byte"),
            Primitive::Bytes(s) => {
                if *s == 2 {
                    String::from_str("word")
                } else if *s == 4 {
                    String::from_str("quad")
                } else if *s == 8 {
                    String::from_str("long")
                } else if *s == 16 {
                    String::from_str("wide")
                } else {
                    let mut r = String::from_str("bytes<");
                    r.append(decimal_string(*s).as_str());
                    r.append(">");
                    proof {
                        assert(r@ =~= name_of(p@));
                    }
                    r
                }
            },
            Primitive::Float => String::from_str("float"),
            Primitive::Integer => String::from_str("integer"),
            Primitive::Reference(t) => {
                let mut r = String::from_str("&");
                r.append(typename_of(&**t).as_str());
                proof {
                    assert(r@ =~= name_of(p@));
                }
                r
            },
            Primitive::List(l) => {
                let mut r = String::from_str("[");
                r.append(typename_of(&*l.0).as_str());
                r.append(";");
                r.append(decimal_string(l.1).as_str());
                r.append("]");
                proof {
                    assert(r@ =~= name_of(p@));
                }
                r
            },
        }
}

/// The error for a buffer whose length does not fit a primitive type.
fn prim_width_error(p: &Primitive, len: usize) -> (e: TypeError)
    ensures
        e@ == width_error(p@, len as nat),
{
    TypeError::InvalidType {
        expected: Type::Primitive(clone_prim(p)),
        provided: Primitive::Bytes(len).to_rc(),
    }
}

/// Decodes a buffer at a primitive type, as [`decode`] says.
pub fn prim_construct(p: &Primitive, raw: &[u8]) -> (r: TypeResult<ValueCell>)
    requires
        type_size(p@) <= usize::MAX,
    ensures
        match r {
            Ok(v) => decode(p@, raw@) == Ok::<ValueV, TypeErrorV>(v@),
            Err(e) => decode(p@, raw@) == Err::<ValueV, TypeErrorV>(e@),
        },
    decreases p@, 0nat,
{
    match p {
        Primitive::Boolean => {
            if raw.len() == 1 {
                Ok(Boolean::from(raw).to_cell())
            } else {
                Err(prim_width_error(p, raw.len()))
            }
        },
        Primitive::Byte => {
            if raw.len() == 1 {
                Ok(Bytes::from_raw(raw).to_cell())
            } else {
                Err(prim_width_error(p, raw.len()))
            }
        },
        Primitive::Bytes(s) => {
            if raw.len() == *s {
                Ok(Bytes::from_raw(raw).to_cell())
            } else {
                Err(prim_width_error(p, raw.len()))
            }
        },
        Primitive::Float => {
            if raw.len() == 8 {
                Ok(Float::from(raw).to_cell())
            } else {
                Err(prim_width_error(p, raw.len()))
            }
        },
        Primitive::Integer => {
            if raw.len() == 8 {
                Ok(Integer::from(raw).to_cell())
            } else {
                Err(prim_width_error(p, raw.len()))
            }
        },
        Primitive::Reference(t) => {
            if raw.len() == 8 {
                Ok(Reference::from(clone_type(&**t), raw).to_cell())
            } else {
                Err(prim_width_error(p, raw.len()))
            }
        },
        Primitive::List(l) => {
            let expected: usize = if l.1 == 0 {
                proof {
                    assert(type_size(p@) == type_size(l.0@) * 0);
                }
                0
            } else {
                proof {
                    let n = l.1 as nat;
                    let es = type_size(l.0@);
                    assert(es <= es * n) by (nonlinear_arith)
                        requires
                            n >= 1,
                    ;
                }
                size_of_type(&*l.0) * l.1
            };
            if raw.len() == expected {
                match ListValue::from(clone_type(&*l.0), l.1, raw) {
                    Ok(lst) => Ok(lst.to_cell()),
                    Err(e) => Err(e),
                }
            } else {
                Err(prim_width_error(p, raw.len()))
            }
        },
    }
}

impl DataType for Primitive {
    fn size(&self) -> (r: usize) {
        prim_size(self)
    }

    fn typename(&self) -> (r: String) {
        prim_typename(self)
    }

    fn construct_from_raw(&self, raw: &[u8]) -> (r: TypeResult<ValueCell>) {
        prim_construct(self, raw)
    }
}

} // verus!
