//! Typed function signatures: a [`FunctionType`] over argument and return
//! types, and its named [`FunctionDeclaration`].
//!
//! Only the signature is part of the library; function bodies and execution
//! are a host concern.

use vstd::prelude::*;
use vstd::string::*;
use crate::identity::Identifier;
use crate::model::{TypeV, name_of};
use crate::types::concept::{DataType, Type, function_view, types_view, typename_of, clone_type};
use crate::types::sequence::{Tuple, join, clone_types};
use crate::value::concept::ValueCell;
use crate::value::error::{TypeError, TypeResult};

verus! {

/// The type of a function: its argument tuple and its return type.
#[derive(Debug)]
pub struct FunctionType {
    pub arguments: Tuple,
    pub return_type: Box<Type>,
}

impl View for FunctionType {
    type V = TypeV;

    open spec fn view(&self) -> TypeV {
        function_view(*self)
    }
}

impl FunctionType {
    pub fn new(arguments: Tuple, return_type: Type) -> (r: Self)
        ensures
            r@ == (TypeV::Function {
                arguments: types_view(arguments@),
                ret: Box::new(return_type@),
            }),
    {
        FunctionType { arguments, return_type: Box::new(return_type) }
    }

    /// Wraps this signature as a shared type handle.
    pub fn to_rc(self) -> (r: Type)
        ensures
            r@ == self@,
    {
        Type::Function(self)
    }
}

impl Clone for FunctionType {
    fn clone(&self) -> (r: Self)
        ensures
            r@ == self@,
    {
        FunctionType {
            arguments: clone_types(&self.arguments),
            return_type: Box::new(clone_type(&*self.return_type)),
        }
    }
}

/// The canonical name of a function type.
pub fn function_type_name(f: &FunctionType) -> (r: String)
    ensures
        r@ == name_of(f@),
    decreases *f,
{
    let mut r = String::from_str("fn<(");
    r.append(join(&f.arguments, ",").as_str());
    r.append("), ");
    r.append(typename_of(&*f.return_type).as_str());
    r.append(">");
    proof {
        assert(r@ =~= name_of(f@));
    }
    r
}

impl DataType for FunctionType {
    fn size(&self) -> (r: usize) {
        8
    }

    fn typename(&self) -> (r: String) {
        function_type_name(self)
    }

    fn construct_from_raw(&self, raw: &[u8]) -> (r: TypeResult<ValueCell>) {
        Err(
            TypeError::Message(
                String::from_str("a function type cannot construct a value from raw bytes"),
            ),
        )
    }
}

/// A named function signature.
#[derive(Debug)]
pub struct FunctionDeclaration {
    pub identifier: Identifier,
    pub signature: FunctionType,
}

impl FunctionDeclaration {
    pub fn new(identifier: Identifier, signature: FunctionType) -> (r: Self)
        ensures
            r.identifier@ == identifier@,
            r.signature@ == signature@,
    {
        FunctionDeclaration { identifier, signature }
    }
}

} // verus!
