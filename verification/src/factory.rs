//! Convenience constructors over the library: named structures in one call,
//! and copies of values through their byte images.

use vstd::prelude::*;
use crate::identity::{LabelBank, split_ident};
use crate::model::{TypeV, ValueV, TypeErrorV, type_size, value_raw, decode};
use crate::types::algebraic::ProductType;
use crate::types::concept::{DataType, Type, types_view};
use crate::types::typedef::Structure;
use crate::value::concept::{DataValue, ValueCell};
use crate::value::error::TypeResult;

verus! {

/// Names a structure over the given field types in one call.
pub fn create_struct(identifier: &str, labels: LabelBank, members: &[Type]) -> (r: Structure)
    ensures
        r@ == (TypeV::Structure {
            identifier: split_ident(identifier@),
            labels: labels@,
            product: Box::new(TypeV::Product(types_view(members@))),
        }),
{
    Structure::new(identifier, labels, ProductType::new(members))
}

/// Copies a value by decoding its byte image at the given type.
pub fn copy_value(result_type: Type, from: &ValueCell) -> (r: TypeResult<ValueCell>)
    requires
        type_size(result_type@) <= usize::MAX,
    ensures
        match r {
            Ok(v) => decode(result_type@, value_raw(from@)) == Ok::<ValueV, TypeErrorV>(v@),
            Err(e) => decode(result_type@, value_raw(from@)) == Err::<ValueV, TypeErrorV>(e@),
        },
{
    crate::value::operations::copy(result_type, from)
}

} // verus!
