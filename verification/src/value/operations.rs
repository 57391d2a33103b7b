//! Operations over values: copying a value through its byte image.

use vstd::prelude::*;
use crate::model::{ValueV, TypeErrorV, type_size, value_raw, decode};
use crate::types::concept::{DataType, Type};
use crate::value::concept::{DataValue, ValueCell};
use crate::value::error::TypeResult;

verus! {

/// Copies a value by decoding its byte image at the given type: the bytes of
/// the copy are the bytes of the original, decoded afresh.
pub fn copy(result_type: Type, from: &ValueCell) -> (r: TypeResult<ValueCell>)
    requires
        type_size(result_type@) <= usize::MAX,
    ensures
        match r {
            Ok(v) => decode(result_type@, value_raw(from@)) == Ok::<ValueV, TypeErrorV>(v@),
            Err(e) => decode(result_type@, value_raw(from@)) == Err::<ValueV, TypeErrorV>(e@),
        },
{
    let raw = from.raw();
    result_type.construct_from_raw(raw.as_slice())
}

} // verus!
