//! The [`Sequence`]: an ordered, heterogeneous, positionally-typed list of
//! values, the value form of a [`Tuple`].

use vstd::prelude::*;
use vstd::slice::slice_subrange;
use crate::model::{
    ValueV, TypeV, TypeErrorV, value_raw, raws_of, validated_sequence, decode, decode_tuple,
    decode_members, sizes_sum, type_size, set_ok, set_members_ok, after_set, after_set_members,
    lemma_sizes_sum_take, lemma_first_name_mismatch_at, lemma_first_name_mismatch_none,
};
use crate::types::concept::{DataType, Type, type_view, types_view, size_of_type, construct_of_type};
use crate::types::sequence::{Tuple, sum_size, clone_types, lemma_types_view_take};
use crate::types::primitive::Primitive;
use crate::value::concept::{
    DataValue, ValueCell, values_view, lemma_values_view_take, lemma_values_view_len,
    lemma_values_view_index, cell_raw, clone_cell, cell_set, cell_data_type,
    sequence_value_view,
};
use crate::value::error::{SequenceError, TypeError, TypeResult};

verus! {

/// A validated, ordered list of values, one per declared type.
#[derive(Debug)]
pub struct Sequence {
    pub definition: Tuple,
    pub values: Vec<ValueCell>,
}

impl View for Sequence {
    type V = ValueV;

    open spec fn view(&self) -> ValueV {
        crate::value::concept::sequence_value_view(*self)
    }
}

impl Sequence {
    /// The empty sequence: no types, no values.
    pub fn empty() -> (r: Self)
        ensures
            r@ == (ValueV::Sequence {
                definition: Seq::<crate::model::TypeV>::empty(),
                values: Seq::<ValueV>::empty(),
            }),
    {
        let r = Sequence { definition: Vec::new(), values: Vec::new() };
        proof {
            assert(types_view(r.definition@) =~= Seq::<crate::model::TypeV>::empty());
            assert(values_view(r.values@) =~= Seq::<ValueV>::empty());
        }
        r
    }

    /// Assembles a sequence, failing on an arity mismatch and then on the
    /// first value whose type name differs from its declared type's name.
    pub fn new(definition: Tuple, values: &[ValueCell]) -> (r: TypeResult<Self>)
        ensures
            match r {
                Ok(s) => validated_sequence(types_view(definition@), values_view(values@))
                    == Ok::<ValueV, TypeErrorV>(s@),
                Err(e) => validated_sequence(types_view(definition@), values_view(values@))
                    == Err::<ValueV, TypeErrorV>(e@),
            },
    {
        let ghost ts = types_view(definition@);
        let ghost vs = values_view(values@);
        proof {
            lemma_types_view_take(definition@, 0);
            lemma_values_view_take(values@, 0);
        }
        if definition.len() != values.len() {
            return Err(
                SequenceError::SequenceLengthMismatch {
                    expected: definition.len(),
                    provided: values.len(),
                }.promote(),
            );
        }
        let mut index: usize = 0;
        while index < values.len()
            invariant
                definition@.len() == values@.len(),
                index <= values@.len(),
                ts == types_view(definition@),
                vs == values_view(values@),
                ts.len() == definition@.len(),
                vs.len() == values@.len(),
                forall|j: int|
                    0 <= j < index ==> crate::model::name_of(
                        crate::model::value_type(#[trigger] vs[j]),
                    ) == crate::model::name_of(ts[j]),
            decreases values@.len() - index,
        {
            proof {
                lemma_types_view_take(definition@, index as int);
                lemma_values_view_take(values@, index as int);
            }
            match crate::value::concept::validate_cell(&values[index], &definition[index]) {
                Ok(_) => {},
                Err(e) => {
                    proof {
                        lemma_first_name_mismatch_at(ts, vs, index as int);
                    }
                    return Err(e);
                },
            }
            index = index + 1;
        }
        proof {
            lemma_first_name_mismatch_none(ts, vs);
        }
        Ok(Sequence { definition, values: clone_value_slice(values) })
    }

    /// Decodes a sequence from a buffer: consecutive windows of the buffer,
    /// one per declared type and sized by it, each decoded at its type; the
    /// buffer must hold exactly the sum of the declared sizes.
    pub fn from(definition: Tuple, raw: &[u8]) -> (r: TypeResult<Self>)
        requires
            sizes_sum(types_view(definition@)) <= usize::MAX,
        ensures
            match r {
                Ok(s) => decode_tuple(types_view(definition@), raw@) == Ok::<
                    ValueV,
                    TypeErrorV,
                >(s@),
                Err(e) => decode_tuple(types_view(definition@), raw@) == Err::<
                    ValueV,
                    TypeErrorV,
                >(e@),
            },
        decreases types_view(definition@), 3nat,
    {
        let total = sum_size(&definition);
        if raw.len() != total {
            return Err(
                TypeError::InvalidType {
                    expected: Type::Tuple(clone_types(&definition)),
                    provided: Primitive::Bytes(raw.len()).to_rc(),
                },
            );
        }
        let values = match from_members(&definition, raw) {
            Ok(vs) => vs,
            Err(e) => {
                return Err(e);
            },
        };
        Sequence::new(definition, values.as_slice())
    }

    /// The member values, in order.
    pub fn values(&self) -> (r: &[ValueCell])
        ensures
            r@ == self.values@,
    {
        self.values.as_slice()
    }

    /// A copy of the member values.
    pub fn get(&self) -> (r: Vec<ValueCell>)
        ensures
            values_view(r@) == self@->Sequence_values,
    {
        clone_values(&self.values)
    }

    /// Wraps this sequence as a value handle.
    pub fn to_cell(self) -> (r: ValueCell)
        ensures
            r@ == self@,
    {
        ValueCell::Sequence(self)
    }
}

impl Clone for Sequence {
    fn clone(&self) -> (r: Self)
        ensures
            r@ == self@,
    {
        Sequence { definition: clone_types(&self.definition), values: clone_values(&self.values) }
    }
}

impl DataValue for Sequence {
    fn data_type(&self) -> (t: Type) {
        Type::Tuple(clone_types(&self.definition))
    }

    fn raw(&self) -> (r: Vec<u8>) {
        values_to_raw(self.values.as_slice())
    }

    fn set(&mut self, raw: &[u8])
        ensures
            final(self)@ == after_set(old(self)@, raw@),
    {
        sequence_set(self, raw)
    }
}

/// Refreshes a sequence in place: consecutive windows of the buffer, each
/// sized by its member's own declared type, refresh the members in turn.
pub fn sequence_set(s: &mut Sequence, raw: &[u8])
    requires
        set_members_ok(values_view(old(s).values@), raw@),
    ensures
        final(s)@ == after_set(old(s)@, raw@),
    decreases sequence_value_view(*old(s)), 1nat,
{
    let ghost orig_vals = values_view(old(s).values@);
    let _ = raw.len();
    let mut done: Vec<ValueCell> = Vec::new();
    let mut offset: usize = 0;
    proof {
        lemma_values_view_len(old(s).values@);
        assert(raw@.skip(0) =~= raw@);
        assert(values_view(done@) =~= Seq::<ValueV>::empty());
        assert(values_view(done@) + after_set_members(orig_vals, raw@) =~= after_set_members(
            orig_vals,
            raw@,
        ));
        assert(orig_vals.skip(0) =~= orig_vals);
    }
    while s.values.len() > 0
        invariant
            s.definition == old(s).definition,
            orig_vals == values_view(old(s).values@),
            orig_vals.len() == old(s).values@.len(),
            offset <= raw@.len() <= usize::MAX,
            done@.len() + s.values@.len() == old(s).values@.len(),
            values_view(s.values@) == orig_vals.skip(done@.len() as int),
            set_members_ok(values_view(s.values@), raw@.skip(offset as int)),
            values_view(done@) + after_set_members(
                values_view(s.values@),
                raw@.skip(offset as int),
            ) == after_set_members(orig_vals, raw@),
        decreases s.values@.len(),
    {
        let ghost vs_before = s.values@;
        let ghost tail_raw = raw@.skip(offset as int);
        proof {
            lemma_values_view_index(vs_before);
        }
        let mut cell = s.values.remove(0);
        proof {
            assert(s.values@ =~= vs_before.drop_first());
            assert(cell@ == values_view(vs_before)[0]);
            crate::value::concept::lemma_values_view_drop_first(vs_before);
            assert(values_view(s.values@) == values_view(vs_before).drop_first());
            assert(orig_vals.skip(done@.len() as int).drop_first() =~= orig_vals.skip(
                done@.len() as int + 1,
            ));
            assert(values_view(s.values@) == orig_vals.skip(done@.len() as int + 1));
        }
        let dt = cell_data_type(&cell);
        let w = size_of_type(&dt);
        proof {
            assert(tail_raw.take(w as int) =~= raw@.subrange(offset as int, offset as int
                + w as int));
            assert(decreases_to!(sequence_value_view(*old(s)), 1nat => cell@, 2nat)) by {
                let sv = sequence_value_view(*old(s));
                assert(decreases_to!(sv => sv->Sequence_values));
                assert(decreases_to!(sv->Sequence_values => sv->Sequence_values[
                    done@.len() as int
                ]));
                assert(sv->Sequence_values[done@.len() as int] == cell@);
            }
        }
        let window = slice_subrange(raw, offset, offset + w);
        cell_set(&mut cell, window);
        let ghost done_before = done@;
        done.push(cell);
        proof {
            assert(tail_raw.skip(w as int) =~= raw@.skip(offset as int + w as int));
            assert(done_before =~= done@.drop_last());
            assert(values_view(done@) =~= values_view(done_before).push(done@.last()@));
            assert(after_set_members(values_view(vs_before), tail_raw) == seq![
                after_set(values_view(vs_before)[0], tail_raw.take(w as int)),
            ] + after_set_members(values_view(s.values@), tail_raw.skip(w as int)));
            assert(values_view(done@) + after_set_members(
                values_view(s.values@),
                raw@.skip(offset as int + w as int),
            ) =~= (values_view(done_before) + after_set_members(values_view(vs_before), tail_raw)));
        }
        offset = offset + w;
    }
    proof {
        assert(values_view(s.values@).len() == 0) by {
            lemma_values_view_len(s.values@);
        }
        assert(after_set_members(values_view(s.values@), raw@.skip(offset as int))
            =~= Seq::<ValueV>::empty());
        assert(values_view(done@) + Seq::<ValueV>::empty() =~= values_view(done@));
    }
    s.values = done;
}

/// Decodes one value per declared type from consecutive windows of `raw`,
/// each window sized by its type; the first failure is the result.
fn from_members(definition: &Tuple, raw: &[u8]) -> (r: TypeResult<Vec<ValueCell>>)
    requires
        sizes_sum(types_view(definition@)) <= usize::MAX,
        raw@.len() == sizes_sum(types_view(definition@)),
    ensures
        match r {
            Ok(vs) => decode_members(types_view(definition@), raw@) == Ok::<
                Seq<ValueV>,
                TypeErrorV,
            >(values_view(vs@)),
            Err(e) => decode_members(types_view(definition@), raw@) == Err::<
                Seq<ValueV>,
                TypeErrorV,
            >(e@),
        },
    decreases types_view(definition@), 2nat,
{
    let ghost ts = types_view(definition@);
    let mut out: Vec<ValueCell> = Vec::new();
    let mut i: usize = 0;
    let mut offset: usize = 0;
    proof {
        crate::types::sequence::lemma_types_view_len(definition@);
        assert(ts.skip(0) =~= ts);
        assert(raw@.skip(0) =~= raw@);
        assert(values_view(out@) =~= Seq::<ValueV>::empty());
    }
    while i < definition.len()
        invariant
            i <= definition@.len(),
            ts == types_view(definition@),
            ts.len() == definition@.len(),
            sizes_sum(ts) <= usize::MAX,
            raw@.len() == sizes_sum(ts),
            offset == sizes_sum(ts.take(i as int)),
            out@.len() == i,
            decode_members(ts, raw@) == (match decode_members(
                ts.skip(i as int),
                raw@.skip(offset as int),
            ) {
                Ok(rest) => Ok::<Seq<ValueV>, TypeErrorV>(values_view(out@) + rest),
                Err(e) => Err::<Seq<ValueV>, TypeErrorV>(e),
            }),
        decreases definition@.len() - i,
    {
        proof {
            lemma_types_view_take(definition@, i as int);
            lemma_sizes_sum_take(ts, i as int);
            lemma_sizes_sum_take(ts, i as int + 1);
            assert(ts.skip(i as int)[0] == ts[i as int]);
        }
        let w = size_of_type(&definition[i]);
        proof {
            let remaining = ts.skip(i as int);
            let tail_raw = raw@.skip(offset as int);
            assert(tail_raw.subrange(0, w as int) =~= raw@.subrange(
                offset as int,
                offset as int + w as int,
            ));
            assert(sizes_sum(ts.take(i as int + 1)) <= sizes_sum(ts)) by {
                lemma_sizes_sum_take(ts, i as int + 1);
            }
        }
        let window = slice_subrange(raw, offset, offset + w);
        match construct_of_type(&definition[i], window) {
            Ok(cell) => {
                let ghost before = out@;
                out.push(cell);
                proof {
                    let remaining = ts.skip(i as int);
                    let tail_raw = raw@.skip(offset as int);
                    assert(remaining.drop_first() =~= ts.skip(i as int + 1));
                    assert(tail_raw.skip(w as int) =~= raw@.skip(offset as int + w as int));
                    assert(before =~= out@.drop_last());
                    assert(values_view(out@) =~= values_view(before).push(out@.last()@));
                    assert forall|rest: Seq<ValueV>|
                        values_view(out@) + rest =~= values_view(before) + (seq![
                            out@.last()@,
                        ] + rest) by {}
                }
                offset = offset + w;
                i = i + 1;
            },
            Err(e) => {
                return Err(e);
            },
        }
    }
    proof {
        assert(ts.skip(i as int) =~= Seq::<TypeV>::empty());
        assert(raw@.skip(offset as int) =~= Seq::<u8>::empty());
        assert(values_view(out@) + Seq::<ValueV>::empty() =~= values_view(out@));
    }
    Ok(out)
}

/// Concatenates the raw images of the given values, in order.
pub fn values_to_raw(values: &[ValueCell]) -> (r: Vec<u8>)
    ensures
        r@ == raws_of(values_view(values@)),
    decreases values@,
{
    let ghost full = values_view(values@);
    let mut r: Vec<u8> = Vec::new();
    let mut i: usize = 0;
    proof {
        crate::value::concept::lemma_values_view_len(values@);
        assert(full.take(0) =~= Seq::<ValueV>::empty());
        assert(raws_of(full.take(0)) =~= Seq::<u8>::empty());
    }
    while i < values.len()
        invariant
            i <= values@.len(),
            full == values_view(values@),
            full.len() == values@.len(),
            r@ == raws_of(full.take(i as int)),
        decreases values@.len() - i,
    {
        proof {
            lemma_values_view_take(values@, i as int);
            assert(full.take(i as int + 1).drop_last() =~= full.take(i as int));
            assert(full.take(i as int + 1).last() == full[i as int]);
        }
        let mut element = cell_raw(&values[i]);
        r.append(&mut element);
        i = i + 1;
    }
    proof {
        assert(full.take(values@.len() as int) =~= full);
    }
    r
}

/// Clones a vector of value handles, keeping every view.
pub fn clone_values(vs: &Vec<ValueCell>) -> (r: Vec<ValueCell>)
    ensures
        values_view(r@) == values_view(vs@),
        r@.len() == vs@.len(),
        forall|i: int| 0 <= i < vs@.len() ==> (#[trigger] r@[i])@ == vs@[i]@,
    decreases *vs,
{
    let mut r: Vec<ValueCell> = Vec::new();
    let mut i: usize = 0;
    proof {
        assert(vs@.take(0) =~= Seq::<ValueCell>::empty());
        assert(values_view(r@) =~= values_view(vs@.take(0)));
    }
    while i < vs.len()
        invariant
            i <= vs@.len(),
            r@.len() == i,
            values_view(r@) == values_view(vs@.take(i as int)),
            forall|j: int| 0 <= j < i ==> (#[trigger] r@[j])@ == vs@[j]@,
        decreases vs@.len() - i,
    {
        let ghost before = r@;
        r.push(clone_cell(&vs[i]));
        proof {
            assert(before =~= r@.drop_last());
            assert(vs@.take(i as int + 1).drop_last() =~= vs@.take(i as int));
        }
        i = i + 1;
    }
    proof {
        assert(vs@.take(vs@.len() as int) =~= vs@);
    }
    r
}

/// Clones a slice of value handles, keeping every view.
pub fn clone_value_slice(vs: &[ValueCell]) -> (r: Vec<ValueCell>)
    ensures
        values_view(r@) == values_view(vs@),
        r@.len() == vs@.len(),
        forall|i: int| 0 <= i < vs@.len() ==> (#[trigger] r@[i])@ == vs@[i]@,
{
    let mut r: Vec<ValueCell> = Vec::new();
    let mut i: usize = 0;
    proof {
        assert(vs@.take(0) =~= Seq::<ValueCell>::empty());
        assert(values_view(r@) =~= values_view(vs@.take(0)));
    }
    while i < vs.len()
        invariant
            i <= vs@.len(),
            r@.len() == i,
            values_view(r@) == values_view(vs@.take(i as int)),
            forall|j: int| 0 <= j < i ==> (#[trigger] r@[j])@ == vs@[j]@,
        decreases vs@.len() - i,
    {
        let ghost before = r@;
        r.push(clone_cell(&vs[i]));
        proof {
            assert(before =~= r@.drop_last());
            assert(vs@.take(i as int + 1).drop_last() =~= vs@.take(i as int));
        }
        i = i + 1;
    }
    proof {
        assert(vs@.take(vs@.len() as int) =~= vs@);
    }
    r
}

} // verus!
