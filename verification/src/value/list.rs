//! The [`List`]: a runtime-homogeneous collection of values of one type,
//! with a strict push-time type check.

use vstd::prelude::*;
use vstd::slice::slice_subrange;
use crate::model::{
    ValueV, TypeErrorV, name_of, value_type, type_size, decode, decode_list, set_ok,
    set_list_ok, after_set, after_set_list,
};
use crate::types::concept::{DataType, Type, size_of_type, construct_of_type};
use crate::types::primitive::Primitive;
use crate::value::concept::{
    DataValue, ValueCell, values_view, lemma_values_view_take, lemma_values_view_len,
    lemma_values_view_index, cell_set, list_view,
};
use crate::value::error::{CanTypeError, TypeResult};
use crate::value::sequence::values_to_raw;

verus! {

/// A homogeneous list of values.
#[derive(Debug)]
pub struct List {
    pub of_type: Type,
    pub elements: Vec<ValueCell>,
}

impl View for List {
    type V = ValueV;

    open spec fn view(&self) -> ValueV {
        crate::value::concept::list_view(*self)
    }
}

impl List {
    /// A list of the given element type with no elements yet.
    pub fn empty(of_type: Type) -> (r: Self)
        ensures
            r@ == (ValueV::List { of_type: of_type@, elements: Seq::<ValueV>::empty() }),
    {
        let r = List { of_type, elements: Vec::new() };
        proof {
            assert(values_view(r.elements@) =~= Seq::<ValueV>::empty());
        }
        r
    }

    pub fn len(&self) -> (r: usize)
        ensures
            r == self@->List_elements.len(),
    {
        proof {
            lemma_values_view_take(self.elements@, 0);
        }
        self.elements.len()
    }

    pub fn is_empty(&self) -> (r: bool)
        ensures
            r == (self@->List_elements.len() == 0),
    {
        proof {
            lemma_values_view_take(self.elements@, 0);
        }
        self.elements.is_empty()
    }

    /// Appends a value after checking its type name against the element
    /// type; a mismatch leaves the list unchanged.
    pub fn push(&mut self, value: ValueCell) -> (r: CanTypeError)
        ensures
            match r {
                Ok(_) => {
                    &&& name_of(value_type(value@)) == name_of(old(self)@->List_of_type)
                    &&& final(self)@ == (ValueV::List {
                        of_type: old(self)@->List_of_type,
                        elements: old(self)@->List_elements.push(value@),
                    })
                },
                Err(e) => {
                    &&& name_of(value_type(value@)) != name_of(old(self)@->List_of_type)
                    &&& e@ == (TypeErrorV::InvalidType {
                        expected: old(self)@->List_of_type,
                        provided: value_type(value@),
                    })
                    &&& final(self)@ == old(self)@
                },
            },
    {
        match value.validate_type(&self.of_type) {
            Ok(_) => {
                let ghost before = self.elements@;
                self.elements.push(value);
                proof {
                    assert(before =~= self.elements@.drop_last());
                }
                Ok(())
            },
            Err(e) => Err(e),
        }
    }

    /// Wraps this list as a value handle.
    pub fn to_cell(self) -> (r: ValueCell)
        ensures
            r@ == self@,
    {
        ValueCell::List(self)
    }

    /// Decodes a list of `size` elements from a buffer of consecutive
    /// windows, each sized by the element type and decoded at it.
    pub fn from(of_type: Type, size: usize, raw: &[u8]) -> (r: TypeResult<Self>)
        requires
            raw@.len() == type_size(of_type@) * size,
        ensures
            match r {
                Ok(lst) => decode_list(of_type@, size as nat, raw@) matches Ok(els) && lst@ == (
                ValueV::List { of_type: of_type@, elements: els }),
                Err(e) => decode_list(of_type@, size as nat, raw@) == Err::<
                    Seq<ValueV>,
                    TypeErrorV,
                >(e@),
            },
        decreases of_type@, 2nat,
    {
        let ghost etv = of_type@;
        let _ = raw.len();
        let mut elements: Vec<ValueCell> = Vec::new();
        if size == 0 {
            let r = List { of_type, elements };
            proof {
                assert(values_view(r.elements@) =~= Seq::<ValueV>::empty());
            }
            return Ok(r);
        }
        proof {
            let n = size as nat;
            let es = type_size(etv);
            assert(es <= es * n) by (nonlinear_arith)
                requires
                    n >= 1,
            ;
        }
        let w = size_of_type(&of_type);
        let mut i: usize = 0;
        let mut offset: usize = 0;
        proof {
            assert(raw@.skip(0) =~= raw@);
            assert(values_view(elements@) =~= Seq::<ValueV>::empty());
        }
        while i < size
            invariant
                i <= size,
                etv == of_type@,
                w == type_size(etv),
                raw@.len() == type_size(etv) * size,
                raw@.len() <= usize::MAX,
                offset == i * w,
                elements@.len() == i,
                decode_list(etv, size as nat, raw@) == (match decode_list(
                    etv,
                    (size - i) as nat,
                    raw@.skip(offset as int),
                ) {
                    Ok(rest) => Ok::<Seq<ValueV>, TypeErrorV>(values_view(elements@) + rest),
                    Err(e) => Err::<Seq<ValueV>, TypeErrorV>(e),
                }),
            decreases size - i,
        {
            proof {
                let n = size as nat;
                let iv = i as nat;
                assert((iv + 1) * w <= n * w) by (nonlinear_arith)
                    requires
                        iv + 1 <= n,
                        w >= 0,
                ;
                assert(iv * w + w == (iv + 1) * w) by (nonlinear_arith);
                assert(n * w == w * n) by (nonlinear_arith);
                let tail_raw = raw@.skip(offset as int);
                assert(tail_raw.subrange(0, w as int) =~= raw@.subrange(
                    offset as int,
                    offset as int + w as int,
                ));
            }
            let window = slice_subrange(raw, offset, offset + w);
            match construct_of_type(&of_type, window) {
                Ok(cell) => {
                    let ghost before = elements@;
                    elements.push(cell);
                    proof {
                        let tail_raw = raw@.skip(offset as int);
                        assert(tail_raw.skip(w as int) =~= raw@.skip(offset as int + w as int));
                        assert(before =~= elements@.drop_last());
                        assert(values_view(elements@) =~= values_view(before).push(
                            elements@.last()@,
                        ));
                        assert forall|rest: Seq<ValueV>|
                            values_view(elements@) + rest =~= values_view(before) + (seq![
                                elements@.last()@,
                            ] + rest) by {}
                    }
                    offset = offset + w;
                    i = i + 1;
                },
                Err(e) => {
                    return Err(e);
                },
            }
        }
        proof {
            assert(values_view(elements@) + Seq::<ValueV>::empty() =~= values_view(elements@));
        }
        Ok(List { of_type, elements })
    }

    /// A copy of the element at the given position, or nothing when out of
    /// range.
    pub fn item(&self, index: usize) -> (r: Option<ValueCell>)
        ensures
            match r {
                Some(v) => index < self@->List_elements.len() && v@ == self@->List_elements[
                    index as int
                ],
                None => index >= self@->List_elements.len(),
            },
    {
        proof {
            lemma_values_view_take(self.elements@, 0);
        }
        if index < self.elements.len() {
            proof {
                lemma_values_view_take(self.elements@, index as int);
            }
            Some(self.elements[index].clone())
        } else {
            None
        }
    }
}

impl Clone for List {
    fn clone(&self) -> (r: Self)
        ensures
            r@ == self@,
    {
        List {
            of_type: self.of_type.clone(),
            elements: crate::value::sequence::clone_values(&self.elements),
        }
    }
}

impl DataValue for List {
    fn data_type(&self) -> (t: Type) {
        proof {
            lemma_values_view_take(self.elements@, 0);
        }
        Primitive::list(self.of_type.clone(), self.elements.len()).to_rc()
    }

    fn raw(&self) -> (r: Vec<u8>) {
        values_to_raw(self.elements.as_slice())
    }

    fn set(&mut self, raw: &[u8])
        ensures
            final(self)@ == after_set(old(self)@, raw@),
    {
        list_set(self, raw)
    }
}

/// Refreshes a list in place: consecutive windows of the buffer, each sized
/// by the element type, refresh the elements in turn.
pub fn list_set(l: &mut List, raw: &[u8])
    requires
        set_ok(old(l)@, raw@),
    ensures
        final(l)@ == after_set(old(l)@, raw@),
    decreases list_view(*old(l)), 1nat,
{
    let ghost etv = old(l).of_type@;
    let ghost orig_vals = values_view(old(l).elements@);
    let _ = raw.len();
    proof {
        lemma_values_view_len(l.elements@);
        lemma_values_view_len(old(l).elements@);
    }
    if l.elements.len() == 0 {
        proof {
            assert(after_set_list(orig_vals, raw@, type_size(etv)) =~= Seq::<ValueV>::empty());
            assert(values_view(l.elements@) =~= Seq::<ValueV>::empty());
        }
        return ;
    }
    proof {
        let n = orig_vals.len();
        let es = type_size(etv);
        assert(es <= es * n) by (nonlinear_arith)
            requires
                n >= 1,
        ;
    }
    let w = size_of_type(&l.of_type);
    let mut done: Vec<ValueCell> = Vec::new();
    let mut offset: usize = 0;
    proof {
        assert(raw@.skip(0) =~= raw@);
        assert(values_view(done@) =~= Seq::<ValueV>::empty());
        assert(values_view(done@) + after_set_list(orig_vals, raw@, w as nat) =~= after_set_list(
            orig_vals,
            raw@,
            w as nat,
        ));
        assert(orig_vals.skip(0) =~= orig_vals);
    }
    while l.elements.len() > 0
        invariant
            l.of_type == old(l).of_type,
            etv == old(l).of_type@,
            w == type_size(etv),
            orig_vals == values_view(old(l).elements@),
            orig_vals.len() == old(l).elements@.len(),
            offset <= raw@.len() <= usize::MAX,
            done@.len() + l.elements@.len() == old(l).elements@.len(),
            values_view(l.elements@) == orig_vals.skip(done@.len() as int),
            set_list_ok(values_view(l.elements@), raw@.skip(offset as int), w as nat),
            raw@.len() - offset >= type_size(etv) * values_view(l.elements@).len(),
            values_view(done@) + after_set_list(
                values_view(l.elements@),
                raw@.skip(offset as int),
                w as nat,
            ) == after_set_list(orig_vals, raw@, w as nat),
        decreases l.elements@.len(),
    {
        let ghost vs_before = l.elements@;
        let ghost tail_raw = raw@.skip(offset as int);
        proof {
            lemma_values_view_index(vs_before);
            let m = values_view(vs_before).len();
            assert(type_size(etv) * m == type_size(etv) + type_size(etv) * (m - 1))
                by (nonlinear_arith)
                requires
                    m >= 1,
            ;
        }
        let mut cell = l.elements.remove(0);
        proof {
            assert(l.elements@ =~= vs_before.drop_first());
            assert(cell@ == values_view(vs_before)[0]);
            crate::value::concept::lemma_values_view_drop_first(vs_before);
            assert(values_view(l.elements@) == values_view(vs_before).drop_first());
            assert(orig_vals.skip(done@.len() as int).drop_first() =~= orig_vals.skip(
                done@.len() as int + 1,
            ));
            assert(values_view(l.elements@) == orig_vals.skip(done@.len() as int + 1));
            assert(tail_raw.take(w as int) =~= raw@.subrange(offset as int, offset as int
                + w as int));
            assert(decreases_to!(list_view(*old(l)), 1nat => cell@, 2nat)) by {
                let lv = list_view(*old(l));
                assert(decreases_to!(lv => lv->List_elements));
                assert(decreases_to!(lv->List_elements => lv->List_elements[
                    done@.len() as int
                ]));
                assert(lv->List_elements[done@.len() as int] == cell@);
            }
        }
        let window = slice_subrange(raw, offset, offset + w);
        cell_set(&mut cell, window);
        let ghost done_before = done@;
        done.push(cell);
        proof {
            assert(tail_raw.skip(w as int) =~= raw@.skip(offset as int + w as int));
            assert(done_before =~= done@.drop_last());
            assert(values_view(done@) =~= values_view(done_before).push(done@.last()@));
            assert(after_set_list(values_view(vs_before), tail_raw, w as nat) == seq![
                after_set(values_view(vs_before)[0], tail_raw.take(w as int)),
            ] + after_set_list(values_view(l.elements@), tail_raw.skip(w as int), w as nat));
            assert(values_view(done@) + after_set_list(
                values_view(l.elements@),
                raw@.skip(offset as int + w as int),
                w as nat,
            ) =~= (values_view(done_before) + after_set_list(
                values_view(vs_before),
                tail_raw,
                w as nat,
            )));
        }
        offset = offset + w;
    }
    proof {
        assert(values_view(l.elements@).len() == 0) by {
            lemma_values_view_len(l.elements@);
        }
        assert(after_set_list(values_view(l.elements@), raw@.skip(offset as int), w as nat)
            =~= Seq::<ValueV>::empty());
        assert(values_view(done@) + Seq::<ValueV>::empty() =~= values_view(done@));
    }
    l.elements = done;
}

} // verus!
