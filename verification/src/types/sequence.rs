//! The [`Tuple`]: an ordered sequence of types, the structural basis of
//! sequences, products and sums.

use vstd::prelude::*;
use vstd::string::*;
use crate::model::{TypeV, type_size, sizes_sum, joined_names, lemma_sizes_sum_take};
use crate::types::concept::{Type, type_view, types_view, size_of_type, typename_of, clone_type};

verus! {

/// An ordered sequence of types.
pub type Tuple = Vec<Type>;

/// Returns the sum of the sizes of all types in the [`Tuple`].
pub fn sum_size(record: &Tuple) -> (r: usize)
    requires
        sizes_sum(types_view(record@)) <= usize::MAX,
    ensures
        r == sizes_sum(types_view(record@)),
    decreases *record,
{
    let ghost full = types_view(record@);
    let mut r: usize = 0;
    let mut i: usize = 0;
    proof {
        lemma_types_view_len(record@);
        assert(full.take(0) =~= Seq::<crate::model::TypeV>::empty());
    }
    while i < record.len()
        invariant
            i <= record@.len(),
            full == types_view(record@),
            full.len() == record@.len(),
            sizes_sum(full) <= usize::MAX,
            r == sizes_sum(full.take(i as int)),
        decreases record@.len() - i,
    {
        proof {
            lemma_types_view_take(record@, i as int + 1);
            lemma_types_view_take(record@, i as int);
            assert(full.take(i as int + 1).drop_last() =~= full.take(i as int));
            assert(full.take(i as int + 1).last() == type_view(record@[i as int]));
            lemma_sizes_sum_take(full, i as int + 1);
        }
        r = r + size_of_type(&record[i]);
        i = i + 1;
    }
    proof {
        assert(full.take(record@.len() as int) =~= full);
    }
    r
}

/// The sizes of the given types, in order, as machine integers.
pub open spec fn sizes_of(ts: Seq<TypeV>) -> Seq<usize> {
    ts.map_values(|t: TypeV| type_size(t) as usize)
}

/// Whether `r` can come out of reducing `sizes` with `func`, folding from
/// the left with the first size as the start; an empty reduction is zero.
/// Each step is tied to `func` by what `func` itself ensures.
pub open spec fn reduce_rel<F: Fn(usize, usize) -> usize>(
    sizes: Seq<usize>,
    func: F,
    r: usize,
) -> bool
    decreases sizes.len(),
{
    if sizes.len() == 0 {
        r == 0
    } else if sizes.len() == 1 {
        r == sizes[0]
    } else {
        exists|acc: usize|
            #[trigger] call_ensures(func, (acc, sizes.last()), r) && reduce_rel(
                sizes.drop_last(),
                func,
                acc,
            )
    }
}

/// Returns the result of a reduce operation over the size of each type in
/// the [`Tuple`].
pub fn fn_size<F: Fn(usize, usize) -> usize>(record: &Tuple, func: F) -> (r: usize)
    requires
        sizes_sum(types_view(record@)) <= usize::MAX,
        forall|a: usize, b: usize| call_requires(func, (a, b)),
    ensures
        reduce_rel(sizes_of(types_view(record@)), func, r),
{
    let ghost full = types_view(record@);
    let ghost szs = sizes_of(full);
    let mut r: usize = 0;
    let mut i: usize = 0;
    proof {
        lemma_types_view_len(record@);
        assert(szs.take(0) =~= Seq::<usize>::empty());
    }
    while i < record.len()
        invariant
            i <= record@.len(),
            full == types_view(record@),
            szs == sizes_of(full),
            full.len() == record@.len(),
            szs.len() == full.len(),
            sizes_sum(full) <= usize::MAX,
            forall|a: usize, b: usize| call_requires(func, (a, b)),
            reduce_rel(szs.take(i as int), func, r),
        decreases record@.len() - i,
    {
        proof {
            lemma_types_view_take(record@, i as int);
            lemma_sizes_sum_take(full, i as int);
            lemma_sizes_sum_take(full, i as int + 1);
            assert(szs.take(i as int + 1).drop_last() =~= szs.take(i as int));
            assert(szs.take(i as int + 1).last() == szs[i as int]);
        }
        let next = size_of_type(&record[i]);
        if i == 0 {
            r = next;
        } else {
            let ghost acc = r;
            r = func(r, next);
            proof {
                let sizes1 = szs.take(i as int + 1);
                assert(reduce_rel(sizes1.drop_last(), func, acc) && call_ensures(
                    func,
                    (acc, sizes1.last()),
                    r,
                ));
                assert(reduce_rel(sizes1, func, r));
            }
        }
        i = i + 1;
    }
    proof {
        assert(szs.take(record@.len() as int) =~= szs);
    }
    r
}

/// The view of a prefix of type handles is the prefix of their views.
pub proof fn lemma_types_view_take(ts: Seq<Type>, i: int)
    requires
        0 <= i <= ts.len(),
    ensures
        types_view(ts).len() == ts.len(),
        types_view(ts.take(i)) == types_view(ts).take(i),
        i < ts.len() ==> types_view(ts)[i] == type_view(ts[i]),
    decreases ts.len(),
{
    lemma_types_view_len(ts);
    if ts.len() > 0 {
        if i == ts.len() {
            assert(ts.take(i) =~= ts);
            assert(types_view(ts).take(i) =~= types_view(ts));
        } else {
            lemma_types_view_take(ts.drop_last(), i);
            assert(ts.take(i) =~= ts.drop_last().take(i));
            assert(types_view(ts).take(i) =~= types_view(ts.drop_last()).take(i));
            if i < ts.len() - 1 {
                lemma_types_view_take(ts.drop_last(), i + 1);
                assert(types_view(ts.drop_last())[i] == type_view(ts.drop_last()[i]));
            }
        }
    } else {
        assert(types_view(ts.take(i)) =~= types_view(ts).take(i));
    }
}

/// A sequence of type handles views to as many abstract types.
pub proof fn lemma_types_view_len(ts: Seq<Type>)
    ensures
        types_view(ts).len() == ts.len(),
    decreases ts.len(),
{
    if ts.len() > 0 {
        lemma_types_view_len(ts.drop_last());
    }
}

/// Joins the typenames of the [`Tuple`] with the given separator.
pub fn join(record: &Tuple, with: &str) -> (r: String)
    ensures
        r@ == joined_names(types_view(record@), with@),
    decreases *record,
{
    let ghost full = types_view(record@);
    let mut r = String::new();
    let mut i: usize = 0;
    proof {
        lemma_types_view_len(record@);
        assert(full.take(0) =~= Seq::<crate::model::TypeV>::empty());
    }
    while i < record.len()
        invariant
            i <= record@.len(),
            full == types_view(record@),
            full.len() == record@.len(),
            r@ == joined_names(full.take(i as int), with@),
        decreases record@.len() - i,
    {
        proof {
            lemma_types_view_take(record@, i as int + 1);
            lemma_types_view_take(record@, i as int);
            assert(full.take(i as int + 1).drop_last() =~= full.take(i as int));
            assert(full.take(i as int + 1).last() == type_view(record@[i as int]));
        }
        if i > 0 {
            r.append(with);
        }
        r.append(typename_of(&record[i]).as_str());
        proof {
            assert(r@ =~= joined_names(full.take(i as int + 1), with@));
        }
        i = i + 1;
    }
    proof {
        assert(full.take(record@.len() as int) =~= full);
    }
    r
}

/// Clones a vector of type handles, keeping every view.
pub fn clone_types(ts: &Vec<Type>) -> (r: Vec<Type>)
    ensures
        types_view(r@) == types_view(ts@),
        r@.len() == ts@.len(),
        forall|i: int| 0 <= i < ts@.len() ==> (#[trigger] r@[i])@ == ts@[i]@,
    decreases *ts,
{
    let mut r: Vec<Type> = Vec::new();
    let mut i: usize = 0;
    proof {
        assert(ts@.take(0) =~= Seq::<Type>::empty());
        assert(types_view(r@) =~= types_view(ts@.take(0)));
    }
    while i < ts.len()
        invariant
            i <= ts@.len(),
            r@.len() == i,
            types_view(r@) == types_view(ts@.take(i as int)),
            forall|j: int| 0 <= j < i ==> (#[trigger] r@[j])@ == ts@[j]@,
        decreases ts@.len() - i,
    {
        let ghost before = r@;
        r.push(clone_type(&ts[i]));
        proof {
            assert(before =~= r@.drop_last());
            assert(ts@.take(i as int + 1).drop_last() =~= ts@.take(i as int));
        }
        i = i + 1;
    }
    proof {
        assert(ts@.take(ts@.len() as int) =~= ts@);
    }
    r
}

/// Clones a slice of type handles, keeping every view.
pub fn clone_type_slice(ts: &[Type]) -> (r: Vec<Type>)
    ensures
        types_view(r@) == types_view(ts@),
        r@.len() == ts@.len(),
        forall|i: int| 0 <= i < ts@.len() ==> (#[trigger] r@[i])@ == ts@[i]@,
{
    let mut r: Vec<Type> = Vec::new();
    let mut i: usize = 0;
    proof {
        assert(ts@.take(0) =~= Seq::<Type>::empty());
        assert(types_view(r@) =~= types_view(ts@.take(0)));
    }
    while i < ts.len()
        invariant
            i <= ts@.len(),
            r@.len() == i,
            types_view(r@) == types_view(ts@.take(i as int)),
            forall|j: int| 0 <= j < i ==> (#[trigger] r@[j])@ == ts@[j]@,
        decreases ts@.len() - i,
    {
        let ghost before = r@;
        r.push(clone_type(&ts[i]));
        proof {
            assert(before =~= r@.drop_last());
            assert(ts@.take(i as int + 1).drop_last() =~= ts@.take(i as int));
        }
        i = i + 1;
    }
    proof {
        assert(ts@.take(ts@.len() as int) =~= ts@);
    }
    r
}

} // verus!
