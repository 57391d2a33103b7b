//! The laws of the type/value duality, stated over the abstract model and
//! proved once and for all: size agreement, the byte-exact round trip,
//! the tuple size laws, and named-type identity.

use vstd::prelude::*;
use crate::encoding::{
    be_bytes, be_value, pow256, lemma_be_bytes_len, lemma_be_value_of_be_bytes,
    lemma_pow256_positive,
};
use crate::model::{
    TypeV, ValueV, type_size, sizes_sum, sizes_max, name_of, value_type, value_raw, raws_of,
    value_wf, values_wf, values_typed, values_typed_alike, i64_bits, bits_i64, decode,
    decode_tuple, decode_sum, decode_members, decode_list, validated_sequence, sum_new,
    bytes_of_raw, lemma_first_name_mismatch_none, lemma_sizes_sum_take,
};

verus! {

// ---------------------------------------------------------------------------
// Which values the layout laws speak of
// ---------------------------------------------------------------------------

/// Whether a type is free of sums.  A sum's value form carries an eight-byte
/// tag on top of the type's layout size, so a sum *member* of a product or
/// list breaks the fixed-window layout; the laws about those layouts leave
/// sum members out.
pub open spec fn sum_free(t: TypeV) -> bool
    decreases t,
{
    match t {
        TypeV::Sum(_) => false,
        TypeV::Enumeration { .. } => false,
        TypeV::Reference(_) => true,
        TypeV::List(et, _) => sum_free(*et),
        TypeV::Tuple(ts) => sum_free_all(ts),
        TypeV::Product(ts) => sum_free_all(ts),
        TypeV::Structure { product, .. } => sum_free(*product),
        _ => true,
    }
}

/// Whether every type in a sequence is free of sums.
pub open spec fn sum_free_all(ts: Seq<TypeV>) -> bool
    decreases ts,
{
    if ts.len() == 0 {
        true
    } else {
        sum_free_all(ts.drop_last()) && sum_free(ts.last())
    }
}

/// The values the full round trip is claimed of: every container member is
/// of a sum-free type (a sum or union may stand at the top, and sums may
/// nest along the active-value spine), no general byte group has width one
/// (decoding one byte yields the canonical `byte` class, whose name
/// differs), and no bare product value stands anywhere (a bare product
/// decodes to the structurally identical bare sequence, so its bytes come
/// back but its nominal wrapper does not; see
/// [`law_product_value_round_trip`]).
pub open spec fn round_trippable(v: ValueV) -> bool
    decreases v,
{
    match v {
        ValueV::Bytes { width, .. } => width != 1,
        ValueV::List { of_type, elements } => sum_free(of_type) && round_trippable_all(elements),
        ValueV::Sequence { definition, values } => sum_free_all(definition)
            && round_trippable_all(values),
        ValueV::Product { .. } => false,
        ValueV::Record { value, .. } => match *value {
            ValueV::Product { value: inner, .. } => round_trippable(*inner),
            _ => false,
        },
        ValueV::Sum { value, .. } => round_trippable(*value),
        ValueV::Union { value, .. } => round_trippable(*value),
        _ => true,
    }
}

/// Whether every value in a sequence is round-trippable.
pub open spec fn round_trippable_all(vs: Seq<ValueV>) -> bool
    decreases vs,
{
    if vs.len() == 0 {
        true
    } else {
        round_trippable_all(vs.drop_last()) && round_trippable(vs.last())
    }
}

// ---------------------------------------------------------------------------
// Size agreement
// ---------------------------------------------------------------------------

/// Size agreement: a valid value of a sum-free type has exactly as many
/// bytes as its type's layout size.  (A sum value carries its eight-byte tag
/// on top of its type's size, which is its largest variant's; the law
/// therefore speaks of sum-free types.)
pub proof fn law_size_agreement(v: ValueV)
    requires
        value_wf(v),
        sum_free(value_type(v)),
    ensures
        value_raw(v).len() == type_size(value_type(v)),
    decreases v, 1nat,
{
    match v {
        ValueV::Boolean(_) => {},
        ValueV::Byte(x) => {
            lemma_be_bytes_len(x as nat, 1);
        },
        ValueV::Word(x) => {
            lemma_be_bytes_len(x as nat, 2);
        },
        ValueV::Quad(x) => {
            lemma_be_bytes_len(x as nat, 4);
        },
        ValueV::Long(x) => {
            lemma_be_bytes_len(x as nat, 8);
        },
        ValueV::Wide(x) => {
            lemma_be_bytes_len(x as nat, 16);
        },
        ValueV::Arch(x) => {
            lemma_be_bytes_len(x as nat, 8);
        },
        ValueV::Bytes { .. } => {},
        ValueV::Float(bits) => {
            lemma_be_bytes_len(bits as nat, 8);
        },
        ValueV::Integer(i) => {
            lemma_be_bytes_len(i64_bits(i), 8);
        },
        ValueV::Reference { address, .. } => {
            lemma_be_bytes_len(address as nat, 8);
        },
        ValueV::List { of_type, elements } => {
            lemma_list_members_size(of_type, elements);
        },
        ValueV::Sequence { definition, values } => {
            lemma_members_size(definition, values);
        },
        ValueV::Product { value, .. } => {
            law_size_agreement(*value);
        },
        ValueV::Record { value, .. } => {
            law_size_agreement(*value);
        },
        ValueV::Sum { .. } => {},
        ValueV::Union { .. } => {},
    }
}

/// The members of a valid sequence, each of its declared sum-free type,
/// together have exactly the sum of the declared sizes.
proof fn lemma_members_size(ts: Seq<TypeV>, vs: Seq<ValueV>)
    requires
        vs.len() == ts.len(),
        values_wf(vs),
        values_typed(vs, ts),
        sum_free_all(ts),
    ensures
        raws_of(vs).len() == sizes_sum(ts),
    decreases vs, 0nat,
{
    if vs.len() > 0 {
        assert(values_typed(vs.drop_last(), ts.drop_last())) by {
            assert(forall|i: int|
                0 <= i < vs.len() - 1 ==> vs.drop_last()[i] == vs[i] && ts.drop_last()[i]
                    == ts[i]);
        }
        lemma_members_size(ts.drop_last(), vs.drop_last());
        law_size_agreement(vs.last());
        assert(value_type(vs.last()) == ts.last());
    }
}

/// The elements of a valid list, all of one sum-free element type, together
/// have exactly the element size times their number.
proof fn lemma_list_members_size(et: TypeV, vs: Seq<ValueV>)
    requires
        values_wf(vs),
        values_typed_alike(vs, et),
        sum_free(et),
    ensures
        raws_of(vs).len() == type_size(et) * vs.len(),
    decreases vs, 0nat,
{
    if vs.len() == 0 {
        assert(type_size(et) * 0 == 0);
    } else {
        assert(values_typed_alike(vs.drop_last(), et)) by {
            assert(forall|i: int| 0 <= i < vs.len() - 1 ==> vs.drop_last()[i] == vs[i]);
        }
        lemma_list_members_size(et, vs.drop_last());
        law_size_agreement(vs.last());
        assert(type_size(et) * (vs.len() - 1) + type_size(et) == type_size(et) * vs.len())
            by (nonlinear_arith);
    }
}

// ---------------------------------------------------------------------------
// Round trip
// ---------------------------------------------------------------------------

/// Round trip: decoding a valid, round-trippable value's byte image at the
/// value's own type succeeds, and the decoded value has the same byte image
/// and the same type, and is valid again.  Decoding therefore reproduces the
/// bytes exactly: `t.construct_from_raw(v.raw()).raw() == v.raw()`.
#[verifier::rlimit(60)]
pub proof fn law_round_trip(v: ValueV)
    requires
        value_wf(v),
        round_trippable(v),
    ensures
        decode(value_type(v), value_raw(v)) matches Ok(w) && value_raw(w) == value_raw(v)
            && value_type(w) == value_type(v) && value_wf(w) && round_trippable(w),
    decreases v, 3nat,
{
    crate::encoding::lemma_pow256_table();
    match v {
        ValueV::Boolean(b) => {},
        ValueV::Byte(x) => {
            lemma_scalar_round_trip(x as nat, 1);
        },
        ValueV::Word(x) => {
            lemma_scalar_round_trip(x as nat, 2);
        },
        ValueV::Quad(x) => {
            lemma_scalar_round_trip(x as nat, 4);
        },
        ValueV::Long(x) => {
            lemma_scalar_round_trip(x as nat, 8);
        },
        ValueV::Wide(x) => {
            lemma_scalar_round_trip(x as nat, 16);
        },
        ValueV::Arch(x) => {
            lemma_scalar_round_trip(x as nat, 8);
        },
        ValueV::Bytes { data, width } => {
            if width == 2 || width == 4 || width == 8 || width == 16 {
                crate::encoding::lemma_be_bytes_of_be_value(data);
                crate::encoding::lemma_be_value_bound(data);
            } else {
                assert(bytes_of_raw(data) =~= v);
            }
        },
        ValueV::Float(bits) => {
            lemma_scalar_round_trip(bits as nat, 8);
        },
        ValueV::Integer(i) => {
            lemma_scalar_round_trip(i64_bits(i), 8);
        },
        ValueV::Reference { address, .. } => {
            lemma_scalar_round_trip(address as nat, 8);
        },
        ValueV::List { of_type, elements } => {
            lemma_list_members_size(of_type, elements);
            lemma_list_round_trip(of_type, elements, raws_of(elements));
            let ws = decode_list(of_type, elements.len(), raws_of(elements))->Ok_0;
            let w = ValueV::List { of_type, elements: ws };
            assert(decode(value_type(v), value_raw(v)) == Ok::<ValueV, crate::model::TypeErrorV>(
                w,
            ));
            assert(value_wf(w) && round_trippable(w));
        },
        ValueV::Sequence { definition, values } => {
            lemma_members_size(definition, values);
            lemma_members_round_trip(definition, values, raws_of(values));
            let ws = decode_members(definition, raws_of(values))->Ok_0;
            assert forall|i: int| 0 <= i < definition.len() implies name_of(
                value_type(#[trigger] ws[i]),
            ) == name_of(definition[i]) by {}
            lemma_first_name_mismatch_none(definition, ws);
            let w = ValueV::Sequence { definition, values: ws };
            assert(validated_sequence(definition, ws) == Ok::<ValueV, crate::model::TypeErrorV>(
                w,
            ));
            assert(decode(value_type(v), value_raw(v)) == Ok::<ValueV, crate::model::TypeErrorV>(
                w,
            ));
            assert(value_wf(w) && round_trippable(w));
        },
        ValueV::Product { .. } => {
            assert(false);
        },
        ValueV::Record { structure, value } => {
            assert(value_wf(*value));
            match *value {
                ValueV::Product { types, value: inner } => {
                    assert(value_wf(*inner));
                    law_round_trip(*inner);
                    assert(*inner matches ValueV::Sequence { definition, .. } && definition
                        == types);
                    assert(value_type(*inner) == TypeV::Tuple(types));
                    assert(value_raw(v) == value_raw(*value));
                    assert(value_raw(*value) == value_raw(*inner));
                    assert(decode(TypeV::Tuple(types), value_raw(*inner)) == decode_tuple(
                        types,
                        value_raw(*inner),
                    ));
                    let w_seq = decode_tuple(types, value_raw(v))->Ok_0;
                    assert(value_wf(w_seq) && round_trippable(w_seq) && value_type(w_seq)
                        == TypeV::Tuple(types));
                    assert(w_seq matches ValueV::Sequence { definition, .. } && definition
                        == types);
                    let w_prod = ValueV::Product { types, value: Box::new(w_seq) };
                    assert(value_wf(w_prod));
                    assert(value_raw(w_prod) == value_raw(w_seq));
                    let w = ValueV::Record { structure, value: Box::new(w_prod) };
                    assert(decode(value_type(v), value_raw(v)) == Ok::<
                        ValueV,
                        crate::model::TypeErrorV,
                    >(w));
                    assert(value_raw(w) == value_raw(w_prod));
                    assert(value_wf(w));
                    assert(round_trippable(w));
                },
                _ => {
                    assert(false);
                },
            }
        },
        ValueV::Sum { variants, tag, value } => {
            law_round_trip(*value);
            let raw = value_raw(v);
            lemma_be_bytes_len(tag, 8);
            assert(raw.subrange(0, 8) =~= be_bytes(tag, 8));
            assert(raw.subrange(8, raw.len() as int) =~= value_raw(*value));
            lemma_be_value_of_be_bytes(tag, 8);
            vstd::arithmetic::div_mod::lemma_small_mod(tag, pow256(8));
            assert(value_type(*value) == variants[tag as int]);
            let w_inner = decode(variants[tag as int], value_raw(*value))->Ok_0;
            assert(sum_new(variants, tag, w_inner) == Ok::<ValueV, crate::model::TypeErrorV>(
                ValueV::Sum { variants, tag, value: Box::new(w_inner) },
            ));
            let w = ValueV::Sum { variants, tag, value: Box::new(w_inner) };
            assert(decode(value_type(v), raw) == decode_sum(variants, raw));
            assert(decode_sum(variants, raw) == Ok::<ValueV, crate::model::TypeErrorV>(w));
            assert(value_raw(w) =~= value_raw(v));
            assert(value_wf(w) && round_trippable(w));
        },
        ValueV::Union { enumeration, value } => {
            law_round_trip(*value);
            assert(value_wf(*value));
            assert(enumeration matches TypeV::Enumeration { sum, .. } && *value
                matches ValueV::Sum { variants, .. } && *sum == TypeV::Sum(variants));
            match *value {
                ValueV::Sum { variants, .. } => {
                    assert(value_type(*value) == TypeV::Sum(variants));
                    assert(value_raw(v) == value_raw(*value));
                    assert(decode(TypeV::Sum(variants), value_raw(*value)) == decode_sum(
                        variants,
                        value_raw(*value),
                    ));
                    let w_sum = decode_sum(variants, value_raw(v))->Ok_0;
                    let w = ValueV::Union { enumeration, value: Box::new(w_sum) };
                    assert(decode(value_type(v), value_raw(v)) == Ok::<
                        ValueV,
                        crate::model::TypeErrorV,
                    >(w));
                    assert(value_raw(w) == value_raw(w_sum));
                    assert(value_wf(w) && round_trippable(w));
                },
                _ => {
                    assert(false);
                },
            }
        },
    }
}

/// A big-endian scalar of width `w` decodes back to itself.
proof fn lemma_scalar_round_trip(x: nat, w: nat)
    requires
        1 <= w <= 16,
        x < pow256(w),
    ensures
        be_bytes(x, w).len() == w,
        be_value(be_bytes(x, w)) == x,
        w == 1 ==> be_bytes(x, w) =~= seq![(x % 256) as u8],
{
    lemma_be_bytes_len(x, w);
    lemma_be_value_of_be_bytes(x, w);
    lemma_pow256_positive(w);
    vstd::arithmetic::div_mod::lemma_small_mod(x, pow256(w));
}

/// Decoding the concatenated images of valid, round-trippable list elements
/// window by window reproduces images, types and validity element by
/// element.
proof fn lemma_list_round_trip(et: TypeV, vs: Seq<ValueV>, raw: Seq<u8>)
    requires
        values_wf(vs),
        values_typed_alike(vs, et),
        round_trippable_all(vs),
        sum_free(et),
        raw == raws_of(vs),
    ensures
        decode_list(et, vs.len(), raw) matches Ok(ws) && raws_of(ws) == raw && ws.len()
            == vs.len() && values_wf(ws) && values_typed_alike(ws, et) && round_trippable_all(
            ws,
        ),
    decreases vs, 2nat,
{
    if vs.len() == 0 {
        assert(decode_list(et, 0, raw) == Ok::<Seq<ValueV>, crate::model::TypeErrorV>(
            Seq::empty(),
        ));
        assert(raws_of(Seq::<ValueV>::empty()) =~= raw);
    } else {
        let head = vs.first();
        let rest = vs.drop_first();
        lemma_values_front(vs);
        lemma_round_trippable_front(vs);
        law_size_agreement(head);
        law_round_trip(head);
        lemma_raws_of_front(vs);
        let w = type_size(et) as int;
        assert(raw.subrange(0, w) =~= value_raw(head));
        assert(raw.subrange(w, raw.len() as int) =~= raws_of(rest));
        lemma_list_round_trip(et, rest, raws_of(rest));
        let head_w = decode(et, value_raw(head))->Ok_0;
        let rest_w = decode_list(et, rest.len(), raws_of(rest))->Ok_0;
        let ws = seq![head_w] + rest_w;
        assert(decode_list(et, vs.len(), raw) == Ok::<Seq<ValueV>, crate::model::TypeErrorV>(ws));
        lemma_raws_of_cons(head_w, rest_w);
        assert(raws_of(ws) =~= raw);
        lemma_all_preds_cons(head_w, rest_w, et);
    }
}

/// Decoding the concatenated images of valid, round-trippable sequence
/// members window by window reproduces images, types and validity member by
/// member.
proof fn lemma_members_round_trip(ts: Seq<TypeV>, vs: Seq<ValueV>, raw: Seq<u8>)
    requires
        vs.len() == ts.len(),
        values_wf(vs),
        values_typed(vs, ts),
        round_trippable_all(vs),
        sum_free_all(ts),
        raw == raws_of(vs),
    ensures
        decode_members(ts, raw) matches Ok(ws) && raws_of(ws) == raw && ws.len() == vs.len()
            && values_wf(ws) && values_typed(ws, ts) && round_trippable_all(ws),
    decreases vs, 2nat,
{
    if vs.len() == 0 {
        assert(decode_members(ts, raw) == Ok::<Seq<ValueV>, crate::model::TypeErrorV>(
            Seq::empty(),
        ));
        assert(raws_of(Seq::<ValueV>::empty()) =~= raw);
    } else {
        let head = vs.first();
        let rest = vs.drop_first();
        let ts_rest = ts.drop_first();
        lemma_values_front(vs);
        lemma_round_trippable_front(vs);
        lemma_sum_free_front(ts);
        assert(value_type(head) == ts[0]);
        assert(values_typed(rest, ts_rest)) by {
            assert(forall|i: int|
                0 <= i < rest.len() ==> rest[i] == vs[i + 1] && ts_rest[i] == ts[i + 1]);
        }
        law_size_agreement(head);
        law_round_trip(head);
        lemma_raws_of_front(vs);
        let w = type_size(ts[0]) as int;
        assert(raw.subrange(0, w) =~= value_raw(head));
        assert(raw.subrange(w, raw.len() as int) =~= raws_of(rest));
        lemma_members_round_trip(ts_rest, rest, raws_of(rest));
        let head_w = decode(ts[0], value_raw(head))->Ok_0;
        let rest_w = decode_members(ts_rest, raws_of(rest))->Ok_0;
        let ws = seq![head_w] + rest_w;
        assert(decode_members(ts, raw) == Ok::<Seq<ValueV>, crate::model::TypeErrorV>(ws));
        lemma_raws_of_cons(head_w, rest_w);
        assert(raws_of(ws) =~= raw);
        lemma_wf_cons(head_w, rest_w);
        lemma_rt_cons(head_w, rest_w);
        assert(values_typed(ws, ts)) by {
            assert(forall|i: int| 1 <= i < ws.len() ==> ws[i] == rest_w[i - 1]);
        }
    }
}

// ---------------------------------------------------------------------------
// Structural facts about concatenated members
// ---------------------------------------------------------------------------

/// The image of a nonempty member list is its first member's image followed
/// by the rest's.
proof fn lemma_raws_of_front(vs: Seq<ValueV>)
    requires
        vs.len() > 0,
    ensures
        raws_of(vs) == value_raw(vs.first()) + raws_of(vs.drop_first()),
    decreases vs,
{
    if vs.len() == 1 {
        assert(vs.drop_last() =~= Seq::<ValueV>::empty());
        assert(vs.drop_first() =~= Seq::<ValueV>::empty());
        assert(raws_of(vs) =~= value_raw(vs.first()) + raws_of(vs.drop_first()));
    } else {
        lemma_raws_of_front(vs.drop_last());
        assert(vs.drop_last().first() == vs.first());
        assert(vs.drop_last().drop_first() =~= vs.drop_first().drop_last());
        assert(vs.drop_first().last() == vs.last());
        assert(raws_of(vs) =~= value_raw(vs.first()) + raws_of(vs.drop_first())) by {
            assert(raws_of(vs) == raws_of(vs.drop_last()) + value_raw(vs.last()));
            assert(raws_of(vs.drop_first()) == raws_of(vs.drop_first().drop_last()) + value_raw(
                vs.drop_first().last(),
            ));
        }
    }
}

/// Prepending a member prepends its image.
proof fn lemma_raws_of_cons(head: ValueV, rest: Seq<ValueV>)
    ensures
        raws_of(seq![head] + rest) == value_raw(head) + raws_of(rest),
    decreases rest,
{
    let vs = seq![head] + rest;
    assert(vs.first() == head);
    assert(vs.drop_first() =~= rest);
    lemma_raws_of_front(vs);
}

/// Validity distributes over a prepended member.
proof fn lemma_wf_cons(head: ValueV, rest: Seq<ValueV>)
    requires
        value_wf(head),
        values_wf(rest),
    ensures
        values_wf(seq![head] + rest),
    decreases rest,
{
    let vs = seq![head] + rest;
    if rest.len() == 0 {
        assert(vs.drop_last() =~= Seq::<ValueV>::empty());
        assert(round_trippable_all(vs) == (round_trippable_all(vs.drop_last())
            && round_trippable(vs.last())));
        assert(round_trippable_all(Seq::<ValueV>::empty()));
        assert(vs.last() == head);
        assert(values_wf(vs) == (values_wf(vs.drop_last()) && value_wf(vs.last())));
        assert(values_wf(Seq::<ValueV>::empty()));
    } else {
        assert(values_wf(rest) == (values_wf(rest.drop_last()) && value_wf(rest.last())));
        lemma_wf_cons(head, rest.drop_last());
        assert(vs.drop_last() =~= seq![head] + rest.drop_last());
        assert(vs.last() == rest.last());
        assert(values_wf(vs) == (values_wf(vs.drop_last()) && value_wf(vs.last())));
    }
}

/// Round-trippability distributes over a prepended member.
proof fn lemma_rt_cons(head: ValueV, rest: Seq<ValueV>)
    requires
        round_trippable(head),
        round_trippable_all(rest),
    ensures
        round_trippable_all(seq![head] + rest),
    decreases rest,
{
    let vs = seq![head] + rest;
    if rest.len() == 0 {
        assert(vs.drop_last() =~= Seq::<ValueV>::empty());
        assert(vs.last() == head);
        assert(round_trippable_all(vs) == (round_trippable_all(vs.drop_last())
            && round_trippable(vs.last())));
        assert(round_trippable_all(Seq::<ValueV>::empty()));
    } else {
        assert(round_trippable_all(rest) == (round_trippable_all(rest.drop_last())
            && round_trippable(rest.last())));
        lemma_rt_cons(head, rest.drop_last());
        assert(vs.drop_last() =~= seq![head] + rest.drop_last());
        assert(vs.last() == rest.last());
        assert(round_trippable_all(vs) == (round_trippable_all(vs.drop_last())
            && round_trippable(vs.last())));
    }
}

/// Validity, typing and round-trippability of a prepended member list,
/// all at once, for one element type.
proof fn lemma_all_preds_cons(head: ValueV, rest: Seq<ValueV>, et: TypeV)
    requires
        value_wf(head),
        values_wf(rest),
        round_trippable(head),
        round_trippable_all(rest),
        value_type(head) == et,
        values_typed_alike(rest, et),
    ensures
        values_wf(seq![head] + rest),
        round_trippable_all(seq![head] + rest),
        values_typed_alike(seq![head] + rest, et),
{
    lemma_wf_cons(head, rest);
    lemma_rt_cons(head, rest);
    assert(values_typed_alike(seq![head] + rest, et)) by {
        let vs = seq![head] + rest;
        assert(forall|i: int| 1 <= i < vs.len() ==> vs[i] == rest[i - 1]);
    }
}

/// Validity of every member, seen one member at a time.
proof fn lemma_values_front(vs: Seq<ValueV>)
    requires
        values_wf(vs),
        vs.len() > 0,
    ensures
        value_wf(vs.first()),
        values_wf(vs.drop_first()),
        forall|i: int| 0 <= i < vs.len() ==> value_wf(#[trigger] vs[i]),
    decreases vs,
{
    if vs.len() == 1 {
        assert(vs.drop_last() =~= Seq::<ValueV>::empty());
        assert(vs[0] == vs.last());
        assert(vs.drop_first() =~= Seq::<ValueV>::empty());
    } else {
        lemma_values_front(vs.drop_last());
        assert(vs.drop_last().first() == vs.first());
        assert(vs.drop_first() =~= vs.drop_last().drop_first().push(vs.last()));
        lemma_wf_push(vs.drop_last().drop_first(), vs.last());
        assert(forall|i: int|
            0 <= i < vs.len() - 1 ==> vs[i] == vs.drop_last()[i]);
    }
}

/// Validity distributes over a pushed member.
proof fn lemma_wf_push(vs: Seq<ValueV>, last: ValueV)
    requires
        values_wf(vs),
        value_wf(last),
    ensures
        values_wf(vs.push(last)),
{
    assert(vs.push(last).drop_last() =~= vs);
    assert(vs.push(last).last() == last);
}

/// Round-trippability of every member, seen one member at a time.
proof fn lemma_round_trippable_front(vs: Seq<ValueV>)
    requires
        round_trippable_all(vs),
        vs.len() > 0,
    ensures
        round_trippable(vs.first()),
        round_trippable_all(vs.drop_first()),
    decreases vs,
{
    if vs.len() == 1 {
        assert(vs[0] == vs.last());
        assert(vs.drop_first() =~= Seq::<ValueV>::empty());
    } else {
        lemma_round_trippable_front(vs.drop_last());
        assert(vs.drop_last().first() == vs.first());
        assert(vs.drop_first() =~= vs.drop_last().drop_first().push(vs.last()));
        lemma_rt_push(vs.drop_last().drop_first(), vs.last());
    }
}

/// Round-trippability distributes over a pushed member.
proof fn lemma_rt_push(vs: Seq<ValueV>, last: ValueV)
    requires
        round_trippable_all(vs),
        round_trippable(last),
    ensures
        round_trippable_all(vs.push(last)),
{
    assert(vs.push(last).drop_last() =~= vs);
    assert(vs.push(last).last() == last);
}

/// Sum-freeness of every type, seen one type at a time.
proof fn lemma_sum_free_front(ts: Seq<TypeV>)
    requires
        sum_free_all(ts),
        ts.len() > 0,
    ensures
        sum_free(ts.first()),
        sum_free_all(ts.drop_first()),
    decreases ts,
{
    if ts.len() == 1 {
        assert(ts[0] == ts.last());
        assert(ts.drop_first() =~= Seq::<TypeV>::empty());
    } else {
        lemma_sum_free_front(ts.drop_last());
        assert(ts.drop_last().first() == ts.first());
        assert(ts.drop_first() =~= ts.drop_last().drop_first().push(ts.last()));
        let shorter = ts.drop_last().drop_first();
        assert(shorter.push(ts.last()).drop_last() =~= shorter);
        assert(shorter.push(ts.last()).last() == ts.last());
    }
}

/// The round trip of a bare product value: its bytes decode to a bare
/// sequence carrying the same bytes, member for member.  The nominal
/// product wrapper is not reproduced; this is the one value form whose
/// decoding forgets a layer.
pub proof fn law_product_value_round_trip(v: ValueV)
    requires
        value_wf(v),
        v matches ValueV::Product { value, .. } && round_trippable(*value),
    ensures
        decode(value_type(v), value_raw(v)) matches Ok(w) && value_raw(w) == value_raw(v),
{
    let inner = v->Product_value;
    law_round_trip(*inner);
}

// ---------------------------------------------------------------------------
// Tuple size laws and named-type identity
// ---------------------------------------------------------------------------

/// The size of a product is the sum of its members' sizes, the size of a
/// sum is its largest variant's size, and the empty sum has size zero.
pub proof fn law_tuple_sizes(members: Seq<TypeV>)
    ensures
        type_size(TypeV::Product(members)) == sizes_sum(members),
        type_size(TypeV::Sum(members)) == sizes_max(members),
        members.len() == 0 ==> type_size(TypeV::Sum(members)) == 0,
        forall|i: int|
            0 <= i < members.len() ==> type_size(#[trigger] members[i]) <= type_size(
                TypeV::Sum(members),
            ),
{
    assert forall|i: int|
        0 <= i < members.len() implies type_size(#[trigger] members[i]) <= type_size(
        TypeV::Sum(members),
    ) by {
        crate::model::lemma_sizes_max_take(members, i);
        crate::model::lemma_sizes_max_take(members, i + 1);
    }
}

/// Named-type identity: a structure's name is its identifier's rendering,
/// whatever its fields; two structures with any fields whose rendered names
/// differ are not type-equal, names being the type identity.
pub proof fn law_named_type_identity(
    id1: crate::model::IdentV,
    labels1: Seq<Seq<char>>,
    fields1: TypeV,
    id2: crate::model::IdentV,
    labels2: Seq<Seq<char>>,
    fields2: TypeV,
)
    ensures
        name_of(TypeV::Structure { identifier: id1, labels: labels1, product: Box::new(fields1) })
            == id1.text(),
        id1.text() != id2.text() ==> name_of(
            TypeV::Structure { identifier: id1, labels: labels1, product: Box::new(fields1) },
        ) != name_of(
            TypeV::Structure { identifier: id2, labels: labels2, product: Box::new(fields2) },
        ),
{
}

} // verus!
