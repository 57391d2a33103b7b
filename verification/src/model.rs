//! The mathematical model of the library: abstract forms of every type and
//! every value, and the spec functions that give types their size, their
//! canonical name, and their decoding of raw buffers.
//!
//! Executable types carry a view into these datatypes; every contract in the
//! crate is stated over them.

use vstd::prelude::*;
use crate::encoding::{be_bytes, be_value, decimal};

verus! {

/// Abstract form of an [`crate::identity::Identifier`]: a namespace and a
/// bare name.
pub struct IdentV {
    pub space: Seq<char>,
    pub name: Seq<char>,
}

impl IdentV {
    /// The rendered text: `space/name`, or the bare name when the namespace
    /// is empty.
    pub open spec fn text(self) -> Seq<char> {
        if self.space.len() == 0 {
            self.name
        } else {
            self.space + seq!['/'] + self.name
        }
    }
}

/// Abstract form of a data type.
pub enum TypeV {
    /// One byte holding truth: zero is false, everything else is true.
    Boolean,
    /// A single uninterpreted byte.
    Byte,
    /// An uninterpreted byte group of the given width.
    Bytes(nat),
    /// An eight-byte floating-point bit pattern (the library carries the
    /// bits; it does no floating-point arithmetic).
    Float,
    /// An eight-byte signed integer, two's complement, big-endian.
    Integer,
    /// An eight-byte address, tagged with the pointee type.
    Reference(Box<TypeV>),
    /// A fixed-length homogeneous collection.
    List(Box<TypeV>, nat),
    /// An ordered heterogeneous sequence of types.
    Tuple(Seq<TypeV>),
    /// A one-of type over its variants.
    Sum(Seq<TypeV>),
    /// An all-of type over its members.
    Product(Seq<TypeV>),
    /// A named product with labelled fields; `product` is always a
    /// `TypeV::Product`.
    Structure { identifier: IdentV, labels: Seq<Seq<char>>, product: Box<TypeV> },
    /// A named sum with labelled variants; `sum` is always a `TypeV::Sum`.
    Enumeration { identifier: IdentV, labels: Seq<Seq<char>>, sum: Box<TypeV> },
    /// A function signature; values of it cannot be decoded from bytes.
    Function { arguments: Seq<TypeV>, ret: Box<TypeV> },
}

/// Abstract form of a value.
pub enum ValueV {
    Boolean(bool),
    Byte(u8),
    Word(u16),
    Quad(u32),
    Long(u64),
    Wide(u128),
    /// The machine word: eight bytes on every machine this library models.
    Arch(u64),
    /// An uninterpreted byte group of any other width; `width` always equals
    /// `data.len()` on well-formed values.
    Bytes { data: Seq<u8>, width: nat },
    /// The bit pattern of a 64-bit float.
    Float(u64),
    Integer(i64),
    Reference { to_type: TypeV, address: u64 },
    List { of_type: TypeV, elements: Seq<ValueV> },
    Sequence { definition: Seq<TypeV>, values: Seq<ValueV> },
    Product { types: Seq<TypeV>, value: Box<ValueV> },
    Record { structure: TypeV, value: Box<ValueV> },
    Sum { variants: Seq<TypeV>, tag: nat, value: Box<ValueV> },
    Union { enumeration: TypeV, value: Box<ValueV> },
}

/// Abstract form of a type error.
pub enum TypeErrorV {
    /// A value's type does not match the declared variant at the given tag.
    InvalidTag { expected: TypeV, provided: TypeV, tag: nat },
    /// A tag at or beyond the variant count.
    InvalidCase { provided: TypeV },
    /// An arity mismatch between declared types and supplied values.
    LengthMismatch { expected: nat, provided: nat },
    /// A generic type mismatch.
    InvalidType { expected: TypeV, provided: TypeV },
    /// An operation with no dedicated error form.
    Message(Seq<char>),
}

// ---------------------------------------------------------------------------
// Size
// ---------------------------------------------------------------------------

/// The layout size of a type, in bytes.
///
/// A sum is sized by its largest variant (its value form prepends an
/// eight-byte tag on top of this); an empty sum has size zero.
pub open spec fn type_size(t: TypeV) -> nat
    decreases t,
{
    match t {
        TypeV::Boolean => 1,
        TypeV::Byte => 1,
        TypeV::Bytes(w) => w,
        TypeV::Float => 8,
        TypeV::Integer => 8,
        TypeV::Reference(_) => 8,
        TypeV::List(et, n) => type_size(*et) * n,
        TypeV::Tuple(ts) => sizes_sum(ts),
        TypeV::Sum(ts) => sizes_max(ts),
        TypeV::Product(ts) => sizes_sum(ts),
        TypeV::Structure { product, .. } => type_size(*product),
        TypeV::Enumeration { sum, .. } => type_size(*sum),
        TypeV::Function { .. } => 8,
    }
}

/// The sum of the sizes of a sequence of types.
pub open spec fn sizes_sum(ts: Seq<TypeV>) -> nat
    decreases ts,
{
    if ts.len() == 0 {
        0
    } else {
        sizes_sum(ts.drop_last()) + type_size(ts.last())
    }
}

/// The largest size among a sequence of types; zero when there are none.
pub open spec fn sizes_max(ts: Seq<TypeV>) -> nat
    decreases ts,
{
    if ts.len() == 0 {
        0
    } else {
        let rest = sizes_max(ts.drop_last());
        let last = type_size(ts.last());
        if last > rest {
            last
        } else {
            rest
        }
    }
}

// ---------------------------------------------------------------------------
// Names
// ---------------------------------------------------------------------------

/// The canonical name of a type.  Name equality is the type identity used by
/// every runtime check: structural for anonymous composites, nominal for
/// structures and enumerations.
pub open spec fn name_of(t: TypeV) -> Seq<char>
    decreases t,
{
    match t {
        TypeV::Boolean => "boolean"@,
        TypeV::Byte => "byte"@,
        TypeV::Bytes(w) => {
            if w == 2 {
                "word"@
            } else if w == 4 {
                "quad"@
            } else if w == 8 {
                "long"@
            } else if w == 16 {
                "wide"@
            } else {
                "bytes<"@ + decimal(w) + ">"@
            }
        },
        TypeV::Float => "float"@,
        TypeV::Integer => "integer"@,
        TypeV::Reference(t2) => "&"@ + name_of(*t2),
        TypeV::List(et, n) => "["@ + name_of(*et) + ";"@ + decimal(n) + "]"@,
        TypeV::Tuple(ts) => joined_names(ts, ","@),
        TypeV::Sum(ts) => "<"@ + joined_names(ts, "|"@) + ">"@,
        TypeV::Product(ts) => "<"@ + joined_names(ts, "&"@) + ">"@,
        TypeV::Structure { identifier, .. } => identifier.text(),
        TypeV::Enumeration { identifier, .. } => identifier.text(),
        TypeV::Function { arguments, ret } => {
            "fn<("@ + joined_names(arguments, ","@) + "), "@ + name_of(*ret) + ">"@
        },
    }
}

/// The names of the given types, joined with a separator.
pub open spec fn joined_names(ts: Seq<TypeV>, sep: Seq<char>) -> Seq<char>
    decreases ts,
{
    if ts.len() == 0 {
        Seq::empty()
    } else if ts.len() == 1 {
        name_of(ts[0])
    } else {
        joined_names(ts.drop_last(), sep) + sep + name_of(ts.last())
    }
}

// ---------------------------------------------------------------------------
// The value side: type and raw image
// ---------------------------------------------------------------------------

/// The type a value carries.
pub open spec fn value_type(v: ValueV) -> TypeV {
    match v {
        ValueV::Boolean(_) => TypeV::Boolean,
        ValueV::Byte(_) => TypeV::Byte,
        ValueV::Word(_) => TypeV::Bytes(2),
        ValueV::Quad(_) => TypeV::Bytes(4),
        ValueV::Long(_) => TypeV::Bytes(8),
        ValueV::Wide(_) => TypeV::Bytes(16),
        ValueV::Arch(_) => TypeV::Bytes(8),
        ValueV::Bytes { width, .. } => TypeV::Bytes(width),
        ValueV::Float(_) => TypeV::Float,
        ValueV::Integer(_) => TypeV::Integer,
        ValueV::Reference { to_type, .. } => TypeV::Reference(Box::new(to_type)),
        ValueV::List { of_type, elements } => TypeV::List(Box::new(of_type), elements.len()),
        ValueV::Sequence { definition, .. } => TypeV::Tuple(definition),
        ValueV::Product { types, .. } => TypeV::Product(types),
        ValueV::Record { structure, .. } => structure,
        ValueV::Sum { variants, .. } => TypeV::Sum(variants),
        ValueV::Union { enumeration, .. } => enumeration,
    }
}

/// The unsigned bit pattern of a signed 64-bit integer.
pub open spec fn i64_bits(i: i64) -> nat {
    if i >= 0 {
        i as nat
    } else {
        (i + 0x10000000000000000) as nat
    }
}

/// The signed reading of an unsigned 64-bit pattern.
pub open spec fn bits_i64(n: nat) -> i64 {
    if n < 0x8000000000000000 {
        n as i64
    } else {
        (n - 0x10000000000000000) as i64
    }
}

/// The exact byte image of a value.
pub open spec fn value_raw(v: ValueV) -> Seq<u8>
    decreases v,
{
    match v {
        ValueV::Boolean(b) => seq![if b { 1u8 } else { 0u8 }],
        ValueV::Byte(x) => be_bytes(x as nat, 1),
        ValueV::Word(x) => be_bytes(x as nat, 2),
        ValueV::Quad(x) => be_bytes(x as nat, 4),
        ValueV::Long(x) => be_bytes(x as nat, 8),
        ValueV::Wide(x) => be_bytes(x as nat, 16),
        ValueV::Arch(x) => be_bytes(x as nat, 8),
        ValueV::Bytes { data, .. } => data,
        ValueV::Float(bits) => be_bytes(bits as nat, 8),
        ValueV::Integer(i) => be_bytes(i64_bits(i), 8),
        ValueV::Reference { address, .. } => be_bytes(address as nat, 8),
        ValueV::List { elements, .. } => raws_of(elements),
        ValueV::Sequence { values, .. } => raws_of(values),
        ValueV::Product { value, .. } => value_raw(*value),
        ValueV::Record { value, .. } => value_raw(*value),
        ValueV::Sum { tag, value, .. } => be_bytes(tag, 8) + value_raw(*value),
        ValueV::Union { value, .. } => value_raw(*value),
    }
}

/// The concatenated byte images of a sequence of values.
pub open spec fn raws_of(vs: Seq<ValueV>) -> Seq<u8>
    decreases vs,
{
    if vs.len() == 0 {
        Seq::empty()
    } else {
        raws_of(vs.drop_last()) + value_raw(vs.last())
    }
}

// ---------------------------------------------------------------------------
// Well-formedness
// ---------------------------------------------------------------------------

/// Validity of a value: every container member carries exactly the type its
/// container declares for it, byte groups match their recorded width, and
/// every tag selects an actual variant.
///
/// Member types are required to agree *structurally*, which is stronger than
/// the name comparison the runtime checks can afford; the round-trip laws
/// hold of values that are valid in this sense.
pub open spec fn value_wf(v: ValueV) -> bool
    decreases v,
{
    match v {
        ValueV::Bytes { data, width } => data.len() == width,
        ValueV::List { of_type, elements } => values_wf(elements) && values_typed_alike(
            elements,
            of_type,
        ),
        ValueV::Sequence { definition, values } => values.len() == definition.len()
            && values_wf(values) && values_typed(values, definition),
        ValueV::Product { types, value } => {
            &&& value_wf(*value)
            &&& *value matches ValueV::Sequence { definition, .. } && definition == types
        },
        ValueV::Record { structure, value } => {
            &&& value_wf(*value)
            &&& structure matches TypeV::Structure { product, .. }
            &&& *value matches ValueV::Product { types, .. } && *product == TypeV::Product(types)
        },
        ValueV::Sum { variants, tag, value } => {
            &&& value_wf(*value)
            &&& tag < variants.len()
            &&& tag < 0x10000000000000000
            &&& value_type(*value) == variants[tag as int]
        },
        ValueV::Union { enumeration, value } => {
            &&& value_wf(*value)
            &&& enumeration matches TypeV::Enumeration { sum, .. }
            &&& *value matches ValueV::Sum { variants, .. } && *sum == TypeV::Sum(variants)
        },
        _ => true,
    }
}

/// Validity of every value in a sequence.
pub open spec fn values_wf(vs: Seq<ValueV>) -> bool
    decreases vs,
{
    if vs.len() == 0 {
        true
    } else {
        values_wf(vs.drop_last()) && value_wf(vs.last())
    }
}

/// Every value carries exactly the one declared type.
pub open spec fn values_typed_alike(vs: Seq<ValueV>, t: TypeV) -> bool {
    forall|i: int| 0 <= i < vs.len() ==> value_type(#[trigger] vs[i]) == t
}

/// Every value carries exactly the type declared at its position.
pub open spec fn values_typed(vs: Seq<ValueV>, ts: Seq<TypeV>) -> bool {
    forall|i: int| 0 <= i < vs.len() ==> value_type(#[trigger] vs[i]) == ts[i]
}

// ---------------------------------------------------------------------------
// Decoding
// ---------------------------------------------------------------------------

/// The error text for an attempt to decode a value of a function type.
pub open spec fn function_decode_error() -> TypeErrorV {
    TypeErrorV::Message("a function type cannot construct a value from raw bytes"@)
}

/// What decoding a buffer at a type yields: the exact value on success, the
/// exact error otherwise.
///
/// Success demands the buffer length to match the type's layout exactly; a
/// sum consumes an eight-byte tag followed by exactly the tagged variant's
/// bytes.  Validation of decoded members compares type *names*, as the
/// runtime does.  A bare tuple or product decodes to a bare sequence value;
/// only a structure wraps its members into a record, and only an
/// enumeration wraps its sum into a union.
pub open spec fn decode(t: TypeV, raw: Seq<u8>) -> Result<ValueV, TypeErrorV>
    decreases t, 0nat,
{
    match t {
        TypeV::Boolean => {
            if raw.len() == 1 {
                Ok(ValueV::Boolean(raw[0] != 0))
            } else {
                Err(width_error(t, raw.len()))
            }
        },
        TypeV::Byte => {
            if raw.len() == 1 {
                Ok(bytes_of_raw(raw))
            } else {
                Err(width_error(t, raw.len()))
            }
        },
        TypeV::Bytes(w) => {
            if raw.len() == w {
                Ok(bytes_of_raw(raw))
            } else {
                Err(width_error(t, raw.len()))
            }
        },
        TypeV::Float => {
            if raw.len() == 8 {
                Ok(ValueV::Float(be_value(raw) as u64))
            } else {
                Err(width_error(t, raw.len()))
            }
        },
        TypeV::Integer => {
            if raw.len() == 8 {
                Ok(ValueV::Integer(bits_i64(be_value(raw))))
            } else {
                Err(width_error(t, raw.len()))
            }
        },
        TypeV::Reference(t2) => {
            if raw.len() == 8 {
                Ok(ValueV::Reference { to_type: *t2, address: be_value(raw) as u64 })
            } else {
                Err(width_error(t, raw.len()))
            }
        },
        TypeV::List(et, n) => {
            if raw.len() == type_size(*et) * n {
                match decode_list(*et, n, raw) {
                    Ok(elements) => Ok(ValueV::List { of_type: *et, elements }),
                    Err(e) => Err(e),
                }
            } else {
                Err(width_error(t, raw.len()))
            }
        },
        TypeV::Tuple(ts) => decode_tuple(ts, raw),
        TypeV::Sum(ts) => decode_sum(ts, raw),
        TypeV::Product(ts) => decode_tuple(ts, raw),
        TypeV::Structure { product, .. } => {
            match *product {
                TypeV::Product(ms) => match decode_tuple(ms, raw) {
                    Ok(s) => Ok(
                        ValueV::Record {
                            structure: t,
                            value: Box::new(
                                ValueV::Product { types: ms, value: Box::new(s) },
                            ),
                        },
                    ),
                    Err(e) => Err(e),
                },
                _ => Err(width_error(t, raw.len())),
            }
        },
        TypeV::Enumeration { sum, .. } => {
            match *sum {
                TypeV::Sum(ts) => match decode_sum(ts, raw) {
                    Ok(sv) => Ok(ValueV::Union { enumeration: t, value: Box::new(sv) }),
                    Err(e) => Err(e),
                },
                _ => Err(width_error(t, raw.len())),
            }
        },
        TypeV::Function { .. } => Err(function_decode_error()),
    }
}

/// Decoding at a tuple of member types: the buffer length must equal the sum
/// of the member sizes; the members decode in their consecutive windows and
/// are then validated as [`validated_sequence`] says.
pub open spec fn decode_tuple(ts: Seq<TypeV>, raw: Seq<u8>) -> Result<ValueV, TypeErrorV>
    decreases ts, 1nat,
{
    if raw.len() == sizes_sum(ts) {
        match decode_members(ts, raw) {
            Ok(values) => validated_sequence(ts, values),
            Err(e) => Err(e),
        }
    } else {
        Err(width_error(TypeV::Tuple(ts), raw.len()))
    }
}

/// Decoding at a sum over the given variants: an eight-byte big-endian tag,
/// then exactly the tagged variant's bytes, assembled as [`sum_new`] says.
pub open spec fn decode_sum(ts: Seq<TypeV>, raw: Seq<u8>) -> Result<ValueV, TypeErrorV>
    decreases ts, 1nat,
{
    if raw.len() < 8 {
        Err(width_error(TypeV::Sum(ts), raw.len()))
    } else {
        let tag = be_value(raw.subrange(0, 8));
        if tag >= ts.len() {
            Err(TypeErrorV::InvalidCase { provided: TypeV::Sum(ts) })
        } else {
            match decode(ts[tag as int], raw.subrange(8, raw.len() as int)) {
                Ok(v) => sum_new(ts, tag, v),
                Err(e) => Err(e),
            }
        }
    }
}

/// The error for a buffer whose length does not fit the type.
pub open spec fn width_error(expected: TypeV, len: nat) -> TypeErrorV {
    TypeErrorV::InvalidType { expected, provided: TypeV::Bytes(len) }
}

/// The byte-group value a raw buffer becomes: the named width classes for
/// one, two, four, eight and sixteen bytes, the general group otherwise.
pub open spec fn bytes_of_raw(raw: Seq<u8>) -> ValueV {
    if raw.len() == 8 {
        ValueV::Arch(be_value(raw) as u64)
    } else if raw.len() == 1 {
        ValueV::Byte(raw[0])
    } else if raw.len() == 2 {
        ValueV::Word(be_value(raw) as u16)
    } else if raw.len() == 4 {
        ValueV::Quad(be_value(raw) as u32)
    } else if raw.len() == 16 {
        ValueV::Wide(be_value(raw) as u128)
    } else {
        ValueV::Bytes { data: raw, width: raw.len() }
    }
}

/// Decodes consecutive windows of `raw`, one per type, each sized by its
/// type; the first failure is the result.
pub open spec fn decode_members(ts: Seq<TypeV>, raw: Seq<u8>) -> Result<Seq<ValueV>, TypeErrorV>
    decreases ts, 0nat,
{
    if ts.len() == 0 {
        Ok(Seq::empty())
    } else {
        let w = type_size(ts[0]) as int;
        match decode(ts[0], raw.subrange(0, w)) {
            Ok(v) => {
                match decode_members(ts.drop_first(), raw.subrange(w, raw.len() as int)) {
                    Ok(vs) => Ok(seq![v] + vs),
                    Err(e) => Err(e),
                }
            },
            Err(e) => Err(e),
        }
    }
}

/// Decodes `n` consecutive windows of `raw`, each sized by the element type;
/// the first failure is the result.
pub open spec fn decode_list(et: TypeV, n: nat, raw: Seq<u8>) -> Result<Seq<ValueV>, TypeErrorV>
    decreases et, n,
{
    if n == 0 {
        Ok(Seq::empty())
    } else {
        let w = type_size(et) as int;
        match decode(et, raw.subrange(0, w)) {
            Ok(v) => {
                match decode_list(et, (n - 1) as nat, raw.subrange(w, raw.len() as int)) {
                    Ok(vs) => Ok(seq![v] + vs),
                    Err(e) => Err(e),
                }
            },
            Err(e) => Err(e),
        }
    }
}

/// What assembling a sequence from declared types and supplied values
/// yields: an arity mismatch fails, then the first value whose type *name*
/// differs from its declared type's name fails, and otherwise the sequence
/// stands.
pub open spec fn validated_sequence(ts: Seq<TypeV>, vs: Seq<ValueV>) -> Result<
    ValueV,
    TypeErrorV,
> {
    if ts.len() != vs.len() {
        Err(TypeErrorV::LengthMismatch { expected: ts.len(), provided: vs.len() })
    } else {
        match first_name_mismatch(ts, vs) {
            Some(i) => Err(
                TypeErrorV::InvalidType { expected: ts[i], provided: value_type(vs[i]) },
            ),
            None => Ok(ValueV::Sequence { definition: ts, values: vs }),
        }
    }
}

/// What assembling a sum value from declared variants, a tag and a value
/// yields: a tag beyond the variants fails, a value whose type *name*
/// differs from the tagged variant's fails, and otherwise the sum value
/// stands.
pub open spec fn sum_new(variants: Seq<TypeV>, tag: nat, v: ValueV) -> Result<
    ValueV,
    TypeErrorV,
> {
    if tag >= variants.len() {
        Err(TypeErrorV::InvalidCase { provided: value_type(v) })
    } else if name_of(variants[tag as int]) == name_of(value_type(v)) {
        Ok(ValueV::Sum { variants, tag, value: Box::new(v) })
    } else {
        Err(
            TypeErrorV::InvalidTag {
                expected: variants[tag as int],
                provided: value_type(v),
                tag,
            },
        )
    }
}

/// A position whose names differ, with agreement everywhere before it, is
/// the one `first_name_mismatch` finds.
pub proof fn lemma_first_name_mismatch_at(ts: Seq<TypeV>, vs: Seq<ValueV>, i: int)
    requires
        0 <= i < ts.len(),
        i < vs.len(),
        forall|j: int| 0 <= j < i ==> name_of(value_type(vs[j])) == name_of(ts[j]),
        name_of(value_type(vs[i])) != name_of(ts[i]),
    ensures
        first_name_mismatch(ts, vs) == Some(i),
    decreases i,
{
    if i > 0 {
        let ts2 = ts.drop_first();
        let vs2 = vs.drop_first();
        assert(ts2[i - 1] == ts[i] && vs2[i - 1] == vs[i]);
        assert forall|j: int| 0 <= j < i - 1 implies name_of(value_type(vs2[j])) == name_of(
            ts2[j],
        ) by {
            assert(ts2[j] == ts[j + 1] && vs2[j] == vs[j + 1]);
        }
        lemma_first_name_mismatch_at(ts2, vs2, i - 1);
    }
}

/// With every name agreeing, `first_name_mismatch` finds nothing.
pub proof fn lemma_first_name_mismatch_none(ts: Seq<TypeV>, vs: Seq<ValueV>)
    requires
        forall|j: int|
            0 <= j < ts.len() && j < vs.len() ==> name_of(value_type(vs[j])) == name_of(ts[j]),
    ensures
        first_name_mismatch(ts, vs) is None,
    decreases ts.len(),
{
    if ts.len() > 0 && vs.len() > 0 {
        let ts2 = ts.drop_first();
        let vs2 = vs.drop_first();
        assert forall|j: int|
            0 <= j < ts2.len() && j < vs2.len() implies name_of(value_type(vs2[j])) == name_of(
            ts2[j],
        ) by {
            assert(ts2[j] == ts[j + 1] && vs2[j] == vs[j + 1]);
        }
        lemma_first_name_mismatch_none(ts2, vs2);
    }
}

// ---------------------------------------------------------------------------
// In-place refresh
// ---------------------------------------------------------------------------

/// Whether a buffer may refresh a value in place.  Scalars demand exactly
/// their width; containers slice the buffer by their members' declared sizes
/// and demand that every window may refresh its member; a sum hands the
/// whole buffer to its active value, leaving the tag untouched.  No types
/// are re-validated: this is the trusted-caller contract of `set`.
pub open spec fn set_ok(v: ValueV, raw: Seq<u8>) -> bool
    decreases v,
{
    match v {
        ValueV::Boolean(_) => raw.len() == 1,
        ValueV::Byte(_) => raw.len() == 1,
        ValueV::Word(_) => raw.len() == 2,
        ValueV::Quad(_) => raw.len() == 4,
        ValueV::Long(_) => raw.len() == 8,
        ValueV::Wide(_) => raw.len() == 16,
        ValueV::Arch(_) => raw.len() == 8,
        ValueV::Bytes { width, .. } => raw.len() == width,
        ValueV::Float(_) => raw.len() == 8,
        ValueV::Integer(_) => raw.len() == 8,
        ValueV::Reference { .. } => raw.len() == 8,
        ValueV::List { of_type, elements } => raw.len() == type_size(of_type) * elements.len()
            && set_list_ok(elements, raw, type_size(of_type)),
        ValueV::Sequence { values, .. } => set_members_ok(values, raw),
        ValueV::Product { value, .. } => set_ok(*value, raw),
        ValueV::Record { value, .. } => set_ok(*value, raw),
        ValueV::Sum { value, .. } => set_ok(*value, raw),
        ValueV::Union { value, .. } => set_ok(*value, raw),
    }
}

/// Whether consecutive windows of `raw`, each of width `w`, may refresh the
/// given elements in turn.
pub open spec fn set_list_ok(elements: Seq<ValueV>, raw: Seq<u8>, w: nat) -> bool
    decreases elements,
{
    if elements.len() == 0 {
        true
    } else {
        set_ok(elements[0], raw.take(w as int)) && set_list_ok(
            elements.drop_first(),
            raw.skip(w as int),
            w,
        )
    }
}

/// Whether consecutive windows of `raw`, each sized by its member's own
/// declared type, may refresh the given members in turn, consuming the
/// buffer exactly.
pub open spec fn set_members_ok(vs: Seq<ValueV>, raw: Seq<u8>) -> bool
    decreases vs,
{
    if vs.len() == 0 {
        raw.len() == 0
    } else {
        let w = type_size(value_type(vs[0])) as int;
        raw.len() >= w && set_ok(vs[0], raw.take(w)) && set_members_ok(
            vs.drop_first(),
            raw.skip(w),
        )
    }
}

/// The value after an in-place refresh from `raw`.  Byte groups re-class by
/// the buffer's width (unchanged under [`set_ok`]); a boolean stores the
/// truth of its byte; containers refresh member by member; a sum refreshes
/// its active value and keeps its tag.
pub open spec fn after_set(v: ValueV, raw: Seq<u8>) -> ValueV
    decreases v,
{
    match v {
        ValueV::Boolean(_) => ValueV::Boolean(raw[0] != 0),
        ValueV::Byte(_) => bytes_of_raw(raw),
        ValueV::Word(_) => bytes_of_raw(raw),
        ValueV::Quad(_) => bytes_of_raw(raw),
        ValueV::Long(_) => bytes_of_raw(raw),
        ValueV::Wide(_) => bytes_of_raw(raw),
        ValueV::Arch(_) => bytes_of_raw(raw),
        ValueV::Bytes { .. } => bytes_of_raw(raw),
        ValueV::Float(_) => ValueV::Float(be_value(raw) as u64),
        ValueV::Integer(_) => ValueV::Integer(bits_i64(be_value(raw))),
        ValueV::Reference { to_type, .. } => ValueV::Reference {
            to_type,
            address: be_value(raw) as u64,
        },
        ValueV::List { of_type, elements } => {
            let w = type_size(of_type);
            ValueV::List { of_type, elements: after_set_list(elements, raw, w) }
        },
        ValueV::Sequence { definition, values } => ValueV::Sequence {
            definition,
            values: after_set_members(values, raw),
        },
        ValueV::Product { types, value } => ValueV::Product {
            types,
            value: Box::new(after_set(*value, raw)),
        },
        ValueV::Record { structure, value } => ValueV::Record {
            structure,
            value: Box::new(after_set(*value, raw)),
        },
        ValueV::Sum { variants, tag, value } => ValueV::Sum {
            variants,
            tag,
            value: Box::new(after_set(*value, raw)),
        },
        ValueV::Union { enumeration, value } => ValueV::Union {
            enumeration,
            value: Box::new(after_set(*value, raw)),
        },
    }
}

/// The elements after refreshing each from its own window of width `w`.
pub open spec fn after_set_list(elements: Seq<ValueV>, raw: Seq<u8>, w: nat) -> Seq<ValueV>
    decreases elements,
{
    if elements.len() == 0 {
        Seq::empty()
    } else {
        seq![after_set(elements[0], raw.take(w as int))] + after_set_list(
            elements.drop_first(),
            raw.skip(w as int),
            w,
        )
    }
}

/// The members after refreshing each from the window its own declared type
/// sizes.
pub open spec fn after_set_members(vs: Seq<ValueV>, raw: Seq<u8>) -> Seq<ValueV>
    decreases vs,
{
    if vs.len() == 0 {
        Seq::empty()
    } else {
        let w = type_size(value_type(vs[0])) as int;
        seq![after_set(vs[0], raw.take(w))] + after_set_members(vs.drop_first(), raw.skip(w))
    }
}

// ---------------------------------------------------------------------------
// Arithmetic of member sizes
// ---------------------------------------------------------------------------

/// A prefix never outweighs the whole, and each member extends the sum of
/// the members before it.
pub proof fn lemma_sizes_sum_take(ts: Seq<TypeV>, i: int)
    requires
        0 <= i <= ts.len(),
    ensures
        sizes_sum(ts.take(i)) <= sizes_sum(ts),
        i < ts.len() ==> sizes_sum(ts.take(i)) + type_size(ts[i]) == sizes_sum(ts.take(i + 1)),
    decreases ts.len(),
{
    if i < ts.len() {
        assert(ts.take(i + 1).drop_last() =~= ts.take(i));
        assert(ts.take(i + 1).last() == ts[i]);
    }
    if i == ts.len() {
        assert(ts.take(i) =~= ts);
    } else {
        assert(ts.take(i) =~= ts.drop_last().take(i));
        lemma_sizes_sum_take(ts.drop_last(), i);
    }
}

/// No member outgrows the largest member, and each member rounds the maximum
/// of the members before it.
pub proof fn lemma_sizes_max_take(ts: Seq<TypeV>, i: int)
    requires
        0 <= i <= ts.len(),
    ensures
        sizes_max(ts.take(i)) <= sizes_max(ts),
        i < ts.len() ==> sizes_max(ts.take(i + 1)) == if type_size(ts[i]) > sizes_max(ts.take(i)) {
            type_size(ts[i])
        } else {
            sizes_max(ts.take(i))
        },
    decreases ts.len(),
{
    if i < ts.len() {
        assert(ts.take(i + 1).drop_last() =~= ts.take(i));
        assert(ts.take(i + 1).last() == ts[i]);
    }
    if i == ts.len() {
        assert(ts.take(i) =~= ts);
    } else {
        assert(ts.take(i) =~= ts.drop_last().take(i));
        lemma_sizes_max_take(ts.drop_last(), i);
    }
}

/// The first position whose value's type name differs from the declared
/// type's name, if any.
pub open spec fn first_name_mismatch(ts: Seq<TypeV>, vs: Seq<ValueV>) -> Option<int>
    decreases ts,
{
    if ts.len() == 0 || vs.len() == 0 {
        None
    } else if name_of(value_type(vs[0])) != name_of(ts[0]) {
        Some(0)
    } else {
        match first_name_mismatch(ts.drop_first(), vs.drop_first()) {
            Some(i) => Some(i + 1),
            None => None,
        }
    }
}

} // verus!
