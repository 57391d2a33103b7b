use roussillon_type_system::identity::{Identified, Identifier, Label, LabelBank, Labelled};
use roussillon_type_system::types::algebraic::SumType;
use roussillon_type_system::types::typedef::Enumeration;
use roussillon_type_system::parse::parse_slice;
use roussillon_type_system::types::concept::{DataType, Type};
use roussillon_type_system::types::primitive::Primitive;
use roussillon_type_system::types::sequence::{join, sum_size};
use roussillon_type_system::types::typedef::Structure;
use roussillon_type_system::value::boolean::Boolean;
use roussillon_type_system::value::byte::{Arch, Byte, Bytes, Long, Quad, Wide, Word};
use roussillon_type_system::value::concept::{DataValue, ValueCell};
use roussillon_type_system::value::error::{SequenceError, TypeError};
use roussillon_type_system::value::list::List;
use roussillon_type_system::value::number::{Float, Integer};
use roussillon_type_system::value::reference::Reference;
use roussillon_type_system::value::sequence::{values_to_raw, Sequence};

#[test]
fn a_list_of_three_integers_spans_twenty_four_bytes() {
    let mut list = List::empty(Primitive::Integer.to_rc());
    for value in [1i64, 2, 3] {
        list.push(Integer::new(value).to_cell()).unwrap();
    }
    assert_eq!(list.len(), 3);
    assert!(!list.is_empty());
    assert_eq!(list.raw().len(), 24);
    assert_eq!(list.data_type().typename(), "[integer;3]");
}

#[test]
fn pushing_a_float_into_an_integer_list_fails_with_invalid_type() {
    let mut list = List::empty(Primitive::Integer.to_rc());
    list.push(Integer::new(1).to_cell()).unwrap();
    let outcome = list.push(Float(f64::to_bits(2.5)).to_cell());
    assert!(matches!(outcome, Err(TypeError::InvalidType { .. })));
    assert_eq!(list.len(), 1);
}

#[test]
fn a_list_reconstructs_from_its_own_bytes() {
    let mut list = List::empty(Primitive::Integer.to_rc());
    for value in [1i64, 2, 3] {
        list.push(Integer::new(value).to_cell()).unwrap();
    }
    let raw = list.raw();
    let list_type = Primitive::list(Primitive::Integer.to_rc(), 3).to_rc();
    let rebuilt = list_type.construct_from_raw(&raw).unwrap();
    assert_eq!(rebuilt.raw(), raw);
    match rebuilt {
        ValueCell::List(l) => {
            assert_eq!(l.item(1).unwrap().raw(), Integer::new(2).raw());
            assert!(l.item(3).is_none());
        }
        _ => panic!("a list type must decode to a list"),
    }
}

#[test]
fn a_three_byte_slice_becomes_the_general_byte_group() {
    let b = Bytes::from_raw(&[1, 2, 3]);
    assert!(matches!(b, Bytes::Bytes(_, 3)));
    assert_eq!(b.data_type().typename(), "bytes<3>");
    assert_eq!(b.data_type().size(), 3);
    assert_eq!(b.raw(), vec![1, 2, 3]);
}

#[test]
fn the_named_width_classes_take_their_canonical_forms() {
    assert!(matches!(Bytes::from_raw(&[1]), Bytes::Byte(_)));
    assert!(matches!(Bytes::from_raw(&[1, 2]), Bytes::Word(_)));
    assert!(matches!(Bytes::from_raw(&[1, 2, 3, 4]), Bytes::Quad(_)));
    assert!(matches!(Bytes::from_raw(&[1; 8]), Bytes::Arch(_)));
    assert!(matches!(Bytes::from_raw(&[1; 16]), Bytes::Wide(_)));
    assert_eq!(Bytes::from_raw(&[1, 2]).data_type().typename(), "word");
    assert_eq!(
        Bytes::from_raw(&[1, 2, 3, 4]).data_type().typename(),
        "quad"
    );
    assert_eq!(Bytes::from_raw(&[1; 8]).data_type().typename(), "long");
    assert_eq!(Bytes::from_raw(&[1; 16]).data_type().typename(), "wide");
}

#[test]
fn an_eight_byte_buffer_reads_as_the_machine_word() {
    assert_eq!(Arch::size_of(), 8);
    let arch = Bytes::try_from_arch(&[0, 0, 0, 0, 0, 0, 1, 2]).unwrap();
    assert!(matches!(arch, Bytes::Arch(_)));
    assert!(Bytes::try_from_arch(&[1, 2, 3]).is_err());
}

#[test]
fn scalars_encode_big_endian() {
    assert_eq!(Byte::new(0xab).raw(), vec![0xab]);
    assert_eq!(Word::new(0x0102).raw(), vec![1, 2]);
    assert_eq!(Quad::new(0x01020304).raw(), vec![1, 2, 3, 4]);
    assert_eq!(
        Long::new(0x0102030405060708).raw(),
        vec![1, 2, 3, 4, 5, 6, 7, 8]
    );
    assert_eq!(Wide::new(1).raw()[15], 1);
    assert_eq!(Arch::new(0x0900).raw(), vec![0, 0, 0, 0, 0, 0, 9, 0]);
}

#[test]
fn integers_encode_in_twos_complement() {
    assert_eq!(Integer::new(-1).raw(), vec![0xff; 8]);
    assert_eq!(Integer::new(3).raw(), vec![0, 0, 0, 0, 0, 0, 0, 3]);
    let raw = Integer::new(-12345).raw();
    let back = Integer::from(&raw);
    assert_eq!(back.value(), -12345);
}

#[test]
fn booleans_store_the_truth_of_their_byte() {
    assert_eq!(Boolean::create_true().raw(), vec![1]);
    assert_eq!(Boolean::create_false().raw(), vec![0]);
    assert!(Boolean::from(&[7]).get());
    assert!(!Boolean::from(&[0, 9]).get());
}

#[test]
fn a_reference_is_a_typed_address() {
    let r = Reference::new(Primitive::Integer.to_rc(), 0x1122);
    assert_eq!(r.get_address(), 0x1122);
    assert_eq!(r.referenced().typename(), "integer");
    assert_eq!(r.data_type().typename(), "&integer");
    assert_eq!(r.data_type().size(), 8);
    let rebuilt = Reference::from(Primitive::Integer.to_rc(), &r.raw());
    assert_eq!(rebuilt.get_address(), 0x1122);
}

#[test]
fn a_sequence_validates_its_arity() {
    let definition: Vec<Type> = vec![Primitive::Integer.to_rc(), Primitive::Boolean.to_rc()];
    let outcome = Sequence::new(definition, &[Integer::new(1).to_cell()]);
    match outcome {
        Err(TypeError::ProductTypeError(SequenceError::SequenceLengthMismatch {
            expected,
            provided,
        })) => {
            assert_eq!(expected, 2);
            assert_eq!(provided, 1);
        }
        _ => panic!("an arity mismatch must fail with a length mismatch"),
    }
}

#[test]
fn a_sequence_validates_member_types_left_to_right() {
    let definition: Vec<Type> = vec![Primitive::Integer.to_rc(), Primitive::Boolean.to_rc()];
    let outcome = Sequence::new(
        definition,
        &[Integer::new(1).to_cell(), Integer::new(2).to_cell()],
    );
    assert!(matches!(outcome, Err(TypeError::InvalidType { .. })));
}

#[test]
fn a_sequence_concatenates_member_bytes() {
    let definition: Vec<Type> = vec![Primitive::Boolean.to_rc(), Primitive::Integer.to_rc()];
    let s = Sequence::new(
        definition,
        &[Boolean::create_true().to_cell(), Integer::new(2).to_cell()],
    )
    .unwrap();
    assert_eq!(s.raw(), vec![1, 0, 0, 0, 0, 0, 0, 0, 2]);
    assert_eq!(values_to_raw(s.values()), s.raw());
    assert_eq!(s.get().len(), 2);
    assert_eq!(sum_size(&vec![
        Primitive::Boolean.to_rc(),
        Primitive::Integer.to_rc(),
    ]), 9);
}

#[test]
fn an_empty_sequence_has_no_bytes() {
    let s = Sequence::empty();
    assert_eq!(s.raw().len(), 0);
    assert_eq!(s.data_type().typename(), "");
}

#[test]
fn a_sequence_decodes_its_members_from_windows() {
    let definition: Vec<Type> = vec![Primitive::Boolean.to_rc(), Primitive::Integer.to_rc()];
    let raw = vec![1u8, 0, 0, 0, 0, 0, 0, 0, 5];
    let s = Sequence::from(definition, &raw).unwrap();
    assert_eq!(s.raw(), raw);
    assert_eq!(s.values()[1].raw(), Integer::new(5).raw());
}

#[test]
fn a_short_or_long_buffer_is_a_decode_error() {
    let definition: Vec<Type> = vec![Primitive::Integer.to_rc()];
    assert!(matches!(
        Sequence::from(definition.clone(), &[0u8; 7]),
        Err(TypeError::InvalidType { .. })
    ));
    assert!(matches!(
        Sequence::from(definition, &[0u8; 9]),
        Err(TypeError::InvalidType { .. })
    ));
    assert!(matches!(
        Primitive::Byte.to_rc().construct_from_raw(&[1, 2]),
        Err(TypeError::InvalidType { .. })
    ));
}

#[test]
fn set_refreshes_a_value_in_place_without_revalidating() {
    let mut n = Integer::new(1);
    n.set(&Integer::new(-9).raw());
    assert_eq!(n.value(), -9);

    let definition: Vec<Type> = vec![Primitive::Boolean.to_rc(), Primitive::Integer.to_rc()];
    let mut s = Sequence::new(
        definition,
        &[Boolean::create_false().to_cell(), Integer::new(2).to_cell()],
    )
    .unwrap();
    let fresh = vec![1u8, 0, 0, 0, 0, 0, 0, 0, 9];
    s.set(&fresh);
    assert_eq!(s.raw(), fresh);
}

#[test]
fn parse_splits_the_head_off_a_buffer() {
    let input = [1u8, 2, 3];
    let (head, rest) = parse_slice(&input, 2);
    assert_eq!(head.unwrap(), &[1, 2]);
    assert_eq!(rest, &[3]);
    let (missing, untouched) = parse_slice(&input, 9);
    assert!(missing.is_none());
    assert_eq!(untouched, &input);

    let (i, tail) = Integer::parse(&[0, 0, 0, 0, 0, 0, 0, 7, 0xaa]);
    assert_eq!(i.unwrap().value(), 7);
    assert_eq!(tail, &[0xaa]);
    let (b, _) = Boolean::parse(&[2]);
    assert!(b.unwrap().get());
    let (g, _) = Bytes::parse(&[5, 6, 7], 3);
    assert!(matches!(g.unwrap(), Bytes::Bytes(_, 3)));
    let (f, _) = Float::parse_float(&f64::to_bits(1.5).to_be_bytes());
    assert_eq!(f.unwrap().0, f64::to_bits(1.5));
}

#[test]
fn identifiers_split_on_the_first_slash() {
    let plain = Identifier::new("MyStruct");
    assert_eq!(plain.space, "");
    assert_eq!(plain.name, "MyStruct");
    assert_eq!(plain.to_text(), "MyStruct");

    let spaced = Identifier::new("geo/Point");
    assert_eq!(spaced.space, "geo");
    assert_eq!(spaced.name, "Point");
    assert_eq!(spaced.to_text(), "geo/Point");

    let nested = Identifier::new("a/b/c");
    assert_eq!(nested.space, "a");
    assert_eq!(nested.name, "b/c");

    let core_named = Identifier::in_core("unit");
    assert_eq!(core_named.to_text(), "Core/unit");
}

#[test]
fn a_named_type_qualifies_against_a_current_namespace() {
    let bare = Structure::new(
        "Point",
        roussillon_type_system::identity::LabelBank::from(&[]),
        roussillon_type_system::types::algebraic::ProductType::unit_type(),
    );
    assert_eq!(bare.name(), "Point");
    assert_eq!(bare.space(), "");
    assert_eq!(
        bare.fully_qualified_name(String::from("geo")),
        "geo/Point"
    );
    let spaced = Structure::new(
        "geo/Point",
        roussillon_type_system::identity::LabelBank::from(&[]),
        roussillon_type_system::types::algebraic::ProductType::unit_type(),
    );
    assert_eq!(
        spaced.fully_qualified_name(String::from("elsewhere")),
        "geo/Point"
    );
    assert_eq!(spaced.identifier().to_text(), "geo/Point");
}

#[test]
fn typenames_render_nested_types() {
    let list_of_refs = Primitive::list(
        Primitive::Reference(Box::new(Primitive::Byte.to_rc())).to_rc(),
        12,
    );
    assert_eq!(list_of_refs.typename(), "[&byte;12]");
    assert_eq!(Primitive::Bytes(3).to_rc().typename(), "bytes<3>");
    assert_eq!(
        join(
            &vec![Primitive::Float.to_rc(), Primitive::Boolean.to_rc()],
            "|"
        ),
        "float|boolean"
    );
}

#[test]
fn a_sum_buffer_shorter_than_its_tag_is_a_decode_error() {
    let sum = roussillon_type_system::types::algebraic::SumType::new(&[
        Primitive::Integer.to_rc(),
    ]);
    assert!(matches!(
        sum.construct_from_raw(&[0u8; 3]),
        Err(TypeError::InvalidType { .. })
    ));
    let bad_tag = [9u8, 0, 0, 0, 0, 0, 0, 0];
    let mut raw = bad_tag.to_vec();
    raw.reverse();
    assert!(matches!(
        sum.construct_from_raw(&raw),
        Err(TypeError::SumTypeError(
            roussillon_type_system::value::error::SumTypeError::InvalidCase { .. }
        ))
    ));
}

#[test]
fn a_sum_decodes_its_tagged_variant() {
    let sum = roussillon_type_system::types::algebraic::SumType::new(&[
        Primitive::Boolean.to_rc(),
        Primitive::Integer.to_rc(),
    ]);
    let mut raw = vec![0u8, 0, 0, 0, 0, 0, 0, 1];
    raw.extend_from_slice(&Integer::new(-2).raw());
    let decoded = sum.construct_from_raw(&raw).unwrap();
    assert_eq!(decoded.raw(), raw);
    match decoded {
        ValueCell::Sum(sv) => {
            assert_eq!(sv.tag(), 1);
            assert_eq!(sv.current_type().typename(), "integer");
            assert_eq!(sv.current_value().raw(), Integer::new(-2).raw());
        }
        _ => panic!("a sum type must decode to a sum value"),
    }
}

#[test]
fn an_enumeration_resolves_a_variant_through_its_label() {
    let e = Enumeration::new(
        "Shade",
        LabelBank::from(&["light", "dark"]),
        SumType::new(&[Primitive::Byte.to_rc(), Primitive::Integer.to_rc()]),
    );
    assert_eq!(
        e.labelled(&Label::new("dark")).unwrap().typename(),
        "integer"
    );
    assert!(e.labelled(&Label::new("mid")).is_none());
    assert_eq!(e.variant(0).unwrap().typename(), "byte");
    assert!(e.variant(2).is_none());
    assert_eq!(e.typename(), "Shade");
}

#[test]
fn fixed_width_buffers_decode_to_their_named_classes() {
    for (width, name) in [
        (1usize, "byte"),
        (2, "word"),
        (4, "quad"),
        (16, "wide"),
    ] {
        let t = if width == 1 {
            Primitive::Byte.to_rc()
        } else {
            Primitive::Bytes(width).to_rc()
        };
        let raw = vec![0xabu8; width];
        let v = t.construct_from_raw(&raw).unwrap();
        assert_eq!(v.raw(), raw);
        assert_eq!(v.data_type().typename(), name);
    }
    let eight = Primitive::Bytes(8).to_rc();
    let v = eight.construct_from_raw(&[1, 2, 3, 4, 5, 6, 7, 8]).unwrap();
    assert_eq!(v.data_type().typename(), "long");
    assert!(matches!(v, ValueCell::Bytes(Bytes::Arch(_))));
}
