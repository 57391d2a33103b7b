use roussillon_type_system::factory::{copy_value, create_struct};
use roussillon_type_system::identity::{Label, LabelBank, Labelled};
use roussillon_type_system::types::algebraic::{bottom_type, ProductType, SumType};
use roussillon_type_system::types::concept::{DataType, Type};
use roussillon_type_system::types::primitive::Primitive;
use roussillon_type_system::types::typedef::{Enumeration, Structure};
use roussillon_type_system::value::concept::{DataValue, ValueCell};
use roussillon_type_system::value::error::{SumTypeError, TypeError};
use roussillon_type_system::value::number::{Float, Integer};
use roussillon_type_system::value::record::Record;
use roussillon_type_system::value::union::Union;

fn point_structure() -> Structure {
    create_struct(
        "Point",
        LabelBank::from(&["x", "y"]),
        &[Primitive::Integer.to_rc(), Primitive::Integer.to_rc()],
    )
}

fn point_record(x: i64, y: i64) -> Record {
    Record::new(
        point_structure(),
        &[Integer::new(x).to_cell(), Integer::new(y).to_cell()],
    )
    .unwrap()
}

#[test]
fn test() {
    let my_struct = create_struct(
        "MyStruct",
        LabelBank::from(&["field_a", "field_b", "field_c"]),
        &[
            Primitive::Integer.to_rc(),
            Primitive::Integer.to_rc(),
            Primitive::Float.to_rc(),
        ],
    );

    let object = Record::new(
        my_struct.clone(),
        &[
            Integer::new(40).to_cell(),
            Integer::new(96).to_cell(),
            Float(f64::to_bits(40.0)).to_cell(),
        ],
    )
    .unwrap();
    for i in 0..3 {
        let field = object.get_field(i).unwrap();
        assert_eq!(field.raw().len(), 8);
    }

    let copy = copy_value(my_struct.clone().to_rc(), &object.clone().to_cell()).unwrap();
    assert_eq!(
        object.data_type().typename(),
        copy.data_type().typename()
    );
}

#[test]
fn structure_of_two_integers_spans_sixteen_bytes() {
    let point = point_structure();
    assert_eq!(point.size(), 16);
    assert_eq!(point.typename(), "Point");
}

#[test]
fn record_encodes_fields_big_endian_in_order() {
    let record = point_record(3, 4);
    let raw = record.raw();
    assert_eq!(raw.len(), 16);
    let mut expected = vec![0u8, 0, 0, 0, 0, 0, 0, 3];
    expected.extend_from_slice(&[0, 0, 0, 0, 0, 0, 0, 4]);
    assert_eq!(raw, expected);
}

#[test]
fn record_reconstructs_from_its_own_bytes() {
    let record = point_record(3, 4);
    let raw = record.raw();
    let rebuilt = point_structure().construct_from_raw(&raw).unwrap();
    assert_eq!(rebuilt.raw(), raw);
    match rebuilt {
        ValueCell::Record(r) => {
            assert_eq!(r.get_field(0).unwrap().raw(), Integer::new(3).raw());
            assert_eq!(r.get_field(1).unwrap().raw(), Integer::new(4).raw());
            assert!(r.get_field(2).is_none());
        }
        _ => panic!("a structure must decode to a record"),
    }
}

fn option_enumeration() -> Enumeration {
    let unit = ProductType::unit_type().to_rc();
    let point = point_structure().to_rc();
    Enumeration::new(
        "Option",
        LabelBank::from(&["None", "Some"]),
        SumType::new(&[unit, point]),
    )
}

#[test]
fn union_accepts_a_value_of_the_tagged_variant() {
    let opt = option_enumeration();
    let u = Union::new(opt, 1, point_record(3, 4).to_cell()).unwrap();
    assert_eq!(u.current_type().typename(), "Point");
    assert_eq!(u.tag(), 1);
    assert_eq!(u.raw().len(), 8 + 16);
}

#[test]
fn union_rejects_a_value_of_another_type_with_invalid_tag() {
    let opt = option_enumeration();
    let wrong = Union::new(opt, 1, Integer::new(5).to_cell());
    assert!(matches!(
        wrong,
        Err(TypeError::SumTypeError(SumTypeError::InvalidTag { .. }))
    ));
}

#[test]
fn union_rejects_a_tag_beyond_the_variants_with_invalid_case() {
    let opt = option_enumeration();
    let wrong = Union::new(opt, 5, Integer::new(5).to_cell());
    assert!(matches!(
        wrong,
        Err(TypeError::SumTypeError(SumTypeError::InvalidCase { .. }))
    ));
}

#[test]
fn union_round_trips_through_its_bytes() {
    let opt = option_enumeration();
    let u = Union::new(opt.clone(), 1, point_record(3, 4).to_cell()).unwrap();
    let raw = u.raw();
    let rebuilt = opt.construct_from_raw(&raw).unwrap();
    assert_eq!(rebuilt.raw(), raw);
}

#[test]
fn set_cell_replaces_tag_and_value_together() {
    let opt = option_enumeration();
    let mut u = Union::new(opt, 1, point_record(3, 4).to_cell()).unwrap();
    let unit_value = roussillon_type_system::value::record::ProductValue::new(
        ProductType::unit_type(),
        &[],
    )
    .unwrap()
    .to_cell();
    u.set_cell(0, unit_value).unwrap();
    assert_eq!(u.tag(), 0);
}

#[test]
fn set_cell_leaves_the_union_unchanged_on_a_bad_tag() {
    let opt = option_enumeration();
    let mut u = Union::new(opt, 1, point_record(3, 4).to_cell()).unwrap();
    let before = u.raw();
    let outcome = u.set_cell(7, Integer::new(9).to_cell());
    assert!(matches!(
        outcome,
        Err(TypeError::SumTypeError(SumTypeError::InvalidCase { .. }))
    ));
    assert_eq!(u.tag(), 1);
    assert_eq!(u.raw(), before);
}

#[test]
fn product_size_is_the_sum_of_member_sizes() {
    let members = [
        Primitive::Boolean.to_rc(),
        Primitive::Integer.to_rc(),
        Primitive::Bytes(3).to_rc(),
    ];
    assert_eq!(ProductType::new(&members).size(), 1 + 8 + 3);
}

#[test]
fn sum_size_is_the_largest_member_size() {
    let members = [
        Primitive::Boolean.to_rc(),
        Primitive::Integer.to_rc(),
        Primitive::Bytes(3).to_rc(),
    ];
    assert_eq!(SumType::new(&members).size(), 8);
}

#[test]
fn the_empty_sum_has_size_zero() {
    assert_eq!(SumType::new(&[]).size(), 0);
    assert_eq!(bottom_type().size(), 0);
}

#[test]
fn the_unit_type_has_size_zero_and_one_trivial_inhabitant() {
    let unit = ProductType::unit_type();
    assert!(unit.is_unit_type());
    assert_eq!(unit.size(), 0);
    let inhabitant = unit.to_rc().construct_from_raw(&[]).unwrap();
    assert_eq!(inhabitant.raw().len(), 0);
}

#[test]
fn structures_with_equal_fields_but_different_names_are_not_type_equal() {
    let fields = [Primitive::Integer.to_rc(), Primitive::Integer.to_rc()];
    let bank = || LabelBank::from(&["x", "y"]);
    let first = create_struct("MyStruct", bank(), &fields);
    let second = create_struct("OtherStruct", bank(), &fields);
    assert_eq!(first.typename(), "MyStruct");
    assert_ne!(first.typename(), second.typename());
    assert_eq!(first.size(), second.size());
}

#[test]
fn a_field_resolves_through_its_label() {
    let record = point_record(7, 9);
    assert_eq!(
        record.field_from_name("y").unwrap().raw(),
        Integer::new(9).raw()
    );
    assert!(record.field_from_name("z").is_none());
    let by_label = record.labelled(&Label::new("x")).unwrap();
    assert_eq!(by_label.raw(), Integer::new(7).raw());
}

#[test]
fn a_structure_resolves_a_field_type_through_its_label() {
    let point = point_structure();
    let field_type = point.labelled(&Label::new("x")).unwrap();
    assert_eq!(field_type.typename(), "integer");
}

#[test]
fn a_duplicate_label_resolves_to_its_later_position() {
    let bank = LabelBank::from(&["a", "b", "a"]);
    assert_eq!(bank.labelled(&Label::new("a")), Some(2));
    assert_eq!(bank.labelled(&Label::new("b")), Some(1));
    assert_eq!(bank.labelled(&Label::new("c")), None);
}

#[test]
fn copying_a_value_preserves_its_bytes() {
    let record = point_record(11, 12);
    let cell = record.clone().to_cell();
    let copy = copy_value(point_structure().to_rc(), &cell).unwrap();
    assert_eq!(copy.raw(), record.raw());
}

#[test]
fn a_function_type_cannot_construct_a_value() {
    let signature = roussillon_type_system::types::functional::FunctionType::new(
        vec![Primitive::Integer.to_rc()],
        Primitive::Boolean.to_rc(),
    );
    assert_eq!(signature.size(), 8);
    assert_eq!(signature.typename(), "fn<(integer), boolean>");
    let outcome = signature.construct_from_raw(&[0u8; 8]);
    assert!(matches!(outcome, Err(TypeError::Message(_))));
}

#[test]
fn a_tuple_names_its_members_joined_by_commas() {
    let tuple: Vec<Type> = vec![Primitive::Integer.to_rc(), Primitive::Boolean.to_rc()];
    let t = Type::Tuple(tuple);
    assert_eq!(t.typename(), "integer,boolean");
    assert_eq!(t.size(), 9);
}

#[test]
fn algebraic_typenames_wrap_their_members() {
    let members = [Primitive::Integer.to_rc(), Primitive::Boolean.to_rc()];
    assert_eq!(SumType::new(&members).typename(), "<integer|boolean>");
    assert_eq!(ProductType::new(&members).typename(), "<integer&boolean>");
}

#[test]
fn fn_size_reduces_member_sizes_with_the_given_operation() {
    fn larger(a: usize, b: usize) -> usize {
        if a > b {
            a
        } else {
            b
        }
    }
    let members = vec![
        Primitive::Boolean.to_rc(),
        Primitive::Integer.to_rc(),
        Primitive::Bytes(3).to_rc(),
    ];
    assert_eq!(
        roussillon_type_system::types::sequence::fn_size(&members, larger),
        8
    );
    assert_eq!(
        roussillon_type_system::types::sequence::fn_size(&Vec::new(), larger),
        0
    );
    let single = vec![Primitive::Bytes(5).to_rc()];
    assert_eq!(
        roussillon_type_system::types::sequence::fn_size(&single, larger),
        5
    );
}
