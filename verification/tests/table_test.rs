use cfb::builder::component::union_fields;
use cfb::builder::{
    Builder, Component, DesignatedComponent, FieldValue, NestedBufferComponent,
    ReferencesVectorComponent, ScalarsVectorComponent, StringComponent, TableComponent, TableField,
};
use cfb::schema::{BaseType, RawField, RawObject, RawType, Schema};
use cfb::validation::{field_location, get_root, verify_root, Error};

fn raw_field(name: &str, base_type: BaseType, id: u16) -> RawField {
    RawField {
        name: name.to_owned(),
        field_type: RawType {
            base_type,
            element: BaseType::NoType,
            index: -1,
        },
        id,
        offset: 4 + 2 * id,
        default_integer: 0,
        default_real: "0.0".to_owned(),
        deprecated: false,
        required: false,
        key: false,
        attributes: Vec::new(),
    }
}

fn account_schema() -> Schema {
    let objects = vec![RawObject {
        name: "bank.Account".to_owned(),
        fields: vec![
            raw_field("open", BaseType::Bool, 0),
            raw_field("year", BaseType::UInt, 1),
            raw_field("balance", BaseType::ULong, 2),
            raw_field("owner", BaseType::String, 3),
            raw_field("branch", BaseType::UShort, 4),
            raw_field("limit", BaseType::Long, 5),
        ],
        is_struct: false,
        minalign: 1,
        bytesize: 0,
        attributes: Vec::new(),
    }];
    Schema::from_raw(&objects, &Vec::new())
}

#[test]
fn table_of_an_object_holds_the_present_fields_in_the_order_of_emission() {
    let schema = account_schema();
    let object = &schema.objects[0];
    let values = vec![
        Some(FieldValue::Scalar(vec![1])),
        Some(FieldValue::Scalar(2019u32.to_le_bytes().to_vec())),
        Some(FieldValue::Scalar(77u64.to_le_bytes().to_vec())),
        Some(FieldValue::Reference(Component::String(StringComponent::new("me")))),
        None,
        Some(FieldValue::Scalar((-5i64).to_le_bytes().to_vec())),
    ];
    let table = TableComponent::for_object(object, values);
    assert_eq!(8, table.alignment);
    let order: Vec<(usize, usize)> = table.fields.iter().map(|f| (f.slot, f.alignment)).collect();
    assert_eq!(vec![(8, 8), (14, 8), (6, 4), (10, 4), (4, 1)], order);
    let component = Component::Table(table);
    assert!(component.well_formed());
    let buf = Builder::new(component).build();
    assert_eq!(Ok(()), verify_root(&buf, &schema, 0));
    let expect: Vec<u8> = vec![
        20, 0, 0, 0, // root offset
        16, 0, 29, 0, // sizes
        28, 0, // open
        20, 0, // year
        4, 0, // balance
        24, 0, // owner
        0, 0, // branch
        12, 0, // limit
        16, 0, 0, 0, // distance back to the vtable
        77, 0, 0, 0, 0, 0, 0, 0, // balance
        0xfb, 0xff, 0xff, 0xff, 0xff, 0xff, 0xff, 0xff, // limit
        0xe3, 0x07, 0, 0, // year
        8, 0, 0, 0, // to the owner
        1, // open
        0, 0, 0, // padding
        2, 0, 0, 0, b'm', b'e', 0, // owner
    ];
    assert_eq!(expect, buf);
}

#[test]
fn table_of_an_object_without_values_is_empty() {
    let schema = account_schema();
    let values = vec![None, None, None, None, None, None];
    let table = TableComponent::for_object(&schema.objects[0], values);
    assert!(table.fields.is_empty());
    let buf = Builder::new(Component::Table(table)).build();
    assert_eq!(Ok(()), verify_root(&buf, &schema, 0));
}

#[test]
fn union_takes_two_fields_or_none() {
    assert!(union_fields(4, 6, None).is_empty());
    let variant = TableComponent::new(4, Vec::new());
    let fields = union_fields(4, 6, Some((2, variant)));
    assert_eq!(2, fields.len());
    assert_eq!((6, 4), (fields[0].slot, fields[0].alignment));
    assert!(matches!(fields[0].value, FieldValue::Reference(Component::Table(_))));
    assert_eq!((4, 1), (fields[1].slot, fields[1].alignment));
    match &fields[1].value {
        FieldValue::Scalar(bytes) => assert_eq!(&vec![2u8], bytes),
        FieldValue::Reference(_) => panic!("the discriminant is stored inline"),
    }
}

fn scalar(slot: usize, alignment: usize, len: usize) -> TableField {
    TableField {
        slot,
        alignment,
        value: FieldValue::Scalar(vec![0; len]),
    }
}

#[test]
fn components_that_cannot_be_emitted_are_told() {
    assert!(Component::Empty.well_formed());
    assert!(Component::String(StringComponent::new("a")).well_formed());
    assert!(Component::ScalarsVector(ScalarsVectorComponent::new(vec![0; 8], 2)).well_formed());
    assert!(!Component::ScalarsVector(ScalarsVectorComponent::new(vec![0; 8], 0)).well_formed());
    assert!(!Component::ScalarsVector(ScalarsVectorComponent::new(vec![0; 9], 3)).well_formed());
    assert!(!Component::ScalarsVector(ScalarsVectorComponent::new(Vec::new(), 1)).well_formed());
    assert!(Component::Table(TableComponent::new(4, vec![scalar(4, 4, 4)])).well_formed());
    assert!(!Component::Table(TableComponent::new(3, Vec::new())).well_formed());
    assert!(!Component::Table(TableComponent::new(4, vec![scalar(4, 8, 8)])).well_formed());
    assert!(!Component::Table(TableComponent::new(4, vec![scalar(4, 3, 3)])).well_formed());
    assert!(!Component::Table(TableComponent::new(4, vec![scalar(2, 4, 4)])).well_formed());
    assert!(!Component::Table(TableComponent::new(4, vec![scalar(5, 4, 4)])).well_formed());
    let bad = Component::ScalarsVector(ScalarsVectorComponent::new(vec![0; 3], 1));
    let holder = TableField {
        slot: 4,
        alignment: 4,
        value: FieldValue::Reference(bad),
    };
    assert!(!Component::Table(TableComponent::new(4, vec![scalar(6, 4, 4), holder])).well_formed());
    let bad = Component::ScalarsVector(ScalarsVectorComponent::new(vec![0; 3], 1));
    assert!(!Component::ReferencesVector(ReferencesVectorComponent::new(vec![
        Component::Empty,
        bad,
        Component::Empty
    ]))
    .well_formed());
    let bad = Component::Table(TableComponent::new(0, Vec::new()));
    assert!(!Component::NestedBuffer(NestedBufferComponent::new(bad)).well_formed());
    assert!(Component::NestedBuffer(NestedBufferComponent::new(Component::Empty)).well_formed());
}

#[test]
fn builders_tell_whether_what_waits_can_be_emitted() {
    let mut builder = Builder::new(Component::Empty);
    assert!(builder.well_formed());
    builder.push_reference(Component::String(StringComponent::new("x")));
    assert!(builder.well_formed());
    assert_eq!(8, builder.tell());
    assert_eq!(&[0u8; 4][..], &builder.as_bytes()[4..]);
    builder.push_component(DesignatedComponent::new(
        0,
        Component::Table(TableComponent::new(5, Vec::new())),
    ));
    assert!(!builder.well_formed());
    let bare = Builder::new(Component::Table(TableComponent::new(6, Vec::new())));
    assert!(!bare.well_formed());
}

#[test]
fn references_are_emitted_behind_the_offsets_that_point_to_them() {
    let mut builder = Builder::new(Component::Empty);
    builder.push_reference(Component::String(StringComponent::new("x")));
    builder.push_reference(Component::String(StringComponent::new("y")));
    let buf = builder.build();
    let expect: Vec<u8> = vec![
        12, 0, 0, 0, // to the root, which is empty
        8, 0, 0, 0, // to "x"
        12, 0, 0, 0, // to "y"
        1, 0, 0, 0, b'x', 0, // "x"
        0, 0, // padding
        1, 0, 0, 0, b'y', 0, // "y"
    ];
    assert_eq!(expect, buf);
}

#[test]
fn failures_say_what_they_are() {
    assert_eq!("memory access is out of bounds", Error::OutOfBounds.message());
    assert_eq!(
        "string is not terminated with null",
        Error::NonNullTerminatedString.message()
    );
    assert_eq!(
        "union type and value does not match",
        Error::UnmatchedUnion.message()
    );
}

#[test]
fn fields_are_found_where_their_bytes_stand() {
    let schema = account_schema();
    let values = vec![
        Some(FieldValue::Scalar(vec![1])),
        None,
        Some(FieldValue::Scalar(77u64.to_le_bytes().to_vec())),
        None,
        Some(FieldValue::Scalar(513u16.to_le_bytes().to_vec())),
        None,
    ];
    let table = TableComponent::for_object(&schema.objects[0], values);
    let buf = Builder::new(Component::Table(table)).build();
    let root = get_root(&buf, &schema, 0).unwrap();
    let open = field_location(&buf, root, 4).unwrap();
    assert_eq!(1, buf[open]);
    assert_eq!(None, field_location(&buf, root, 6));
    let balance = field_location(&buf, root, 8).unwrap();
    assert_eq!(&77u64.to_le_bytes()[..], &buf[balance..balance + 8]);
    assert_eq!(0, balance % 8);
    assert_eq!(None, field_location(&buf, root, 10));
    let branch = field_location(&buf, root, 12).unwrap();
    assert_eq!(&[1u8, 2][..], &buf[branch..branch + 2]);
    assert_eq!(None, field_location(&buf, root, 14));
    assert_eq!(None, field_location(&buf, root, 16));
    assert_eq!(None, field_location(&buf, root, 4000));
    assert_eq!(None, field_location(&buf, buf.len(), 4));
    assert_eq!(None, field_location(&buf, 0, 4));
}
