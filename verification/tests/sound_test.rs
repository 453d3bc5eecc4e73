use cfb::builder::component::union_fields;
use cfb::builder::{
    Builder, Component, FieldValue, NestedBufferComponent, ReferencesVectorComponent,
    ScalarsVectorComponent, StringComponent, TableComponent, TableField,
};
use cfb::schema::{
    raw_valid, BaseType, RawEnum, RawEnumVal, RawField, RawObject, RawType, Schema, Type,
};
use cfb::validation::{build_verified, conforms, get_root, verifiable, verify_root};

fn raw_type(base_type: BaseType, element: BaseType, index: i32) -> RawType {
    RawType {
        base_type,
        element,
        index,
    }
}

fn field(name: &str, field_type: RawType, id: u16) -> RawField {
    RawField {
        name: name.to_owned(),
        field_type,
        id,
        offset: 4 + 2 * id,
        default_integer: 0,
        default_real: "0.0".to_owned(),
        deprecated: false,
        required: false,
        key: false,
        attributes: Vec::new(),
    }
}

fn table(name: &str, fields: Vec<RawField>) -> RawObject {
    RawObject {
        name: name.to_owned(),
        fields,
        is_struct: false,
        minalign: 1,
        bytesize: 0,
        attributes: Vec::new(),
    }
}

fn game_schema() -> Schema {
    let kind = RawEnum {
        name: "game.Kind".to_owned(),
        values: vec![
            RawEnumVal {
                name: "NONE".to_owned(),
                value: 0,
                union_type: None,
            },
            RawEnumVal {
                name: "Weapon".to_owned(),
                value: 1,
                union_type: Some(raw_type(BaseType::Obj, BaseType::NoType, 1)),
            },
            RawEnumVal {
                name: "Monster".to_owned(),
                value: 2,
                union_type: Some(raw_type(BaseType::Obj, BaseType::NoType, 0)),
            },
        ],
        is_union: true,
        underlying_type: raw_type(BaseType::UType, BaseType::NoType, -1),
        attributes: Vec::new(),
    };
    let monster = table(
        "game.Monster",
        vec![
            field("hp", raw_type(BaseType::Short, BaseType::NoType, -1), 0),
            field("name", raw_type(BaseType::String, BaseType::NoType, -1), 1),
            field("inventory", raw_type(BaseType::Vector, BaseType::UByte, -1), 2),
            field("weapons", raw_type(BaseType::Vector, BaseType::Obj, 1), 3),
            field("tags", raw_type(BaseType::Vector, BaseType::String, -1), 4),
            field("equipped_type", raw_type(BaseType::UType, BaseType::NoType, 0), 5),
            field("equipped", raw_type(BaseType::Union, BaseType::NoType, 0), 6),
            field("friend", raw_type(BaseType::Obj, BaseType::NoType, 0), 7),
            field("mana", raw_type(BaseType::ULong, BaseType::NoType, -1), 8),
            field("saved", raw_type(BaseType::Vector, BaseType::UByte, -1), 9),
        ],
    );
    let weapon = table(
        "game.Weapon",
        vec![
            field("name", raw_type(BaseType::String, BaseType::NoType, -1), 0),
            field("damage", raw_type(BaseType::Int, BaseType::NoType, -1), 1),
        ],
    );
    let objects = vec![monster, weapon];
    let enums = vec![kind];
    assert!(raw_valid(&objects, &enums));
    let schema = Schema::from_raw(&objects, &enums);
    assert!(verifiable(&schema));
    schema
}

fn scalar(slot: usize, alignment: usize, bytes: Vec<u8>) -> TableField {
    TableField {
        slot,
        alignment,
        value: FieldValue::Scalar(bytes),
    }
}

fn reference(slot: usize, component: Component) -> TableField {
    TableField {
        slot,
        alignment: 4,
        value: FieldValue::Reference(component),
    }
}

fn string(text: &str) -> Component {
    Component::String(StringComponent::new(text))
}

fn weapon(name: &str, damage: i32) -> TableComponent {
    TableComponent::new(
        4,
        vec![
            reference(4, string(name)),
            scalar(6, 4, damage.to_le_bytes().to_vec()),
        ],
    )
}

fn monster(depth: usize) -> Component {
    let mut fields = vec![
        scalar(20, 8, 7u64.to_le_bytes().to_vec()),
        reference(6, string("Orc")),
        reference(
            8,
            Component::ScalarsVector(ScalarsVectorComponent::new(vec![1, 2, 3], 3)),
        ),
        reference(
            10,
            Component::ReferencesVector(ReferencesVectorComponent::new(vec![
                Component::Table(weapon("Sword", 3)),
                Component::Table(weapon("Axe", 5)),
                Component::Table(weapon("Sword", 4)),
            ])),
        ),
        reference(
            12,
            Component::ReferencesVector(ReferencesVectorComponent::new(vec![
                string("a"),
                string(""),
                string("bcd"),
            ])),
        ),
    ];
    fields.extend(union_fields(14, 16, Some((1, weapon("Bow", 2)))));
    if depth > 0 {
        fields.insert(5, reference(18, monster(depth - 1)));
        fields.insert(
            6,
            reference(
                22,
                Component::NestedBuffer(NestedBufferComponent::new(monster(depth - 1))),
            ),
        );
    }
    fields.push(scalar(4, 2, 300i16.to_le_bytes().to_vec()));
    Component::Table(TableComponent::new(8, fields))
}

#[test]
fn what_is_built_for_a_value_of_the_schema_passes() {
    let schema = game_schema();
    for depth in 0..3 {
        assert!(monster(depth).well_formed());
        assert!(monster(depth).fits_format());
        assert!(conforms(&schema, &Type::Obj(0), &monster(depth)));
        let built = build_verified(monster(depth), &schema, 0).unwrap();
        assert_eq!(Builder::new(monster(depth)).build(), built);
        assert_eq!(Some(built.clone()), Builder::new(monster(depth)).try_build());
        let root = get_root(&built, &schema, 0).unwrap();
        assert_eq!(
            root,
            u32::from_le_bytes([built[0], built[1], built[2], built[3]]) as usize
        );
        assert_eq!(Ok(()), verify_root(&built, &schema, 0));
    }
}

#[test]
fn what_is_no_value_of_the_schema_is_not_built() {
    let schema = game_schema();
    assert!(build_verified(monster(0), &schema, 1).is_none());
    assert!(build_verified(monster(0), &schema, 2).is_none());
    assert!(build_verified(string("x"), &schema, 0).is_none());
    assert!(build_verified(Component::Empty, &schema, 0).is_none());
    let wrong_size = TableComponent::new(4, vec![scalar(4, 4, vec![0; 4])]);
    assert!(build_verified(Component::Table(wrong_size), &schema, 0).is_none());
    let inline_name = TableComponent::new(4, vec![scalar(6, 4, vec![0; 4])]);
    assert!(build_verified(Component::Table(inline_name), &schema, 0).is_none());
    let wrong_element = TableComponent::new(
        4,
        vec![reference(
            12,
            Component::ReferencesVector(ReferencesVectorComponent::new(vec![Component::Table(
                weapon("x", 1),
            )])),
        )],
    );
    assert!(build_verified(Component::Table(wrong_element), &schema, 0).is_none());
    let without_tag = TableComponent::new(
        4,
        vec![reference(16, Component::Table(weapon("x", 1)))],
    );
    assert!(build_verified(Component::Table(without_tag), &schema, 0).is_none());
    let wrong_variant = TableComponent::new(4, union_fields(14, 16, Some((2, weapon("x", 1)))));
    assert!(build_verified(Component::Table(wrong_variant), &schema, 0).is_none());
    let no_variant = TableComponent::new(4, union_fields(14, 16, Some((3, weapon("x", 1)))));
    assert!(build_verified(Component::Table(no_variant), &schema, 0).is_none());
    let unknown_slot = TableComponent::new(4, vec![scalar(40, 4, vec![0; 4])]);
    assert!(build_verified(Component::Table(unknown_slot), &schema, 0).is_some());
    let zero_size = TableComponent::new(4, vec![scalar(40, 4, Vec::new())]);
    assert!(!Component::Table(zero_size).fits_format());
    let far_slot = TableComponent::new(4, vec![scalar(0xfffe, 1, vec![0])]);
    assert!(!Component::Table(far_slot).fits_format());
    let last_slot = TableComponent::new(4, vec![scalar(0xfffc, 1, vec![0])]);
    assert!(Component::Table(last_slot).fits_format());
    let large = TableComponent::new(4, vec![scalar(4, 1, vec![0; 0xfffc])]);
    assert!(!Component::Table(large).fits_format());
    let largest = TableComponent::new(4, vec![scalar(4, 1, vec![0; 0xfffb])]);
    assert!(Component::Table(largest).fits_format());
    let misaligned = TableComponent::new(3, Vec::new());
    assert!(build_verified(Component::Table(misaligned), &schema, 0).is_none());
}

#[test]
fn values_are_told_from_what_they_are_not() {
    let schema = game_schema();
    assert!(conforms(&schema, &Type::String, &string("x")));
    assert!(!conforms(&schema, &Type::Obj(0), &string("x")));
    assert!(!conforms(&schema, &Type::String, &Component::Empty));
    let bytes = Type::Vector(Box::new(Type::UByte));
    let longs = Type::Vector(Box::new(Type::ULong));
    let strings = Type::Vector(Box::new(Type::String));
    let weapons = Type::Vector(Box::new(Type::Obj(1)));
    let three = Component::ScalarsVector(ScalarsVectorComponent::new(vec![0; 24], 3));
    assert!(conforms(&schema, &longs, &three));
    assert!(!conforms(&schema, &bytes, &three));
    assert!(!conforms(&schema, &strings, &three));
    let nested = Component::NestedBuffer(NestedBufferComponent::new(Component::Empty));
    assert!(conforms(&schema, &bytes, &nested));
    assert!(!conforms(&schema, &longs, &nested));
    let names = Component::ReferencesVector(ReferencesVectorComponent::new(vec![string("a")]));
    assert!(conforms(&schema, &strings, &names));
    assert!(!conforms(&schema, &weapons, &names));
    assert!(!conforms(&schema, &bytes, &names));
    let arms = Component::ReferencesVector(ReferencesVectorComponent::new(vec![
        Component::Table(weapon("a", 1)),
    ]));
    assert!(conforms(&schema, &weapons, &arms));
    assert!(!conforms(&schema, &strings, &arms));
    assert!(conforms(&schema, &Type::Obj(1), &Component::Table(weapon("a", 1))));
    assert!(!conforms(&schema, &Type::Obj(0), &Component::Table(weapon("a", 1))));
    assert!(!conforms(&schema, &Type::Union(0), &Component::Table(weapon("a", 1))));
}
