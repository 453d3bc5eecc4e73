use cfb::builder::{
    Builder, Component, FieldValue, ReferencesVectorComponent, ScalarsVectorComponent,
    StringComponent, TableComponent, TableField,
};
use cfb::schema::{
    raw_valid, BaseType, RawEnum, RawEnumVal, RawField, RawObject, RawType, Schema,
};
use cfb::validation::{
    get_root, get_size_prefixed_root, try_follow_uoffset, try_read_uoffset, verifiable,
    verify_root, verify_size_prefixed_root, Error, StringVerifier, TableVerifier, VectorVerifier,
    Verify, MAX_OFFSET_LOC,
};

fn plain(base_type: BaseType) -> RawType {
    RawType {
        base_type,
        element: BaseType::NoType,
        index: -1,
    }
}

fn vector_of(element: BaseType, index: i32) -> RawType {
    RawType {
        base_type: BaseType::Vector,
        element,
        index,
    }
}

fn object_type(index: i32) -> RawType {
    RawType {
        base_type: BaseType::Obj,
        element: BaseType::NoType,
        index,
    }
}

fn field(name: &str, field_type: RawType, id: u16) -> RawField {
    RawField {
        name: name.to_owned(),
        field_type,
        id,
        offset: 4 + 2 * id,
        default_integer: 0,
        default_real: "0.0".to_owned(),
        deprecated: false,
        required: false,
        key: false,
        attributes: Vec::new(),
    }
}

fn table(name: &str, fields: Vec<RawField>) -> RawObject {
    RawObject {
        name: name.to_owned(),
        fields,
        is_struct: false,
        minalign: 1,
        bytesize: 0,
        attributes: Vec::new(),
    }
}

fn schema_of(objects: Vec<RawObject>, enums: Vec<RawEnum>) -> Schema {
    assert!(raw_valid(&objects, &enums));
    let schema = Schema::from_raw(&objects, &enums);
    assert!(verifiable(&schema));
    schema
}

fn sensor_schema() -> Schema {
    schema_of(
        vec![table(
            "example.Sensor",
            vec![field("readings", vector_of(BaseType::UInt, -1), 0)],
        )],
        Vec::new(),
    )
}

fn text_schema() -> Schema {
    schema_of(
        vec![table(
            "example.Text",
            vec![field("lines", vector_of(BaseType::String, -1), 0)],
        )],
        Vec::new(),
    )
}

fn hero_with_stats_schema() -> Schema {
    schema_of(
        vec![
            table(
                "example.Hero",
                vec![field("stats", vector_of(BaseType::Obj, 1), 0)],
            ),
            table("example.Stat", vec![field("hp", plain(BaseType::UInt), 0)]),
        ],
        Vec::new(),
    )
}

fn author_schema() -> Schema {
    schema_of(
        vec![table(
            "example.Author",
            vec![field("name", plain(BaseType::String), 0)],
        )],
        Vec::new(),
    )
}

fn hero_with_stat_schema() -> Schema {
    schema_of(
        vec![
            table("example.Hero", vec![field("stat", object_type(1), 0)]),
            table("example.Stat", vec![field("hp", plain(BaseType::UInt), 0)]),
        ],
        Vec::new(),
    )
}

fn player_schema() -> Schema {
    let role = RawEnum {
        name: "example.Role".to_owned(),
        values: vec![
            RawEnumVal {
                name: "NONE".to_owned(),
                value: 0,
                union_type: None,
            },
            RawEnumVal {
                name: "Hero".to_owned(),
                value: 1,
                union_type: Some(object_type(1)),
            },
            RawEnumVal {
                name: "Monster".to_owned(),
                value: 2,
                union_type: Some(object_type(2)),
            },
        ],
        is_union: true,
        underlying_type: plain(BaseType::UType),
        attributes: Vec::new(),
    };
    schema_of(
        vec![
            table(
                "example.Player",
                vec![
                    field(
                        "role_type",
                        RawType {
                            base_type: BaseType::UType,
                            element: BaseType::NoType,
                            index: 0,
                        },
                        0,
                    ),
                    field(
                        "role",
                        RawType {
                            base_type: BaseType::Union,
                            element: BaseType::NoType,
                            index: 0,
                        },
                        1,
                    ),
                ],
            ),
            table("example.Hero", vec![field("hp", plain(BaseType::UInt), 0)]),
            table("example.Monster", vec![field("hp", plain(BaseType::UInt), 0)]),
        ],
        vec![role],
    )
}

fn cat(parts: &[&[u8]]) -> Vec<u8> {
    parts.concat()
}

#[test]
fn test_scalar_vector_uoffset_out_of_bounds() {
    let buf = cat(&[
        &10u32.to_le_bytes(),
        // vtable
        &6u16.to_le_bytes(),
        &8u16.to_le_bytes(),
        &4u16.to_le_bytes(),
        // sensor
        &6i32.to_le_bytes(),
        &4u32.to_le_bytes(),
    ]);
    let root = get_root(&buf, &sensor_schema(), 0);
    assert_eq!(root, Err(Error::OutOfBounds));
}

#[test]
fn test_scalar_vector_len_out_of_bounds() {
    let buf = cat(&[
        &10u32.to_le_bytes(),
        // vtable
        &6u16.to_le_bytes(),
        &8u16.to_le_bytes(),
        &4u16.to_le_bytes(),
        // sensor
        &6i32.to_le_bytes(),
        &4u32.to_le_bytes(),
        // readings
        &0u16.to_le_bytes(),
    ]);
    let root = get_root(&buf, &sensor_schema(), 0);
    assert_eq!(root, Err(Error::OutOfBounds));
}

#[test]
fn test_scalar_vector_content_out_of_bounds() {
    let buf = cat(&[
        &10u32.to_le_bytes(),
        // vtable
        &6u16.to_le_bytes(),
        &8u16.to_le_bytes(),
        &4u16.to_le_bytes(),
        // sensor
        &6i32.to_le_bytes(),
        &4u32.to_le_bytes(),
        // readings
        &2u32.to_le_bytes(),
        &1u32.to_le_bytes(),
    ]);
    let root = get_root(&buf, &sensor_schema(), 0);
    assert_eq!(root, Err(Error::OutOfBounds));
}

#[test]
fn test_string_vector_uoffset_out_of_bounds() {
    let buf = cat(&[
        &10u32.to_le_bytes(),
        // vtable
        &6u16.to_le_bytes(),
        &8u16.to_le_bytes(),
        &4u16.to_le_bytes(),
        // text
        &6i32.to_le_bytes(),
        &4u32.to_le_bytes(),
    ]);
    let root = get_root(&buf, &text_schema(), 0);
    assert_eq!(root, Err(Error::OutOfBounds));
}

#[test]
fn test_string_vector_len_out_of_bounds() {
    let buf = cat(&[
        &10u32.to_le_bytes(),
        // vtable
        &6u16.to_le_bytes(),
        &8u16.to_le_bytes(),
        &4u16.to_le_bytes(),
        // text
        &6i32.to_le_bytes(),
        &4u32.to_le_bytes(),
        // lines
        &0u16.to_le_bytes(),
    ]);
    let root = get_root(&buf, &text_schema(), 0);
    assert_eq!(root, Err(Error::OutOfBounds));
}

#[test]
fn test_string_vector_content_out_of_bounds() {
    let buf = cat(&[
        &10u32.to_le_bytes(),
        // vtable
        &6u16.to_le_bytes(),
        &8u16.to_le_bytes(),
        &4u16.to_le_bytes(),
        // text
        &6i32.to_le_bytes(),
        &4u32.to_le_bytes(),
        // lines
        &2u32.to_le_bytes(),
        &1u32.to_le_bytes(),
    ]);
    let root = get_root(&buf, &text_schema(), 0);
    assert_eq!(root, Err(Error::OutOfBounds));
}

#[test]
fn test_string_vector_element_out_of_bounds() {
    let buf = cat(&[
        &10u32.to_le_bytes(),
        // vtable
        &6u16.to_le_bytes(),
        &8u16.to_le_bytes(),
        &4u16.to_le_bytes(),
        // text
        &6i32.to_le_bytes(),
        &4u32.to_le_bytes(),
        // lines
        &1u32.to_le_bytes(),
        &4u32.to_le_bytes(),
        // lines[0]
        &1u32.to_le_bytes(),
        b"ab",
    ]);
    let root = get_root(&buf, &text_schema(), 0);
    assert_eq!(root, Err(Error::NonNullTerminatedString));
}

#[test]
fn test_table_vector_uoffset_out_of_bounds() {
    let buf = cat(&[
        &10u32.to_le_bytes(),
        // vtable
        &6u16.to_le_bytes(),
        &8u16.to_le_bytes(),
        &4u16.to_le_bytes(),
        // hero
        &6i32.to_le_bytes(),
        &4u32.to_le_bytes(),
    ]);
    let root = get_root(&buf, &hero_with_stats_schema(), 0);
    assert_eq!(root, Err(Error::OutOfBounds));
}

#[test]
fn test_table_vector_len_out_of_bounds() {
    let buf = cat(&[
        &10u32.to_le_bytes(),
        // vtable
        &6u16.to_le_bytes(),
        &8u16.to_le_bytes(),
        &4u16.to_le_bytes(),
        // hero
        &6i32.to_le_bytes(),
        &4u32.to_le_bytes(),
        // stats
        &0u16.to_le_bytes(),
    ]);
    let root = get_root(&buf, &hero_with_stats_schema(), 0);
    assert_eq!(root, Err(Error::OutOfBounds));
}

#[test]
fn test_table_vector_content_out_of_bounds() {
    let buf = cat(&[
        &10u32.to_le_bytes(),
        // vtable
        &6u16.to_le_bytes(),
        &8u16.to_le_bytes(),
        &4u16.to_le_bytes(),
        // hero
        &6i32.to_le_bytes(),
        &4u32.to_le_bytes(),
        // stats
        &2u32.to_le_bytes(),
        &4u32.to_le_bytes(),
    ]);
    let root = get_root(&buf, &hero_with_stats_schema(), 0);
    assert_eq!(root, Err(Error::OutOfBounds));
}

#[test]
fn test_table_vector_element_out_of_bounds() {
    let buf = cat(&[
        &10u32.to_le_bytes(),
        // vtable
        &6u16.to_le_bytes(),
        &8u16.to_le_bytes(),
        &4u16.to_le_bytes(),
        // hero
        &6i32.to_le_bytes(),
        &4u32.to_le_bytes(),
        // stats
        &1u32.to_le_bytes(),
        &4u32.to_le_bytes(),
        // stats[0]
        &22u32.to_le_bytes(),
        &4u16.to_le_bytes(),
    ]);
    let root = get_root(&buf, &hero_with_stats_schema(), 0);
    assert_eq!(root, Err(Error::OutOfBounds));
}

#[test]
fn test_string_uoffset_out_of_bounds() {
    let buf = cat(&[
        &10u32.to_le_bytes(),
        // vtable
        &6u16.to_le_bytes(),
        &8u16.to_le_bytes(),
        &4u16.to_le_bytes(),
        // author
        &6i32.to_le_bytes(),
        &4u32.to_le_bytes(),
    ]);
    let author = get_root(&buf, &author_schema(), 0);
    assert_eq!(author, Err(Error::OutOfBounds));
}

#[test]
fn test_string_len_out_of_bounds() {
    let buf = cat(&[
        &10u32.to_le_bytes(),
        // vtable
        &6u16.to_le_bytes(),
        &8u16.to_le_bytes(),
        &4u16.to_le_bytes(),
        // author
        &6i32.to_le_bytes(),
        &4u32.to_le_bytes(),
        // name
        &0u16.to_le_bytes(),
    ]);
    let author = get_root(&buf, &author_schema(), 0);
    assert_eq!(author, Err(Error::OutOfBounds));
}

#[test]
fn test_string_content_out_of_bounds() {
    let buf = cat(&[
        &10u32.to_le_bytes(),
        // vtable
        &6u16.to_le_bytes(),
        &8u16.to_le_bytes(),
        &4u16.to_le_bytes(),
        // author
        &6i32.to_le_bytes(),
        &4u32.to_le_bytes(),
        // name
        &4u32.to_le_bytes(),
        b"1234",
    ]);
    let author = get_root(&buf, &author_schema(), 0);
    assert_eq!(author, Err(Error::OutOfBounds));
}

#[test]
fn test_string_not_terminated_with_null() {
    let buf = cat(&[
        &10u32.to_le_bytes(),
        // vtable
        &6u16.to_le_bytes(),
        &8u16.to_le_bytes(),
        &4u16.to_le_bytes(),
        // author
        &6i32.to_le_bytes(),
        &4u32.to_le_bytes(),
        // name
        &4u32.to_le_bytes(),
        b"12345",
    ]);
    let author = get_root(&buf, &author_schema(), 0);
    assert_eq!(author, Err(Error::NonNullTerminatedString));
}

#[test]
fn test_table_header_out_of_bounds() {
    let buf = cat(&[&6u32.to_le_bytes(), &4u32.to_le_bytes()]);
    let hero = get_root(&buf, &hero_with_stat_schema(), 0);
    assert_eq!(hero, Err(Error::OutOfBounds));
}

#[test]
fn test_vtable_header_out_of_bounds() {
    let buf = cat(&[
        &4u32.to_le_bytes(),
        &(-4i32).to_le_bytes(),
        &0u16.to_le_bytes(),
    ]);
    let hero = get_root(&buf, &hero_with_stat_schema(), 0);
    assert_eq!(hero, Err(Error::OutOfBounds));
}

#[test]
fn test_vtable_body_out_of_bounds() {
    let buf = cat(&[
        &4u32.to_le_bytes(),
        &(-4i32).to_le_bytes(),
        &6u16.to_le_bytes(),
        &4u16.to_le_bytes(),
    ]);
    let hero = get_root(&buf, &hero_with_stat_schema(), 0);
    assert_eq!(hero, Err(Error::OutOfBounds));
}

#[test]
fn test_table_body_out_of_bounds() {
    let buf = cat(&[
        &8u32.to_le_bytes(),
        &4u16.to_le_bytes(),
        &6u16.to_le_bytes(),
        &4i32.to_le_bytes(),
    ]);
    let hero = get_root(&buf, &hero_with_stat_schema(), 0);
    assert_eq!(hero, Err(Error::OutOfBounds));
}

#[test]
fn test_table_fields_offset_out_of_bounds() {
    {
        let buf = cat(&[
            &10u32.to_le_bytes(),
            // vtable
            &6u16.to_le_bytes(),
            &6u16.to_le_bytes(),
            &6u16.to_le_bytes(),
            // tab
            &6i32.to_le_bytes(),
            &0u16.to_le_bytes(),
        ]);
        let hero = get_root(&buf, &hero_with_stat_schema(), 0);
        assert_eq!(hero, Err(Error::OutOfBounds));
    }

    {
        let buf = cat(&[
            &10u32.to_le_bytes(),
            // vtable
            &6u16.to_le_bytes(),
            &6u16.to_le_bytes(),
            &4u16.to_le_bytes(),
            // tab
            &6i32.to_le_bytes(),
            &0u16.to_le_bytes(),
        ]);
        let hero = get_root(&buf, &hero_with_stat_schema(), 0);
        assert_eq!(hero, Err(Error::OutOfBounds));
    }
}

#[test]
fn test_nested_table_field_out_of_bounds() {
    let buf = cat(&[
        &10u32.to_le_bytes(),
        // vtable
        &6u16.to_le_bytes(),
        &8u16.to_le_bytes(),
        &4u16.to_le_bytes(),
        // hero
        &6i32.to_le_bytes(),
        &4u32.to_le_bytes(),
        // vtable
        &6u16.to_le_bytes(),
        &8u16.to_le_bytes(),
        &6u16.to_le_bytes(),
        // stat
        &6i32.to_le_bytes(),
        &8u32.to_le_bytes(),
    ]);
    let hero = get_root(&buf, &hero_with_stat_schema(), 0);
    assert_eq!(hero, Err(Error::OutOfBounds));
}

#[test]
fn test_union_element_verification_error() {
    let buf = cat(&[
        &12u32.to_le_bytes(),
        // vtable
        &8u16.to_le_bytes(),
        &12u16.to_le_bytes(),
        &4u16.to_le_bytes(),
        &8u16.to_le_bytes(),
        // tab
        &8i32.to_le_bytes(),
        &1u32.to_le_bytes(),
        &12u32.to_le_bytes(),
        // vtable
        &6u16.to_le_bytes(),
        &8u16.to_le_bytes(),
        &4u16.to_le_bytes(),
        &0u16.to_le_bytes(),
        // tab
        &8i32.to_le_bytes(),
    ]);
    let hero = get_root(&buf, &player_schema(), 0);
    assert_eq!(hero, Err(Error::OutOfBounds));
}

#[test]
fn test_soffset_overflow() {
    let buf = cat(&[
        &4u32.to_le_bytes(),
        // hero
        &6i32.to_le_bytes(),
    ]);
    let hero = get_root(&buf, &hero_with_stat_schema(), 0);
    assert_eq!(hero, Err(Error::OutOfBounds));
}

#[test]
fn test_zero_root_offset() {
    let buf = cat(&[&0u32.to_le_bytes()]);
    let hero = get_root(&buf, &hero_with_stat_schema(), 0);
    assert_eq!(hero, Err(Error::OutOfBounds));
}

fn u32_field(slot: usize, value: u32) -> TableField {
    TableField {
        slot,
        alignment: 4,
        value: FieldValue::Scalar(value.to_le_bytes().to_vec()),
    }
}

fn reference_field(slot: usize, component: Component) -> TableField {
    TableField {
        slot,
        alignment: 4,
        value: FieldValue::Reference(component),
    }
}

fn player(tag: u8, hp: u32) -> Vec<u8> {
    let variant = Component::Table(TableComponent::new(4, vec![u32_field(4, hp)]));
    let table = TableComponent::new(
        4,
        vec![
            reference_field(6, variant),
            TableField {
                slot: 4,
                alignment: 1,
                value: FieldValue::Scalar(vec![tag]),
            },
        ],
    );
    Builder::new(Component::Table(table)).build()
}

#[test]
fn what_the_builder_emits_passes() {
    let author = TableComponent::new(
        4,
        vec![reference_field(
            4,
            Component::String(StringComponent::new("hello")),
        )],
    );
    let buf = Builder::new(Component::Table(author)).build();
    assert_eq!(Ok(12), get_root(&buf, &author_schema(), 0));
    assert_eq!(Ok(()), verify_root(&buf, &author_schema(), 0));

    let sensor = TableComponent::new(
        4,
        vec![reference_field(
            4,
            Component::ScalarsVector(ScalarsVectorComponent::new(
                vec![1, 0, 0, 0, 2, 0, 0, 0, 3, 0, 0, 0],
                3,
            )),
        )],
    );
    let buf = Builder::new(Component::Table(sensor)).build();
    assert_eq!(Ok(()), verify_root(&buf, &sensor_schema(), 0));

    let text = TableComponent::new(
        4,
        vec![reference_field(
            4,
            Component::ReferencesVector(ReferencesVectorComponent::new(vec![
                Component::String(StringComponent::new("one")),
                Component::String(StringComponent::new("")),
                Component::String(StringComponent::new("three")),
            ])),
        )],
    );
    let buf = Builder::new(Component::Table(text)).build();
    assert_eq!(Ok(()), verify_root(&buf, &text_schema(), 0));

    let stats = ReferencesVectorComponent::new(vec![
        Component::Table(TableComponent::new(4, vec![u32_field(4, 7)])),
        Component::Table(TableComponent::new(4, Vec::new())),
        Component::Table(TableComponent::new(4, vec![u32_field(4, 9)])),
    ]);
    let hero = TableComponent::new(
        4,
        vec![reference_field(4, Component::ReferencesVector(stats))],
    );
    let buf = Builder::new(Component::Table(hero)).build();
    assert_eq!(Ok(()), verify_root(&buf, &hero_with_stats_schema(), 0));

    let stat = Component::Table(TableComponent::new(4, vec![u32_field(4, 100)]));
    let hero = TableComponent::new(4, vec![reference_field(4, stat)]);
    let buf = Builder::new(Component::Table(hero)).build();
    assert_eq!(Ok(()), verify_root(&buf, &hero_with_stat_schema(), 0));

    let empty = TableComponent::new(4, Vec::new());
    let buf = Builder::new(Component::Table(empty)).build();
    assert_eq!(Ok(()), verify_root(&buf, &hero_with_stat_schema(), 0));

    assert_eq!(Ok(()), verify_root(&player(1, 5), &player_schema(), 0));
    assert_eq!(Ok(()), verify_root(&player(2, 5), &player_schema(), 0));
}

#[test]
fn union_needs_a_discriminant_that_names_a_table() {
    assert_eq!(
        Err(Error::UnmatchedUnion),
        verify_root(&player(0, 5), &player_schema(), 0)
    );
    assert_eq!(
        Err(Error::UnmatchedUnion),
        verify_root(&player(3, 5), &player_schema(), 0)
    );
    let variant = Component::Table(TableComponent::new(4, vec![u32_field(4, 1)]));
    let without_tag = TableComponent::new(4, vec![reference_field(6, variant)]);
    let buf = Builder::new(Component::Table(without_tag)).build();
    assert_eq!(
        Err(Error::UnmatchedUnion),
        verify_root(&buf, &player_schema(), 0)
    );
}

#[test]
fn string_that_ends_one_byte_after_the_buffer_is_out_of_bounds() {
    let author = TableComponent::new(
        4,
        vec![reference_field(
            4,
            Component::String(StringComponent::new("hello")),
        )],
    );
    let mut buf = Builder::new(Component::Table(author)).build();
    assert_eq!(Ok(()), verify_root(&buf, &author_schema(), 0));
    buf.pop();
    assert_eq!(
        Err(Error::OutOfBounds),
        verify_root(&buf, &author_schema(), 0)
    );
}

#[test]
fn size_prefixed_buffers_are_checked_behind_the_size() {
    let author = TableComponent::new(
        4,
        vec![reference_field(
            4,
            Component::String(StringComponent::new("hello")),
        )],
    );
    let plain_buf = Builder::new(Component::Table(author)).build();
    let mut buf = (plain_buf.len() as u32).to_le_bytes().to_vec();
    buf.extend_from_slice(&plain_buf);
    assert_eq!(Ok(16), get_size_prefixed_root(&buf, &author_schema(), 0));
    assert_eq!(
        Ok(()),
        verify_size_prefixed_root(&buf, &author_schema(), 0)
    );
    assert_eq!(
        Err(Error::OutOfBounds),
        get_size_prefixed_root(&buf[..7], &author_schema(), 0)
    );
    assert_eq!(
        Err(Error::OutOfBounds),
        verify_size_prefixed_root(&[0, 0, 0, 0, 0xff, 0xff, 0xff, 0xff], &author_schema(), 0)
    );
}

#[test]
fn offsets_are_read_and_followed_with_care() {
    let buf = [1u8, 2, 3, 4, 5, 6, 7, 8];
    assert_eq!(Ok(0x0403_0201), try_read_uoffset(&buf, 0));
    assert_eq!(Ok(0x0807_0605), try_read_uoffset(&buf, 4));
    assert_eq!(Err(Error::OutOfBounds), try_read_uoffset(&buf, 5));
    assert_eq!(Err(Error::OutOfBounds), try_read_uoffset(&buf, usize::MAX));
    assert_eq!(Err(Error::OutOfBounds), try_read_uoffset(&buf, MAX_OFFSET_LOC));
    assert_eq!(usize::MAX - 4, MAX_OFFSET_LOC);
    assert_eq!(Ok(0x0403_0201), try_follow_uoffset(&buf, 0));
    assert_eq!(Ok(4 + 0x0807_0605), try_follow_uoffset(&buf, 4));
    assert_eq!(Err(Error::OutOfBounds), try_follow_uoffset(&buf, 6));
}

#[test]
fn each_kind_can_be_checked_by_itself() {
    let buf = cat(&[&2u32.to_le_bytes(), b"ab", &[0u8], &[7u8]]);
    assert_eq!(Ok(()), StringVerifier::follow(&buf, 0).verify());
    assert_eq!(
        Err(Error::NonNullTerminatedString),
        StringVerifier::follow(&cat(&[&3u32.to_le_bytes(), b"abcd"]), 0).verify()
    );
    assert_eq!(
        Err(Error::OutOfBounds),
        StringVerifier::follow(&buf, 6).verify()
    );
    let vector = cat(&[&2u32.to_le_bytes(), &[0u8; 8]]);
    let inline = VectorVerifier::follow(&vector, 0);
    assert_eq!(Ok(()), inline.verify_scalar_elements(4));
    assert_eq!(Ok(()), inline.verify_scalar_elements(0));
    assert_eq!(Err(Error::OutOfBounds), inline.verify_scalar_elements(5));
    assert_eq!(
        Err(Error::OutOfBounds),
        inline.verify_scalar_elements(usize::MAX)
    );
    let schema = text_schema();
    let strings = cat(&[
        &1u32.to_le_bytes(),
        &4u32.to_le_bytes(),
        &1u32.to_le_bytes(),
        b"a",
        &[0u8],
    ]);
    assert_eq!(
        Ok(()),
        VectorVerifier::follow(&strings, 0)
            .verify_reference_elements(&schema, &cfb::schema::Type::String)
    );
    let author = TableComponent::new(
        4,
        vec![reference_field(
            4,
            Component::String(StringComponent::new("hello")),
        )],
    );
    let built = Builder::new(Component::Table(author)).build();
    let author = author_schema();
    assert_eq!(Ok(()), TableVerifier::follow(&built, 12, &author, 0).verify());
    assert_eq!(
        Err(Error::OutOfBounds),
        TableVerifier::follow(&built, 13, &author, 0).verify()
    );
}

#[test]
fn any_bytes_are_either_passed_or_turned_down() {
    let schemas = [
        author_schema(),
        sensor_schema(),
        text_schema(),
        hero_with_stats_schema(),
        hero_with_stat_schema(),
        player_schema(),
    ];
    let mut state: u64 = 0x2545_f491_4f6c_dd1d;
    for round in 0..400usize {
        let len = 4 + (round * 37) % 200;
        let mut buf: Vec<u8> = Vec::with_capacity(len);
        for _ in 0..len {
            state ^= state << 13;
            state ^= state >> 7;
            state ^= state << 17;
            let byte = if round % 3 == 0 {
                (state % 16) as u8
            } else {
                (state >> 24) as u8
            };
            buf.push(byte);
        }
        for schema in schemas.iter() {
            let outcome = get_root(&buf, schema, 0);
            assert!(matches!(
                outcome,
                Ok(_)
                    | Err(Error::OutOfBounds)
                    | Err(Error::NonNullTerminatedString)
                    | Err(Error::UnmatchedUnion)
            ));
            let prefixed = verify_size_prefixed_root(&buf, schema, 0);
            assert!(prefixed.is_ok() || prefixed.is_err());
        }
    }
}
