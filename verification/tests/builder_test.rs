use cfb::builder::{
    Builder, Component, DesignatedComponent, FieldValue, NestedBufferComponent,
    ReferencesVectorComponent, ScalarsVectorComponent, StringComponent, TableComponent, TableField,
};

#[test]
fn test_empty_component() {
    let builder = Builder::new(Component::Empty);
    let buf = builder.build();

    let expect = [
        // root uoffset
        4u32.to_le_bytes(),
    ]
    .concat();
    assert_eq!(expect, buf);
}

#[test]
fn test_owned_string_component() {
    let s = String::from("String");
    let builder = Builder::new(Component::String(StringComponent::new(&s.clone())));
    let buf = builder.build();

    let expect = [
        // root uoffset
        &4u32.to_le_bytes()[..],
        // len
        &((s.len() as u32).to_le_bytes()),
        // content
        s.as_bytes(),
        // null-terminated
        &[0u8],
    ]
    .concat();
    assert_eq!(expect, buf);
    assert_eq!(
        vec![0x04, 0, 0, 0, 0x06, 0, 0, 0, 0x53, 0x74, 0x72, 0x69, 0x6e, 0x67, 0],
        buf
    );
}

#[test]
fn test_borrowed_string_component() {
    let s = "str".to_string();
    let builder = Builder::new(Component::String(StringComponent::new(s.as_str())));
    let buf = builder.build();

    let expect = [
        // root uoffset
        &4u32.to_le_bytes()[..],
        // len
        &((s.len() as u32).to_le_bytes()),
        // content
        s.as_bytes(),
        // terminal null
        &[0u8],
    ]
    .concat();
    assert_eq!(expect, buf);
}

#[test]
fn test_string_component_alignment() {
    let s = String::from("s");
    let mut builder = Builder::new(Component::String(StringComponent::new(&s.clone())));
    builder.push_scalar(0i32);
    let buf = builder.build();

    let expect = [
        &8u32.to_le_bytes()[..],
        &[0u8, 0, 0, 0], // padding
        &((s.len() as u32).to_le_bytes()),
        s.as_bytes(),
        &[0u8],
    ]
    .concat();
    assert_eq!(expect, buf);
}

#[test]
fn test_scalars_vector_component() {
    let scalars: Vec<u8> = vec![1u32, 9]
        .into_iter()
        .map(|n| n.to_le_bytes().to_vec())
        .flatten()
        .collect();
    let builder = Builder::new(Component::ScalarsVector(ScalarsVectorComponent::new(
        scalars.clone(),
        2,
    )));
    let buf = builder.build();

    let expect = [
        // root uoffset
        &4u32.to_le_bytes()[..],
        // len
        &2u32.to_le_bytes(),
        // content
        &scalars[..],
    ]
    .concat();
    assert_eq!(expect, buf);
}

#[test]
fn test_references_vector_component() {
    let builder = Builder::new(Component::ReferencesVector(ReferencesVectorComponent::new(vec![
        Component::String(StringComponent::new(&String::from("s1"))),
        Component::String(StringComponent::new(&String::from("s2"))),
    ])));
    let buf = builder.build();

    let expect = [
        // root uoffset
        &4u32.to_le_bytes()[..],
        // len
        &2u32.to_le_bytes(),
        // offsets of s1
        &8u32.to_le_bytes(),
        // offsets of s2
        &12u32.to_le_bytes(),
        // s1.len
        &2u32.to_le_bytes(),
        b"s1",
        // padding
        &[0u8, 0],
        // s2.len
        &2u32.to_le_bytes(),
        b"s2",
        // padding
        &[0u8],
    ]
    .concat();
    assert_eq!(expect, buf);
}

#[test]
fn test_deduplicate_vtable() {
    let mut builder = Builder::new(Component::Empty);

    {
        let mut vt = builder.start_vtable();
        vt.add_field(4, 4, 1);
        assert_eq!(4, vt.finish());
        assert_eq!(10, builder.tell());
    }

    {
        let mut vt = builder.start_vtable();
        vt.add_field(4, 4, 1);
        assert_eq!(4, vt.finish());
        assert_eq!(10, builder.tell());
    }

    {
        let mut vt = builder.start_vtable();
        vt.add_field(4, 8, 1);
        assert_eq!(10, vt.finish());
        assert_eq!(16, builder.tell());
    }
}

#[test]
fn test_vtable_builder() {
    let mut builder = Builder::new(Component::Empty);

    {
        let mut vt = builder.start_vtable();
        vt.add_field(4, 4, 1);
        vt.finish();

        let expect = [
            &6u16.to_le_bytes()[..],
            &8u16.to_le_bytes(),
            &4u16.to_le_bytes(),
        ]
        .concat();
        assert_eq!(expect, &builder.as_bytes()[4..10]);
    }

    {
        let mut vt = builder.start_vtable();
        vt.add_field(8, 4, 1);
        vt.add_field(4, 2, 1);
        vt.finish();

        let expect = [
            &10u16.to_le_bytes()[..],
            &10u16.to_le_bytes(),
            &8u16.to_le_bytes(),
            &0u16.to_le_bytes(),
            &4u16.to_le_bytes(),
        ]
        .concat();
        assert_eq!(expect, &builder.as_bytes()[10..20]);
    }
}

#[test]
fn test_vtable_builder_alignment() {
    let mut builder = Builder::new(Component::Empty);

    {
        let mut vt = builder.start_vtable();
        vt.add_field(8, 6, 4);
        vt.add_field(4, 4, 4);
        vt.finish();

        let expect = [
            &10u16.to_le_bytes()[..],
            &16u16.to_le_bytes(),
            &12u16.to_le_bytes(),
            &0u16.to_le_bytes(),
            &4u16.to_le_bytes(),
        ]
        .concat();
        assert_eq!(expect, &builder.as_bytes()[4..14]);
    }
}

struct FooVTableBuilder<'a> {
    builder: &'a mut Builder,
}

impl<'a> FooVTableBuilder<'a> {
    fn hp(&mut self) -> &mut Self {
        self.builder.push_scalar(0u8);
        self
    }

    fn bar_a(&mut self) {
        self.builder.push_scalar(2u8);
    }

    fn bar_b(&mut self) {
        self.builder.push_scalar(3u8);
    }

    fn finish(&mut self) -> FooBuilder<'_> {
        self.builder.push_scalar(4u8);
        FooBuilder {
            builder: self.builder,
        }
    }
}

struct FooBuilder<'a> {
    builder: &'a mut Builder,
}

impl<'a> FooBuilder<'a> {
    fn begin_vtable(builder: &'a mut Builder) -> FooVTableBuilder<'a> {
        FooVTableBuilder { builder }
    }

    fn hp(&mut self, v: u32) {
        self.builder.push_scalar(v as u8);
    }

    fn bar_a(&mut self) -> BarVTableBuilder<'_> {
        BarVTableBuilder {
            builder: self.builder,
        }
    }

    fn bar_b(&mut self) -> BarVTableBuilder<'_> {
        BarVTableBuilder {
            builder: self.builder,
        }
    }
}

struct BarVTableBuilder<'a> {
    builder: &'a mut Builder,
}

impl<'a> BarVTableBuilder<'a> {
    fn hp(&mut self) {
        self.builder.push_scalar(0u8);
    }

    fn finish(&mut self) -> BarBuilder<'_> {
        self.builder.push_scalar(2u8);
        BarBuilder {
            builder: self.builder,
        }
    }
}

struct BarBuilder<'a> {
    builder: &'a mut Builder,
}

impl<'a> BarBuilder<'a> {
    fn hp(&mut self, v: u32) {
        self.builder.push_scalar(v as u8);
    }
}

#[test]
fn poc_test() {
    let mut b = Builder::new(Component::Empty);

    let mut foo_v = FooBuilder::begin_vtable(&mut b);
    foo_v.hp();
    foo_v.bar_a();
    foo_v.bar_b();
    let mut foo = foo_v.finish();
    foo.hp(10);

    let mut bar_a_v = foo.bar_a();
    bar_a_v.hp();
    let mut bar_a = bar_a_v.finish();
    bar_a.hp(20);

    let mut bar_b_v = foo.bar_b();
    bar_b_v.hp();
    let mut bar_b = bar_b_v.finish();
    bar_b.hp(30);

    assert_eq!(&[0u8, 2, 3, 4, 10, 0, 2, 20, 0, 2, 30][..], &b.as_bytes()[4..]);
}

fn u32_field(slot: usize, value: u32) -> TableField {
    TableField {
        slot,
        alignment: 4,
        value: FieldValue::Scalar(value.to_le_bytes().to_vec()),
    }
}

#[test]
fn table_with_one_field_has_the_expected_layout() {
    let table = TableComponent::new(4, vec![u32_field(4, 0x0102_0304)]);
    let buf = Builder::new(Component::Table(table)).build();
    let expect: Vec<u8> = vec![
        12, 0, 0, 0, // root offset
        6, 0, 8, 0, 4, 0, // vtable
        0, 0, // padding
        8, 0, 0, 0, // distance back to the vtable
        4, 3, 2, 1, // the field
    ];
    assert_eq!(expect, buf);
}

#[test]
fn vtable_has_the_expected_bytes_for_one_field_in_slot_four() {
    let mut builder = Builder::new(Component::Empty);
    let mut vt = builder.start_vtable();
    vt.add_field(4, 4, 4);
    let vtable_start = vt.finish();
    assert_eq!(&[6u8, 0, 8, 0, 4, 0][..], &builder.as_bytes()[vtable_start..]);
    builder.align_after(4, 4);
    let table_start = builder.tell();
    builder.push_scalar((table_start - vtable_start) as u32);
    assert_eq!(&[8u8, 0, 0, 0][..], &builder.as_bytes()[table_start..]);
}

#[test]
fn equal_vtables_are_stored_once() {
    let left = TableComponent::new(4, vec![u32_field(4, 1)]);
    let right = TableComponent::new(4, vec![u32_field(4, 2)]);
    let other = TableComponent::new(4, vec![u32_field(6, 3)]);
    let root = ReferencesVectorComponent::new(vec![
        Component::Table(left),
        Component::Table(right),
        Component::Table(other),
    ]);
    let buf = Builder::new(Component::ReferencesVector(root)).build();
    let expect: Vec<u8> = vec![
        4, 0, 0, 0, // root offset
        3, 0, 0, 0, // length
        20, 0, 0, 0, // to the first table
        24, 0, 0, 0, // to the second table
        36, 0, 0, 0, // to the third table
        6, 0, 8, 0, 4, 0, // the vtable of the first two
        0, 0, // padding
        8, 0, 0, 0, 1, 0, 0, 0, // first table
        16, 0, 0, 0, 2, 0, 0, 0, // second table
        8, 0, 8, 0, 0, 0, 4, 0, // the vtable of the third
        8, 0, 0, 0, 3, 0, 0, 0, // third table
    ];
    assert_eq!(expect, buf);
}

#[test]
fn tell_advances_by_one_table_between_two_equal_vtables() {
    let mut builder = Builder::new(Component::Empty);
    let first = Component::Table(TableComponent::new(4, vec![u32_field(4, 1)]));
    let second = Component::Table(TableComponent::new(4, vec![u32_field(4, 1)]));
    let start = first.build(&mut builder);
    let after_first = builder.tell();
    assert_eq!(12, start);
    assert_eq!(20, after_first);
    let start = second.build(&mut builder);
    assert_eq!(20, start);
    assert_eq!(after_first + 8, builder.tell());
}

#[test]
fn struct_is_emitted_packed_with_its_padding() {
    let mut position: Vec<u8> = Vec::new();
    position.extend_from_slice(&1u64.to_le_bytes());
    position.push(2);
    position.push(0);
    position.extend_from_slice(&0u16.to_le_bytes());
    position.extend_from_slice(&0u32.to_le_bytes());
    position.extend_from_slice(&3u64.to_le_bytes());
    assert_eq!(24, position.len());
    let table = TableComponent::new(
        8,
        vec![TableField {
            slot: 4,
            alignment: 8,
            value: FieldValue::Scalar(position),
        }],
    );
    let buf = Builder::new(Component::Table(table)).build();
    let expect: Vec<u8> = vec![
        12, 0, 0, 0, // root offset
        6, 0, 28, 0, 4, 0, // vtable
        0, 0, // padding
        8, 0, 0, 0, // distance back to the vtable
        1, 0, 0, 0, 0, 0, 0, 0, // x
        2, // y
        0, 0, 0, 0, 0, 0, 0, // padding members
        3, 0, 0, 0, 0, 0, 0, 0, // z
    ];
    assert_eq!(expect, buf);
}

#[test]
fn components_are_emitted_in_the_order_in_which_they_were_put() {
    let inner = ReferencesVectorComponent::new(vec![Component::String(StringComponent::new("c"))]);
    let root = ReferencesVectorComponent::new(vec![
        Component::ReferencesVector(inner),
        Component::String(StringComponent::new("b")),
    ]);
    let buf = Builder::new(Component::ReferencesVector(root)).build();
    let expect: Vec<u8> = vec![
        4, 0, 0, 0, // root offset
        2, 0, 0, 0, // length
        8, 0, 0, 0, // to the inner vector
        12, 0, 0, 0, // to "b"
        1, 0, 0, 0, // inner: length
        12, 0, 0, 0, // inner: to "c"
        1, 0, 0, 0, b'b', 0, // "b"
        0, 0, // padding
        1, 0, 0, 0, b'c', 0, // "c"
    ];
    assert_eq!(expect, buf);
}

#[test]
fn nested_buffer_is_a_vector_of_the_bytes_of_a_buffer() {
    let inner = Component::String(StringComponent::new("ab"));
    let buf = Builder::new(Component::NestedBuffer(NestedBufferComponent::new(inner))).build();
    let expect: Vec<u8> = vec![
        4, 0, 0, 0, // root offset
        11, 0, 0, 0, // length of the inner buffer
        4, 0, 0, 0, 2, 0, 0, 0, b'a', b'b', 0, // the inner buffer
    ];
    assert_eq!(expect, buf);
}

#[test]
fn reference_field_points_to_what_is_emitted_after_the_table() {
    let table = TableComponent::new(
        4,
        vec![TableField {
            slot: 4,
            alignment: 4,
            value: FieldValue::Reference(Component::String(StringComponent::new("hello"))),
        }],
    );
    let buf = Builder::new(Component::Table(table)).build();
    let expect: Vec<u8> = vec![
        12, 0, 0, 0, // root offset
        6, 0, 8, 0, 4, 0, // vtable
        0, 0, // padding
        8, 0, 0, 0, // distance back to the vtable
        4, 0, 0, 0, // to the string
        5, 0, 0, 0, b'h', b'e', b'l', b'l', b'o', 0,
    ];
    assert_eq!(expect, buf);
}

#[test]
fn bytes_can_be_set_padded_and_aligned() {
    let mut builder = Builder::with_capacity(64, Component::Empty);
    assert_eq!(4, builder.tell());
    builder.extend_from_slice(&[1, 2, 3]);
    builder.pad(2);
    assert_eq!(&[0u8, 0, 0, 0, 1, 2, 3, 0, 0][..], builder.as_bytes());
    builder.align(8);
    assert_eq!(16, builder.tell());
    builder.set_scalar(4, 0x0a0b_0c0du32);
    assert_eq!(&[0x0du8, 0x0c, 0x0b, 0x0a][..], &builder.as_bytes()[4..8]);
    builder.set_bytes(0, &[9, 9]);
    assert_eq!(&[9u8, 9, 0, 0][..], &builder.as_bytes()[..4]);
    builder.align_after(4, 8);
    assert_eq!(20, builder.tell());
    builder.push_component(DesignatedComponent::new(
        8,
        Component::String(StringComponent::new("x")),
    ));
    let buf = builder.build();
    assert_eq!(12, u32::from_le_bytes([buf[8], buf[9], buf[10], buf[11]]));
    assert_eq!(&[1u8, 0, 0, 0, b'x', 0][..], &buf[20..]);
    assert_eq!(&[20u8, 0, 0, 0][..], &buf[..4]);
}
