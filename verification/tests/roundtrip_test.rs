use cfb::builder::{
    Builder, Component, FieldValue, NestedBufferComponent, ReferencesVectorComponent,
    ScalarsVectorComponent, StringComponent, TableComponent, TableField,
};
use flatbuffers::{ForwardsUOffset, Table, Vector};

fn root_of(buf: &[u8]) -> Table<'_> {
    let loc = flatbuffers::read_scalar::<u32>(buf) as usize;
    Table::new(buf, loc)
}

fn scalar(slot: usize, alignment: usize, bytes: Vec<u8>) -> TableField {
    TableField {
        slot,
        alignment,
        value: FieldValue::Scalar(bytes),
    }
}

fn reference(slot: usize, component: Component) -> TableField {
    TableField {
        slot,
        alignment: 4,
        value: FieldValue::Reference(component),
    }
}

fn string(text: &str) -> Component {
    Component::String(StringComponent::new(text))
}

fn author(name: &str) -> Component {
    let mut fields = Vec::new();
    if !name.is_empty() {
        fields.push(reference(4, string(name)));
    }
    Component::Table(TableComponent::new(4, fields))
}

fn check_string_builder(name: String) {
    let buf = Builder::new(author(&name)).build();
    let root = root_of(&buf);
    let read = root.get::<ForwardsUOffset<&str>>(4, None);
    if name.is_empty() {
        assert!(read.is_none());
    } else {
        assert_eq!(name, read.unwrap());
    }
}

#[test]
fn string_test_test_empty_string_builder() {
    check_string_builder("".to_owned())
}

#[test]
fn string_test_test_string_builder() {
    check_string_builder("hello".to_owned())
}

fn bag(color: i8) -> Component {
    let mut fields = Vec::new();
    if color != 0 {
        fields.push(scalar(4, 1, vec![color as u8]));
    }
    Component::Table(TableComponent::new(1, fields))
}

fn check_enum_builder(color: i8) {
    let buf = Builder::new(bag(color)).build();
    let root = root_of(&buf);
    assert_eq!(color, root.get::<i8>(4, Some(0)).unwrap());
}

#[test]
fn enum_test_test_enum_builder() {
    check_enum_builder(0);
    check_enum_builder(1);
    check_enum_builder(2);
}

fn account(year: u32, balance: u64) -> Component {
    let mut fields = Vec::new();
    if balance != 0 {
        fields.push(scalar(6, 8, balance.to_le_bytes().to_vec()));
    }
    if year != 0 {
        fields.push(scalar(4, 4, year.to_le_bytes().to_vec()));
    }
    Component::Table(TableComponent::new(8, fields))
}

fn check_account(year: u32, balance: u64) {
    let buf = Builder::new(account(year, balance)).build();
    let root = root_of(&buf);
    assert_eq!(year, root.get::<u32>(4, Some(0)).unwrap());
    assert_eq!(balance, root.get::<u64>(6, Some(0)).unwrap());
}

#[test]
fn test_plain_table_builder() {
    check_account(1, 2)
}

#[test]
fn test_scalars_with_different_size_builder() {
    check_account(1, 2);
    check_account(0, 2);
    check_account(1, 0);
    check_account(u32::MAX, u64::MAX);
}

fn point(x: u64, y: u64) -> Component {
    let mut fields = Vec::new();
    if x != 0 {
        fields.push(scalar(4, 8, x.to_le_bytes().to_vec()));
    }
    if y != 0 {
        fields.push(scalar(6, 8, y.to_le_bytes().to_vec()));
    }
    Component::Table(TableComponent::new(8, fields))
}

#[test]
fn test_scalars_with_same_size_builder() {
    let buf = Builder::new(point(1, 2)).build();
    let root = root_of(&buf);
    assert_eq!(1, root.get::<u64>(4, Some(0)).unwrap());
    assert_eq!(2, root.get::<u64>(6, Some(0)).unwrap());
    let field = buf.len() - 16;
    assert_eq!(0, field % 8);
}

fn vec3(x: u64, y: u8, z: u64) -> Vec<u8> {
    let mut bytes = Vec::new();
    bytes.extend_from_slice(&x.to_le_bytes());
    bytes.push(y);
    bytes.push(0);
    bytes.extend_from_slice(&0u16.to_le_bytes());
    bytes.extend_from_slice(&0u32.to_le_bytes());
    bytes.extend_from_slice(&z.to_le_bytes());
    bytes
}

fn point_with_position(x: u64, y: u8, z: u64) -> Component {
    let mut fields = Vec::new();
    if x != 0 || y != 0 || z != 0 {
        fields.push(scalar(4, 8, vec3(x, y, z)));
    }
    Component::Table(TableComponent::new(8, fields))
}

fn field_location(root: &Table<'_>, slot: u16) -> Option<usize> {
    let voffset = root.vtable().get(slot) as usize;
    if voffset == 0 {
        None
    } else {
        Some(root.loc + voffset)
    }
}

fn check_struct_builder(x: u64, y: u8, z: u64) {
    let buf = Builder::new(point_with_position(x, y, z)).build();
    let root = root_of(&buf);
    let position = field_location(&root, 4);
    if x == 0 && y == 0 && z == 0 {
        assert!(position.is_none());
    } else {
        let at = position.unwrap();
        assert_eq!(0, at % 8);
        assert_eq!(x, flatbuffers::read_scalar_at::<u64>(&buf, at));
        assert_eq!(y, flatbuffers::read_scalar_at::<u8>(&buf, at + 8));
        assert_eq!(z, flatbuffers::read_scalar_at::<u64>(&buf, at + 16));
        assert_eq!(&[0u8; 7][..], &buf[at + 9..at + 16]);
    }
}

#[test]
fn struct_test_test_struct_default_builder() {
    check_struct_builder(0, 0, 0)
}

#[test]
fn struct_test_test_struct_builder() {
    check_struct_builder(1, 2, 3)
}

fn check_struct_nesting_builder(x: u64, y: i8, z: u64) {
    let buf = Builder::new(point_with_position(x, y as u8, z)).build();
    let root = root_of(&buf);
    let outter = field_location(&root, 4);
    if x == 0 && y == 0 && z == 0 {
        assert!(outter.is_none());
    } else {
        let at = outter.unwrap();
        assert_eq!(x, flatbuffers::read_scalar_at::<u64>(&buf, at));
        assert_eq!(y, flatbuffers::read_scalar_at::<i8>(&buf, at + 8));
        assert_eq!(z, flatbuffers::read_scalar_at::<u64>(&buf, at + 16));
    }
}

#[test]
fn test_struct_nesting_default_builder() {
    check_struct_nesting_builder(0, 0, 0)
}

#[test]
fn test_struct_nesting_builder() {
    check_struct_nesting_builder(1, 2, 3)
}

fn check_enum_vector_builder(colors: Vec<i8>) {
    let mut fields = Vec::new();
    if !colors.is_empty() {
        let bytes: Vec<u8> = colors.iter().map(|c| *c as u8).collect();
        fields.push(reference(
            4,
            Component::ScalarsVector(ScalarsVectorComponent::new(bytes, colors.len())),
        ));
    }
    let buf = Builder::new(Component::Table(TableComponent::new(4, fields))).build();
    let root = root_of(&buf);
    let read: Vec<i8> = root
        .get::<ForwardsUOffset<Vector<'_, i8>>>(4, None)
        .map(|v| v.iter().collect())
        .unwrap_or_default();
    assert_eq!(colors, read);
}

#[test]
fn test_enum_vector_builder() {
    check_enum_vector_builder(vec![0]);
    check_enum_vector_builder(vec![]);
    check_enum_vector_builder(vec![2, 1, 0, 2]);
}

fn header(number: u64) -> Component {
    let mut fields = Vec::new();
    if number != 0 {
        fields.push(scalar(4, 8, number.to_le_bytes().to_vec()));
    }
    Component::Table(TableComponent::new(8, fields))
}

fn check_nested_buffer_builder(number: Option<u64>) {
    let mut fields = Vec::new();
    if let Some(number) = number {
        fields.push(reference(
            4,
            Component::NestedBuffer(NestedBufferComponent::new(header(number))),
        ));
    }
    let buf = Builder::new(Component::Table(TableComponent::new(4, fields))).build();
    let root = root_of(&buf);
    let nested = root.get::<ForwardsUOffset<Vector<'_, u8>>>(4, None);
    if number.is_some() {
        let inner = nested.unwrap().safe_slice();
        let start = inner.as_ptr() as usize - buf.as_ptr() as usize;
        assert_eq!(0, start % 8);
        let header = root_of(inner);
        assert_eq!(number.unwrap(), header.get::<u64>(4, Some(0)).unwrap());
    } else {
        assert!(nested.is_none());
    }
}

#[test]
fn test_nested_buffer_builder() {
    check_nested_buffer_builder(None);
    check_nested_buffer_builder(Some(1));
}

fn check_scalar_vector_builder(readings: Vec<u32>) {
    let mut fields = Vec::new();
    if !readings.is_empty() {
        let bytes: Vec<u8> = readings.iter().flat_map(|r| r.to_le_bytes()).collect();
        fields.push(reference(
            4,
            Component::ScalarsVector(ScalarsVectorComponent::new(bytes, readings.len())),
        ));
    }
    let buf = Builder::new(Component::Table(TableComponent::new(4, fields))).build();
    let root = root_of(&buf);
    let read = root.get::<ForwardsUOffset<Vector<'_, u32>>>(4, None);
    if readings.is_empty() {
        assert!(read.is_none());
    } else {
        assert_eq!(readings, read.unwrap().iter().collect::<Vec<u32>>());
    }
}

#[test]
fn test_empty_scalar_vector_builder() {
    check_scalar_vector_builder(vec![])
}

#[test]
fn test_scalar_vector_builder() {
    check_scalar_vector_builder(vec![1u32])
}

fn check_string_vector_builder(lines: Vec<String>) {
    let mut fields = Vec::new();
    if !lines.is_empty() {
        let strings: Vec<Component> = lines.iter().map(|l| string(l)).collect();
        fields.push(reference(
            4,
            Component::ReferencesVector(ReferencesVectorComponent::new(strings)),
        ));
    }
    let buf = Builder::new(Component::Table(TableComponent::new(4, fields))).build();
    let root = root_of(&buf);
    let read = root.get::<ForwardsUOffset<Vector<'_, ForwardsUOffset<&str>>>>(4, None);
    if lines.is_empty() {
        assert!(read.is_none());
    } else {
        let read: Vec<String> = read.unwrap().iter().map(|s| s.to_owned()).collect();
        assert_eq!(lines, read);
    }
}

#[test]
fn test_empty_string_vector_builder() {
    check_string_vector_builder(vec![]);
    check_string_vector_builder(vec!["".to_owned()]);
}

#[test]
fn test_string_vector_builder() {
    check_string_vector_builder(vec!["hello".to_owned()]);
}

fn check_struct_vector_builder(stats: Vec<(u32, u8)>) {
    let mut fields = Vec::new();
    if !stats.is_empty() {
        let mut bytes = Vec::new();
        for (hp, mp) in stats.iter() {
            bytes.extend_from_slice(&hp.to_le_bytes());
            bytes.push(*mp);
            bytes.push(0);
            bytes.extend_from_slice(&0u16.to_le_bytes());
        }
        fields.push(reference(
            4,
            Component::ScalarsVector(ScalarsVectorComponent::new(bytes, stats.len())),
        ));
    }
    let buf = Builder::new(Component::Table(TableComponent::new(4, fields))).build();
    let root = root_of(&buf);
    let read: Vec<(u32, u8)> = root
        .get::<ForwardsUOffset<Vector<'_, u64>>>(4, None)
        .map(|v| {
            v.iter()
                .map(|s| ((s & 0xffff_ffff) as u32, ((s >> 32) & 0xff) as u8))
                .collect()
        })
        .unwrap_or_default();
    assert_eq!(stats, read);
}

#[test]
fn test_struct_vector_builder() {
    check_struct_vector_builder(vec![]);
    check_struct_vector_builder(vec![(1, 2)]);
}

fn stat(hp: u32) -> Component {
    let mut fields = Vec::new();
    if hp != 0 {
        fields.push(scalar(4, 4, hp.to_le_bytes().to_vec()));
    }
    Component::Table(TableComponent::new(4, fields))
}

fn check_table_field_builder(hp: Option<u32>) {
    let mut fields = Vec::new();
    if let Some(hp) = hp {
        fields.push(reference(4, stat(hp)));
    }
    let buf = Builder::new(Component::Table(TableComponent::new(4, fields))).build();
    let root = root_of(&buf);
    let read = root
        .get::<ForwardsUOffset<Table<'_>>>(4, None)
        .map(|s| s.get::<u32>(4, Some(0)).unwrap());
    assert_eq!(hp, read);
}

#[test]
fn test_table_field_builder() {
    check_table_field_builder(None);
    check_table_field_builder(Some(1));
    check_table_field_builder(Some(0));
}

fn check_table_vector_builder(hps: Vec<u32>) {
    let mut fields = Vec::new();
    if !hps.is_empty() {
        let stats: Vec<Component> = hps.iter().map(|hp| stat(*hp)).collect();
        fields.push(reference(
            4,
            Component::ReferencesVector(ReferencesVectorComponent::new(stats)),
        ));
    }
    let buf = Builder::new(Component::Table(TableComponent::new(4, fields))).build();
    let root = root_of(&buf);
    let read: Vec<u32> = root
        .get::<ForwardsUOffset<Vector<'_, ForwardsUOffset<Table<'_>>>>>(4, None)
        .map(|v| v.iter().map(|s| s.get::<u32>(4, Some(0)).unwrap()).collect())
        .unwrap_or_default();
    assert_eq!(hps, read);
}

#[test]
fn test_table_vector_builder() {
    check_table_vector_builder(vec![]);
    check_table_vector_builder(vec![1]);
    check_table_vector_builder(vec![1, 0, 1, 7, 7]);
}

fn check_union_builder(role: Option<(u8, u32)>) {
    let mut fields = Vec::new();
    if let Some((_, hp)) = role {
        fields.push(reference(6, stat(hp)));
    }
    if let Some((tag, _)) = role {
        fields.push(scalar(4, 1, vec![tag]));
    }
    let buf = Builder::new(Component::Table(TableComponent::new(4, fields))).build();
    let root = root_of(&buf);
    assert_eq!(
        role.map(|r| r.0).unwrap_or_default(),
        root.get::<u8>(4, Some(0)).unwrap()
    );
    let value = root.get::<ForwardsUOffset<Table<'_>>>(6, None);
    match role {
        Some((_, hp)) => {
            assert!(value.is_some());
            assert_eq!(hp, value.unwrap().get::<u32>(4, Some(0)).unwrap());
        }
        None => assert!(value.is_none()),
    }
}

#[test]
fn test_union_builder() {
    check_union_builder(None);
    check_union_builder(Some((1, 10)));
    check_union_builder(Some((2, 20)));
}

#[test]
fn absent_fields_read_as_their_default() {
    let buf = Builder::new(account(0, 0)).build();
    let root = root_of(&buf);
    assert_eq!(7, root.get::<u32>(4, Some(7)).unwrap());
    assert_eq!(9, root.get::<u64>(6, Some(9)).unwrap());
    assert_eq!(vec![12u8, 0, 0, 0, 4, 0, 4, 0, 0, 0, 0, 0, 8, 0, 0, 0], buf);
}
