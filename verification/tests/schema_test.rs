use cfb::schema::load::value_key;
use cfb::schema::names::{first_piece, last_piece, namespaces_of, split};
use cfb::schema::sort::{key_lt, stable_sort_by_key};
use cfb::schema::{
    base_name, from_base_type, raw_valid, try_into_enum, Attribute, BaseType, Enum, EnumVal,
    Field, Object, RawEnum, RawEnumVal, RawField, RawObject, RawType, Schema, Type,
};

fn plain(base_type: BaseType) -> RawType {
    RawType {
        base_type,
        element: BaseType::NoType,
        index: -1,
    }
}

fn raw_field(name: &str, field_type: RawType, offset: u16) -> RawField {
    RawField {
        name: name.to_owned(),
        field_type,
        id: 0,
        offset,
        default_integer: 0,
        default_real: "0.0".to_owned(),
        deprecated: false,
        required: false,
        key: false,
        attributes: Vec::new(),
    }
}

fn raw_object(name: &str, fields: Vec<RawField>) -> RawObject {
    RawObject {
        name: name.to_owned(),
        fields,
        is_struct: false,
        minalign: 0,
        bytesize: 0,
        attributes: Vec::new(),
    }
}

fn raw_struct(name: &str, fields: Vec<RawField>, minalign: i32, bytesize: i32) -> RawObject {
    RawObject {
        name: name.to_owned(),
        fields,
        is_struct: true,
        minalign,
        bytesize,
        attributes: Vec::new(),
    }
}

fn raw_enum(name: &str, values: Vec<RawEnumVal>) -> RawEnum {
    RawEnum {
        name: name.to_owned(),
        values,
        is_union: false,
        underlying_type: plain(BaseType::UByte),
        attributes: Vec::new(),
    }
}

fn raw_value(name: &str, value: i64) -> RawEnumVal {
    RawEnumVal {
        name: name.to_owned(),
        value,
        union_type: None,
    }
}

#[test]
fn test_empty_schema_namespaces() {
    let schema = Schema::from_raw(&Vec::new(), &Vec::new());
    assert!(schema.namespaces.is_empty());
}

#[test]
fn test_schema_namespaces_from_object() {
    let schema = Schema::from_raw(&vec![raw_object("foo.bar", Vec::new())], &Vec::new());
    assert_eq!(vec!["foo"], schema.namespaces);
}

#[test]
fn test_schema_namespaces_from_enum() {
    let schema = Schema::from_raw(&Vec::new(), &vec![raw_enum("foo.bar.z", Vec::new())]);
    assert_eq!(vec!["foo", "bar"], schema.namespaces);
}

#[test]
fn test_empty_schema_namespaces_from_object() {
    let schema = Schema::from_raw(&vec![raw_object("foo", Vec::new())], &Vec::new());
    assert!(schema.namespaces.is_empty());
}

#[test]
fn test_convert_object() {
    let o = Object::from_raw(&raw_object(
        "foo",
        vec![raw_field("field", plain(BaseType::UByte), 0)],
    ));
    assert_eq!("foo", o.name);
    assert_eq!(1, o.fields.len());
    assert_eq!("field", o.fields[0].name);
    assert_eq!(Type::UByte, o.fields[0].field_type);
}

#[test]
fn test_convert_enum() {
    let e = Enum::from_raw(&raw_enum("foo", vec![raw_value("ev1", 1)]));
    assert_eq!("foo", e.name);
    assert_eq!(1, e.values.len());
    assert_eq!("ev1", e.values[0].name);
    assert_eq!(1, e.values[0].value);
}

#[test]
fn test_object_name() {
    let o = Object::from_raw(&raw_object("foo.bar", Vec::new()));
    assert_eq!("bar", o.name);
}

#[test]
fn test_enum_name() {
    let e = Enum::from_raw(&raw_enum("foo.bar", Vec::new()));
    assert_eq!("bar", e.name);
}

#[test]
fn test_fields_sorted() {
    let o = Object::from_raw(&raw_object(
        "foo.bar",
        vec![
            raw_field("field1", plain(BaseType::UByte), 6),
            raw_field("field1", plain(BaseType::UByte), 4),
        ],
    ));
    assert!(o.fields[0].offset < o.fields[1].offset);
}

#[test]
fn test_enum_vals_sorted() {
    let e = Enum::from_raw(&raw_enum(
        "foo.bar",
        vec![raw_value("field", 6), raw_value("field", 4)],
    ));
    assert!(e.values[0].value < e.values[1].value);
}

#[test]
fn names_are_split_at_their_dots() {
    assert_eq!("bar", base_name("foo.bar"));
    assert_eq!("foo", base_name("foo"));
    assert_eq!("", base_name("foo."));
    assert_eq!("", base_name(""));
    assert_eq!("é", base_name("a.b.é"));
    assert_eq!(vec!["a", "", "b"], split("a..b", '.'));
    assert_eq!(vec![""], split("", '.'));
    assert_eq!(vec!["", ""], split(".", '.'));
    assert_eq!(vec!["x"], split("x", '.'));
    assert_eq!(vec!["a", "b"], namespaces_of("a.b.c"));
    assert!(namespaces_of("c").is_empty());
    assert!(namespaces_of("").is_empty());
    assert_eq!(vec![""], namespaces_of(".c"));
    assert_eq!("builder", first_piece("builder.rs.hbs", '.'));
    assert_eq!("builder", first_piece("builder", '.'));
    assert_eq!("", first_piece(".hidden", '.'));
    assert_eq!("c", last_piece("a/b/c", '/'));
}

#[test]
fn sort_orders_by_key_and_keeps_ties_in_order() {
    let items = vec!["d", "a", "c", "b", "e"];
    let keys = vec![(2u64, 0u64), (1, 5), (2, 0), (1, 2), (0, 9)];
    assert_eq!(vec!["e", "b", "a", "d", "c"], stable_sort_by_key(items, &keys));
    let none: Vec<u8> = Vec::new();
    assert!(stable_sort_by_key(none, &Vec::new()).is_empty());
    assert_eq!(vec![7], stable_sort_by_key(vec![7], &vec![(3, 3)]));
    assert!(key_lt((1, 9), (2, 0)));
    assert!(key_lt((1, 1), (1, 2)));
    assert!(!key_lt((1, 1), (1, 1)));
    assert!(!key_lt((2, 0), (1, 9)));
    assert!(value_key(-1).0 < value_key(0).0);
    assert!(value_key(i64::MIN).0 < value_key(-1).0);
    assert!(value_key(0).0 < value_key(i64::MAX).0);
    assert_eq!((0, 0), value_key(i64::MIN));
    assert_eq!((u64::MAX, 0), value_key(i64::MAX));
}

#[test]
fn types_are_read_from_what_a_schema_file_holds() {
    assert_eq!(Type::Bool, from_base_type(BaseType::Bool));
    assert_eq!(Type::Double, from_base_type(BaseType::Double));
    assert_eq!(Type::String, from_base_type(BaseType::String));
    assert_eq!(Type::ULong, from_base_type(BaseType::ULong));
    assert_eq!(Type::Enum(3), try_into_enum(Type::Byte, 3));
    assert_eq!(Type::Enum(0), try_into_enum(Type::ULong, 0));
    assert_eq!(Type::Byte, try_into_enum(Type::Byte, -1));
    assert_eq!(Type::Bool, try_into_enum(Type::Bool, 3));
    assert_eq!(Type::String, try_into_enum(Type::String, 3));
    assert_eq!(Type::Obj(2), try_into_enum(Type::Obj(2), 2));
    assert_eq!(
        Type::Vector(Box::new(Type::Obj(2))),
        Type::from_raw(&RawType {
            base_type: BaseType::Vector,
            element: BaseType::Obj,
            index: 2
        })
    );
    assert_eq!(
        Type::Vector(Box::new(Type::UShort)),
        Type::from_raw(&RawType {
            base_type: BaseType::Vector,
            element: BaseType::UShort,
            index: -1
        })
    );
    assert_eq!(
        Type::Union(1),
        Type::from_raw(&RawType {
            base_type: BaseType::Union,
            element: BaseType::NoType,
            index: 1
        })
    );
    assert_eq!(
        Type::UType(1),
        Type::from_raw(&RawType {
            base_type: BaseType::UType,
            element: BaseType::NoType,
            index: 1
        })
    );
    assert_eq!(Type::Float, Type::from_raw(&plain(BaseType::Float)));
    assert!(Type::Enum(0).is_enum());
    assert!(!Type::Int.is_enum());
    assert!(plain(BaseType::Int).convertible());
    assert!(!plain(BaseType::NoType).convertible());
    assert!(!RawType {
        base_type: BaseType::Vector,
        element: BaseType::Vector,
        index: -1
    }
    .convertible());
    assert_eq!(Type::Vector(Box::new(Type::Int)), Type::Vector(Box::new(Type::Int)).clone());
}

fn monster_schema() -> Schema {
    let color = RawEnum {
        name: "game.Color".to_owned(),
        values: vec![raw_value("Blue", 2), raw_value("Red", 0), raw_value("Green", 1)],
        is_union: false,
        underlying_type: plain(BaseType::Short),
        attributes: vec![Attribute {
            key: "bit_flags".to_owned(),
            value: "".to_owned(),
        }],
    };
    let vec3 = raw_struct(
        "game.Vec3",
        vec![
            raw_field("x", plain(BaseType::ULong), 0),
            raw_field("y", plain(BaseType::UByte), 8),
            raw_field("z", plain(BaseType::ULong), 16),
        ],
        8,
        24,
    );
    let monster = raw_object(
        "game.Monster",
        vec![
            raw_field("name", plain(BaseType::String), 6),
            raw_field("hp", plain(BaseType::Short), 4),
            raw_field(
                "position",
                RawType {
                    base_type: BaseType::Obj,
                    element: BaseType::NoType,
                    index: 1,
                },
                8,
            ),
            raw_field(
                "color",
                RawType {
                    base_type: BaseType::Short,
                    element: BaseType::NoType,
                    index: 0,
                },
                10,
            ),
            raw_field("mana", plain(BaseType::Double), 12),
            raw_field(
                "friend",
                RawType {
                    base_type: BaseType::Obj,
                    element: BaseType::NoType,
                    index: 0,
                },
                14,
            ),
            raw_field("alive", plain(BaseType::Bool), 16),
            raw_field("gold", plain(BaseType::Long), 18),
        ],
    );
    let objects = vec![monster, vec3, raw_object("game.Nothing", Vec::new())];
    let enums = vec![color];
    assert!(raw_valid(&objects, &enums));
    Schema::from_raw(&objects, &enums)
}

#[test]
fn schema_gives_every_field_its_layout() {
    let schema = monster_schema();
    assert_eq!(vec!["game"], schema.namespaces);
    assert_eq!(3, schema.objects.len());
    let monster = &schema.objects[0];
    assert_eq!("Monster", monster.name);
    let names: Vec<&str> = monster.fields.iter().map(|f| f.name.as_str()).collect();
    assert_eq!(
        vec!["hp", "name", "position", "color", "mana", "friend", "alive", "gold"],
        names
    );
    let layout: Vec<(usize, usize, bool)> = monster
        .fields
        .iter()
        .map(|f| (f.size, f.alignment, f.is_reference))
        .collect();
    assert_eq!(
        vec![
            (2, 2, false),
            (4, 4, true),
            (24, 8, false),
            (2, 2, false),
            (8, 8, false),
            (4, 4, true),
            (1, 1, false),
            (8, 8, false),
        ],
        layout
    );
    assert_eq!(Type::Enum(0), monster.fields[3].field_type);
    assert_eq!(Type::Obj(1), monster.fields[2].field_type);
    let by_alignment: Vec<&str> = monster
        .fields_by_alignment
        .iter()
        .map(|f| f.name.as_str())
        .collect();
    assert_eq!(
        vec!["position", "mana", "gold", "name", "friend", "hp", "color", "alive"],
        by_alignment
    );
    assert_eq!(8, monster.alignment);
    assert!(monster.has_reference);
    let vec3 = &schema.objects[1];
    assert!(vec3.is_struct);
    assert_eq!(8, vec3.alignment);
    assert!(!vec3.has_reference);
    assert_eq!(24, vec3.bytesize);
    let nothing = &schema.objects[2];
    assert_eq!(4, nothing.alignment);
    assert!(!nothing.has_reference);
    assert!(nothing.fields_by_alignment.is_empty());
    let color = &schema.enums[0];
    assert_eq!("Color", color.name);
    assert_eq!(Type::Short, color.underlying_type);
    let values: Vec<(&str, i64)> = color
        .values
        .iter()
        .map(|v| (v.name.as_str(), v.value))
        .collect();
    assert_eq!(vec![("Red", 0), ("Green", 1), ("Blue", 2)], values);
    assert_eq!("bit_flags", color.attributes[0].key);
}

#[test]
fn schema_tells_the_size_and_alignment_of_types() {
    let schema = monster_schema();
    assert_eq!(1, schema.type_size(&Type::UType(9)));
    assert_eq!(1, schema.type_size(&Type::Bool));
    assert_eq!(1, schema.type_size(&Type::Byte));
    assert_eq!(1, schema.type_size(&Type::UByte));
    assert_eq!(2, schema.type_size(&Type::Short));
    assert_eq!(2, schema.type_size(&Type::UShort));
    assert_eq!(4, schema.type_size(&Type::Int));
    assert_eq!(4, schema.type_size(&Type::UInt));
    assert_eq!(4, schema.type_size(&Type::Float));
    assert_eq!(8, schema.type_size(&Type::Long));
    assert_eq!(8, schema.type_size(&Type::ULong));
    assert_eq!(8, schema.type_size(&Type::Double));
    assert_eq!(2, schema.type_size(&Type::Enum(0)));
    assert_eq!(4, schema.type_size(&Type::String));
    assert_eq!(4, schema.type_size(&Type::Vector(Box::new(Type::Long))));
    assert_eq!(4, schema.type_size(&Type::Union(0)));
    assert_eq!(4, schema.type_size(&Type::Obj(0)));
    assert_eq!(24, schema.type_size(&Type::Obj(1)));
    assert_eq!(8, schema.type_alignment(&Type::Obj(1)));
    assert_eq!(4, schema.type_alignment(&Type::Obj(0)));
    assert_eq!(2, schema.type_alignment(&Type::Enum(0)));
    assert_eq!(8, schema.type_alignment(&Type::Double));
    assert!(schema.type_is_reference(&Type::String));
    assert!(schema.type_is_reference(&Type::Vector(Box::new(Type::Bool))));
    assert!(schema.type_is_reference(&Type::Union(0)));
    assert!(schema.type_is_reference(&Type::Obj(0)));
    assert!(!schema.type_is_reference(&Type::Obj(1)));
    assert!(!schema.type_is_reference(&Type::Enum(0)));
    assert!(!schema.type_is_reference(&Type::UType(0)));
}

#[test]
fn raw_schemas_that_cannot_be_read_are_told() {
    let unreadable = vec![raw_object(
        "a.B",
        vec![raw_field("f", plain(BaseType::NoType), 4)],
    )];
    assert!(!raw_valid(&unreadable, &Vec::new()));
    let dangling = vec![raw_object(
        "a.B",
        vec![raw_field(
            "f",
            RawType {
                base_type: BaseType::Obj,
                element: BaseType::NoType,
                index: 1,
            },
            4,
        )],
    )];
    assert!(!raw_valid(&dangling, &Vec::new()));
    let no_enum = vec![raw_object(
        "a.B",
        vec![raw_field(
            "f",
            RawType {
                base_type: BaseType::Int,
                element: BaseType::NoType,
                index: 0,
            },
            4,
        )],
    )];
    assert!(!raw_valid(&no_enum, &Vec::new()));
    assert!(raw_valid(&no_enum, &vec![raw_enum("a.E", Vec::new())]));
    let bad_enum = RawEnum {
        name: "a.E".to_owned(),
        values: Vec::new(),
        is_union: false,
        underlying_type: plain(BaseType::Vector),
        attributes: Vec::new(),
    };
    assert!(!raw_valid(&Vec::new(), &vec![bad_enum]));
    assert!(raw_valid(&Vec::new(), &Vec::new()));
}

#[test]
fn values_of_a_union_keep_the_table_they_stand_for() {
    let value = EnumVal::from_raw(&RawEnumVal {
        name: "Hero".to_owned(),
        value: 1,
        union_type: Some(RawType {
            base_type: BaseType::Obj,
            element: BaseType::NoType,
            index: 3,
        }),
    });
    assert_eq!(Some(3), value.union_type);
    let none = EnumVal::from_raw(&raw_value("NONE", 0));
    assert_eq!(None, none.union_type);
    let field = Field::from_raw(&raw_field("f", plain(BaseType::Float), 4));
    assert_eq!(Type::Float, field.field_type);
    assert_eq!("0.0", field.default_real);
    assert_eq!(0, field.size);
}
