use cfb::codegen::case::write_screaming_snake_case;
use cfb::codegen::context::SchemaContext;
use cfb::codegen::decimal::decimal;
use cfb::codegen::rust::{
    has_field_default, has_rust_type, lifetime_if, write_field_default, write_is_field_present,
    write_rust_type,
};
use cfb::codegen::templates::{contains, lang_directory, template_name, templates, Lang};
use cfb::exit_code::{build_output_file_name, exit_status, ExitCode, ExitCodeWithMessage};
use cfb::schema::{
    BaseType, RawEnum, RawEnumVal, RawField, RawObject, RawType, Schema, Type,
};

fn raw_type(base_type: BaseType, index: i32) -> RawType {
    RawType {
        base_type,
        element: BaseType::NoType,
        index,
    }
}

fn raw_field(name: &str, field_type: RawType, id: u16, default_integer: i64) -> RawField {
    RawField {
        name: name.to_owned(),
        field_type,
        id,
        offset: 4 + 2 * id,
        default_integer,
        default_real: "1.5".to_owned(),
        deprecated: false,
        required: false,
        key: false,
        attributes: Vec::new(),
    }
}

fn value(name: &str, value: i64) -> RawEnumVal {
    RawEnumVal {
        name: name.to_owned(),
        value,
        union_type: None,
    }
}

fn schema() -> Schema {
    let color = RawEnum {
        name: "example.Color".to_owned(),
        values: vec![value("Red", 1), value("Green", 2), value("Blue", 4)],
        is_union: false,
        underlying_type: raw_type(BaseType::Byte, -1),
        attributes: Vec::new(),
    };
    let fields = vec![
        raw_field("flag", raw_type(BaseType::Bool, -1), 0, 0),
        raw_field("set", raw_type(BaseType::Bool, -1), 1, 1),
        raw_field("count", raw_type(BaseType::Int, -1), 2, -42),
        raw_field("ratio", raw_type(BaseType::Double, -1), 3, 0),
        raw_field("color", raw_type(BaseType::Byte, 0), 4, 2),
        raw_field("shade", raw_type(BaseType::Byte, 0), 5, 3),
        raw_field("name", raw_type(BaseType::String, -1), 6, 0),
        raw_field("place", raw_type(BaseType::Obj, 1), 7, 0),
        raw_field("friend", raw_type(BaseType::Obj, 0), 8, 0),
        raw_field(
            "loot",
            RawType {
                base_type: BaseType::Vector,
                element: BaseType::UByte,
                index: -1,
            },
            9,
            0,
        ),
        raw_field("big", raw_type(BaseType::ULong, -1), 10, 7),
    ];
    let objects = vec![
        RawObject {
            name: "example.Thing".to_owned(),
            fields,
            is_struct: false,
            minalign: 1,
            bytesize: 0,
            attributes: Vec::new(),
        },
        RawObject {
            name: "example.Place".to_owned(),
            fields: Vec::new(),
            is_struct: true,
            minalign: 4,
            bytesize: 8,
            attributes: Vec::new(),
        },
    ];
    Schema::from_raw(&objects, &vec![color])
}

fn default_of(schema: &Schema, index: usize) -> String {
    let field = &schema.objects[0].fields[index];
    assert!(has_field_default(field, schema));
    let mut out = String::new();
    write_field_default(field, schema, &mut out);
    out
}

fn present(schema: &Schema, index: usize) -> String {
    let field = &schema.objects[0].fields[index];
    let mut out = String::from("if ");
    write_is_field_present(field, schema, &mut out);
    out
}

fn name_of_type(schema: &Schema, ty: Type) -> String {
    assert!(has_rust_type(&ty, schema));
    let mut out = String::new();
    write_rust_type(&ty, schema, &mut out);
    out
}

#[test]
fn defaults_are_written_for_every_kind_of_field() {
    let schema = schema();
    assert_eq!("false", default_of(&schema, 0));
    assert_eq!("true", default_of(&schema, 1));
    assert_eq!("-42", default_of(&schema, 2));
    assert_eq!("1.5", default_of(&schema, 3));
    assert_eq!("Color::Green", default_of(&schema, 4));
    assert_eq!("Color::Red", default_of(&schema, 5));
    assert_eq!("None", default_of(&schema, 6));
    assert_eq!("Default::default()", default_of(&schema, 7));
    assert_eq!("None", default_of(&schema, 8));
    assert_eq!("None", default_of(&schema, 9));
    assert_eq!("7", default_of(&schema, 10));
}

#[test]
fn presence_is_told_by_comparing_with_the_default() {
    let schema = schema();
    assert_eq!("if self.flag", present(&schema, 0));
    assert_eq!("if !self.set", present(&schema, 1));
    assert_eq!("if self.count != -42", present(&schema, 2));
    assert_eq!("if self.ratio != 1.5", present(&schema, 3));
    assert_eq!("if self.color != Color::Green", present(&schema, 4));
    assert_eq!(
        "if self.name.map(str::is_empty) == Some(false)",
        present(&schema, 6)
    );
    assert_eq!("if self.place.is_some()", present(&schema, 7));
    assert_eq!("if self.friend.is_some()", present(&schema, 8));
    assert_eq!("if self.loot.is_some()", present(&schema, 9));
}

#[test]
fn types_have_their_names_in_the_target_language() {
    let schema = schema();
    assert_eq!("bool", name_of_type(&schema, Type::Bool));
    assert_eq!("i8", name_of_type(&schema, Type::Byte));
    assert_eq!("u8", name_of_type(&schema, Type::UByte));
    assert_eq!("i16", name_of_type(&schema, Type::Short));
    assert_eq!("u16", name_of_type(&schema, Type::UShort));
    assert_eq!("i32", name_of_type(&schema, Type::Int));
    assert_eq!("u32", name_of_type(&schema, Type::UInt));
    assert_eq!("i64", name_of_type(&schema, Type::Long));
    assert_eq!("u64", name_of_type(&schema, Type::ULong));
    assert_eq!("f32", name_of_type(&schema, Type::Float));
    assert_eq!("f64", name_of_type(&schema, Type::Double));
    assert_eq!("Option<&'a str>", name_of_type(&schema, Type::String));
    assert_eq!("Color", name_of_type(&schema, Type::Enum(0)));
    assert!(!has_rust_type(&Type::Enum(1), &schema));
    assert!(!has_rust_type(&Type::Obj(0), &schema));
    assert!(!has_rust_type(&Type::Union(0), &schema));
    assert!(!has_rust_type(&Type::Vector(Box::new(Type::Int)), &schema));
    assert_eq!("<'a>", lifetime_if(true));
    assert_eq!("", lifetime_if(false));
}

#[test]
fn defaults_need_what_they_name() {
    let schema = schema();
    let mut field = cfb::schema::Field::from_raw(&raw_field(
        "f",
        raw_type(BaseType::Byte, 0),
        0,
        0,
    ));
    assert!(has_field_default(&field, &schema));
    field.field_type = Type::Enum(5);
    assert!(!has_field_default(&field, &schema));
    field.field_type = Type::Obj(2);
    assert!(!has_field_default(&field, &schema));
    field.field_type = Type::Obj(1);
    assert!(has_field_default(&field, &schema));
    let empty = Schema::from_raw(
        &Vec::new(),
        &vec![RawEnum {
            name: "E".to_owned(),
            values: Vec::new(),
            is_union: false,
            underlying_type: raw_type(BaseType::Byte, -1),
            attributes: Vec::new(),
        }],
    );
    field.field_type = Type::Enum(0);
    assert!(!has_field_default(&field, &empty));
}

#[test]
fn whole_numbers_are_written_in_decimal() {
    assert_eq!("0", decimal(0));
    assert_eq!("7", decimal(7));
    assert_eq!("-7", decimal(-7));
    assert_eq!("10", decimal(10));
    assert_eq!("1234567890", decimal(1234567890));
    assert_eq!("9223372036854775807", decimal(i64::MAX));
    assert_eq!("-9223372036854775808", decimal(i64::MIN));
    for v in [-1000i64, -99, -10, -1, 1, 9, 99, 100, 101, 65536] {
        assert_eq!(format!("{}", v), decimal(v));
    }
}

#[test]
fn constants_are_named_in_screaming_snake_case() {
    let mut out = String::from("const ");
    write_screaming_snake_case("fooBar", &mut out);
    assert_eq!("const FOO_BAR", out);
    let mut out = String::new();
    write_screaming_snake_case("HTTP Foo bar", &mut out);
    assert_eq!("HTTP_FOO_BAR", out);
    let mut out = String::new();
    write_screaming_snake_case("fooBar3", &mut out);
    assert_eq!("FOO_BAR_3", out);
    let mut out = String::new();
    write_screaming_snake_case("foo_bar", &mut out);
    assert_eq!("FOO_BAR", out);
}

#[test]
fn templates_are_picked_by_language_and_named_by_file() {
    assert_eq!("/rust/", lang_directory(Lang::Rust));
    assert_eq!("builder", template_name("templates/rust/builder.rs.hbs"));
    assert_eq!("builder", template_name("builder.hbs"));
    assert_eq!("builder", template_name("builder"));
    assert_eq!("", template_name("templates/rust/"));
    assert_eq!("", template_name("templates/rust/.keep"));
    assert!(contains("templates/rust/builder.hbs", "/rust/"));
    assert!(!contains("templates/rust", "/rust/"));
    assert!(!contains("rust/", "/rust/"));
    assert!(contains("/rust/", "/rust/"));
    assert!(contains("abc", ""));
    assert!(contains("", ""));
    assert!(!contains("", "a"));
    assert!(contains("aab", "ab"));
    let files = vec![
        "templates/rust/builder.rs.hbs".to_owned(),
        "templates/go/builder.go.hbs".to_owned(),
        "templates/rust/verifier.rs.hbs".to_owned(),
        "templates/rustic/x.hbs".to_owned(),
    ];
    let found = templates(Lang::Rust, &files);
    let names: Vec<(&str, &str)> = found
        .iter()
        .map(|t| (t.name.as_str(), t.file_name.as_str()))
        .collect();
    assert_eq!(
        vec![
            ("builder", "templates/rust/builder.rs.hbs"),
            ("verifier", "templates/rust/verifier.rs.hbs"),
        ],
        names
    );
    assert!(templates(Lang::Rust, &Vec::new()).is_empty());
}

#[test]
fn failures_have_their_exit_status() {
    assert_eq!(64, ExitCode::Cli.status());
    assert_eq!(65, ExitCode::Io.status());
    assert_eq!(66, ExitCode::Template.status());
    assert_eq!(0, exit_status(&Ok(())));
    assert_eq!(64, exit_status(&Err(ExitCode::Cli)));
    assert_eq!(65, exit_status(&Err(ExitCode::Io)));
    assert_eq!(66, exit_status(&Err(ExitCode::Template)));
    let failure = ExitCodeWithMessage::cli("<bfbs> is not a valid file name".to_string());
    assert_eq!("<bfbs> is not a valid file name", failure.message());
    assert_eq!(ExitCode::Cli, failure.code());
    let failure = ExitCodeWithMessage::new(ExitCode::Io, "gone".to_string());
    assert_eq!(ExitCode::Io, failure.code());
    assert_eq!("gone", failure.message());
    assert_eq!(
        "monster_builder.rs",
        build_output_file_name("monster", "_builder.rs")
    );
}

#[test]
fn context_finds_objects_and_enums_by_index() {
    let schema = schema();
    let context = SchemaContext::new(&schema);
    assert_eq!(context.object_name(0), "Thing");
    assert_eq!(context.object_name(1), "Place");
    assert_eq!(context.enum_name(0), "Color");
    let color = context.enum_at(0);
    assert_eq!(color.name, "Color");
    assert!(!color.is_union);
    let values: Vec<(String, i64)> = color
        .values
        .iter()
        .map(|v| (v.name.clone(), v.value))
        .collect();
    assert_eq!(
        values,
        vec![
            ("Red".to_owned(), 1),
            ("Green".to_owned(), 2),
            ("Blue".to_owned(), 4)
        ]
    );
}
