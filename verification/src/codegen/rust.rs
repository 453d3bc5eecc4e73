use crate::codegen::decimal::{decimal, spec_decimal};
use crate::schema::model::{Enum, EnumValView, EnumView, Field, FieldView, Schema, SchemaView, Type};
use vstd::prelude::*;

verus! {

/// The target language has a name for the type: it is a number, `Bool`, `String`, or an
/// enum that the schema holds.
pub open spec fn spec_has_rust_type(schema: SchemaView, ty: Type) -> bool {
    match ty {
        Type::Bool
        | Type::Byte
        | Type::UByte
        | Type::Short
        | Type::UShort
        | Type::Int
        | Type::UInt
        | Type::Long
        | Type::ULong
        | Type::Float
        | Type::Double
        | Type::String => true,
        Type::Enum(index) => index < schema.enums.len(),
        _ => false,
    }
}

/// The name of the type in the target language.
pub open spec fn spec_rust_type(schema: SchemaView, ty: Type) -> Seq<char>
    recommends
        spec_has_rust_type(schema, ty),
{
    match ty {
        Type::Bool => "bool"@,
        Type::Byte => "i8"@,
        Type::UByte => "u8"@,
        Type::Short => "i16"@,
        Type::UShort => "u16"@,
        Type::Int => "i32"@,
        Type::UInt => "u32"@,
        Type::Long => "i64"@,
        Type::ULong => "u64"@,
        Type::Float => "f32"@,
        Type::Double => "f64"@,
        Type::String => "Option<&'a str>"@,
        Type::Enum(index) => schema.enums[index as int].name,
        _ => Seq::empty(),
    }
}

/// The place of the first value with the given number, or the number of values where none
/// has it.
pub open spec fn spec_index_of_value(values: Seq<EnumValView>, number: i64) -> int
    decreases values.len(),
{
    if values.len() == 0 || values[0].value == number {
        0
    } else {
        1 + spec_index_of_value(values.drop_first(), number)
    }
}

/// The value that an enum field defaults to: the first with the default's number, else the
/// first of all.
pub open spec fn spec_default_value(e: EnumView, default_integer: i64) -> EnumValView
    recommends
        e.values.len() > 0,
{
    let i = spec_index_of_value(e.values, default_integer);
    if i < e.values.len() {
        e.values[i]
    } else {
        e.values[0]
    }
}

/// A default can be written for the field: where its type is an enum, the schema holds the
/// enum and the enum has a value; where it is a table or struct, the schema holds it.
pub open spec fn spec_has_field_default(schema: SchemaView, field: FieldView) -> bool {
    match field.field_type {
        Type::Enum(index) => index < schema.enums.len() && schema.enums[index as int].values.len()
            > 0,
        Type::Obj(index) => index < schema.objects.len(),
        _ => true,
    }
}

/// The expression for the default of a field in the target language.
pub open spec fn spec_field_default(schema: SchemaView, field: FieldView) -> Seq<char>
    recommends
        spec_has_field_default(schema, field),
{
    match field.field_type {
        Type::Bool => if field.default_integer == 0 {
            "false"@
        } else {
            "true"@
        },
        Type::Byte
        | Type::UByte
        | Type::Short
        | Type::UShort
        | Type::Int
        | Type::UInt
        | Type::Long
        | Type::ULong => spec_decimal(field.default_integer as int),
        Type::Float | Type::Double => field.default_real,
        Type::Enum(index) => schema.enums[index as int].name + "::"@ + spec_default_value(
            schema.enums[index as int],
            field.default_integer,
        ).name,
        Type::Obj(index) => if schema.objects[index as int].is_struct {
            "Default::default()"@
        } else {
            "None"@
        },
        _ => "None"@,
    }
}

/// The expression that tells whether a field of a value is present: a `Bool` is compared
/// with its default by itself, any other inline value by `!=`; a string has to be there and
/// not empty; any other reference has to be there.
pub open spec fn spec_is_field_present(schema: SchemaView, field: FieldView) -> Seq<char>
    recommends
        spec_has_field_default(schema, field),
{
    match field.field_type {
        Type::Bool => (if field.default_integer != 0 {
            "!"@
        } else {
            Seq::empty()
        }) + "self."@ + field.name,
        Type::Byte
        | Type::UByte
        | Type::Short
        | Type::UShort
        | Type::Int
        | Type::UInt
        | Type::Long
        | Type::ULong
        | Type::Float
        | Type::Double
        | Type::Enum(_) => "self."@ + field.name + " != "@ + spec_field_default(schema, field),
        Type::String => "self."@ + field.name + ".map(str::is_empty) == Some(false)"@,
        _ => "self."@ + field.name + ".is_some()"@,
    }
}

/// The lifetime annotation of a type that borrows, and nothing for one that does not.
pub open spec fn spec_lifetime_if(borrows: bool) -> Seq<char> {
    if borrows {
        "<'a>"@
    } else {
        Seq::empty()
    }
}

/// Writes the lifetime annotation of a type where it borrows.
pub fn lifetime_if(borrows: bool) -> (text: &'static str)
    ensures
        text@ == spec_lifetime_if(borrows),
{
    if borrows {
        "<'a>"
    } else {
        proof {
            reveal_strlit("");
        }
        let text = "";
        assert(text@ =~= Seq::<char>::empty());
        text
    }
}

/// Tells whether the target language has a name for the type.
pub fn has_rust_type(ty: &Type, schema: &Schema) -> (r: bool)
    ensures
        r == spec_has_rust_type(schema.deep_view(), *ty),
{
    match ty {
        Type::Bool
        | Type::Byte
        | Type::UByte
        | Type::Short
        | Type::UShort
        | Type::Int
        | Type::UInt
        | Type::Long
        | Type::ULong
        | Type::Float
        | Type::Double
        | Type::String => true,
        Type::Enum(index) => *index < schema.enums.len(),
        _ => false,
    }
}

/// Appends the name of the type in the target language.
pub fn write_rust_type(ty: &Type, schema: &Schema, out: &mut String)
    requires
        spec_has_rust_type(schema.deep_view(), *ty),
    ensures
        final(out)@ == old(out)@ + spec_rust_type(schema.deep_view(), *ty),
{
    match ty {
        Type::Bool => out.append("bool"),
        Type::Byte => out.append("i8"),
        Type::UByte => out.append("u8"),
        Type::Short => out.append("i16"),
        Type::UShort => out.append("u16"),
        Type::Int => out.append("i32"),
        Type::UInt => out.append("u32"),
        Type::Long => out.append("i64"),
        Type::ULong => out.append("u64"),
        Type::Float => out.append("f32"),
        Type::Double => out.append("f64"),
        Type::String => out.append("Option<&'a str>"),
        Type::Enum(index) => {
            assert(schema.deep_view().enums[*index as int]
                == schema.enums@[*index as int].deep_view());
            out.append(schema.enums[*index].name.as_str())
        },
        _ => {},
    }
}

fn default_value_index(e: &Enum, default_integer: i64) -> (i: usize)
    requires
        e.values@.len() > 0,
    ensures
        i < e.values@.len(),
        e.values@[i as int].deep_view() == spec_default_value(e.deep_view(), default_integer),
{
    let ghost values = e.deep_view().values;
    let mut i: usize = 0;
    assert(values.subrange(0, values.len() as int) =~= values);
    while i < e.values.len() && e.values[i].value != default_integer
        invariant
            i <= e.values@.len(),
            values == e.values.deep_view(),
            spec_index_of_value(values, default_integer) == i + spec_index_of_value(
                values.subrange(i as int, values.len() as int),
                default_integer,
            ),
        decreases e.values@.len() - i,
    {
        proof {
            let tail = values.subrange(i as int, values.len() as int);
            assert(tail[0] == values[i as int]);
            assert(values[i as int] == e.values@[i as int].deep_view());
            assert(tail.drop_first() =~= values.subrange(i + 1, values.len() as int));
        }
        i += 1;
    }
    proof {
        let tail = values.subrange(i as int, values.len() as int);
        if i < e.values@.len() {
            assert(tail[0] == values[i as int]);
            assert(values[i as int] == e.values@[i as int].deep_view());
        }
        assert(values[0] == e.values@[0].deep_view());
    }
    if i < e.values.len() {
        i
    } else {
        0
    }
}

/// Tells whether a default can be written for the field.
pub fn has_field_default(field: &Field, schema: &Schema) -> (r: bool)
    ensures
        r == spec_has_field_default(schema.deep_view(), field.deep_view()),
{
    match &field.field_type {
        Type::Enum(index) => {
            if *index < schema.enums.len() {
                assert(schema.deep_view().enums[*index as int]
                == schema.enums@[*index as int].deep_view());
                schema.enums[*index].values.len() > 0
            } else {
                false
            }
        },
        Type::Obj(index) => *index < schema.objects.len(),
        _ => true,
    }
}

/// Appends the expression for the default of a field.
pub fn write_field_default(field: &Field, schema: &Schema, out: &mut String)
    requires
        spec_has_field_default(schema.deep_view(), field.deep_view()),
    ensures
        final(out)@ == old(out)@ + spec_field_default(schema.deep_view(), field.deep_view()),
{
    match &field.field_type {
        Type::Bool => {
            if field.default_integer == 0 {
                out.append("false")
            } else {
                out.append("true")
            }
        },
        Type::Byte
        | Type::UByte
        | Type::Short
        | Type::UShort
        | Type::Int
        | Type::UInt
        | Type::Long
        | Type::ULong => {
            let text = decimal(field.default_integer);
            out.append(text.as_str())
        },
        Type::Float | Type::Double => out.append(field.default_real.as_str()),
        Type::Enum(index) => {
            assert(schema.deep_view().enums[*index as int]
                == schema.enums@[*index as int].deep_view());
            let e = &schema.enums[*index];
            let i = default_value_index(e, field.default_integer);
            out.append(e.name.as_str());
            out.append("::");
            out.append(e.values[i].name.as_str());
            assert(out@ =~= old(out)@ + spec_field_default(
                schema.deep_view(),
                field.deep_view(),
            ));
        },
        Type::Obj(index) => {
            assert(schema.deep_view().objects[*index as int]
                == schema.objects@[*index as int].deep_view());
            if schema.objects[*index].is_struct {
                out.append("Default::default()")
            } else {
                out.append("None")
            }
        },
        _ => out.append("None"),
    }
}

/// Appends the expression that tells whether a field of a value is present.
pub fn write_is_field_present(field: &Field, schema: &Schema, out: &mut String)
    requires
        spec_has_field_default(schema.deep_view(), field.deep_view()),
    ensures
        final(out)@ == old(out)@ + spec_is_field_present(schema.deep_view(), field.deep_view()),
{
    match &field.field_type {
        Type::Bool => {
            if field.default_integer != 0 {
                out.append("!");
            }
            out.append("self.");
            out.append(field.name.as_str());
        },
        Type::Byte
        | Type::UByte
        | Type::Short
        | Type::UShort
        | Type::Int
        | Type::UInt
        | Type::Long
        | Type::ULong
        | Type::Float
        | Type::Double
        | Type::Enum(_) => {
            out.append("self.");
            out.append(field.name.as_str());
            out.append(" != ");
            write_field_default(field, schema, out);
        },
        Type::String => {
            out.append("self.");
            out.append(field.name.as_str());
            out.append(".map(str::is_empty) == Some(false)");
        },
        _ => {
            out.append("self.");
            out.append(field.name.as_str());
            out.append(".is_some()");
        },
    }
    assert(out@ =~= old(out)@ + spec_is_field_present(schema.deep_view(), field.deep_view()));
}

} // verus!
