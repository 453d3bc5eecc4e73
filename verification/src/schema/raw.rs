use crate::schema::model::{spec_widen, widen, Attribute, AttributeView, Type};
use vstd::prelude::*;

verus! {

/// The kind of a type as a schema file writes it down.
#[derive(Clone, Copy, Debug, PartialEq, Eq)]
pub enum BaseType {
    NoType,
    UType,
    Bool,
    Byte,
    UByte,
    Short,
    UShort,
    Int,
    UInt,
    Long,
    ULong,
    Float,
    Double,
    String,
    Vector,
    Obj,
    Union,
}

/// A type as a schema file writes it down: its kind, the kind of a vector's elements, and
/// the index of the enum, table or struct that it names (-1 where it names none).
#[derive(Clone, Copy, Debug)]
pub struct RawType {
    pub base_type: BaseType,
    pub element: BaseType,
    pub index: i32,
}

/// A field as a schema file writes it down.
#[derive(Debug)]
pub struct RawField {
    pub name: String,
    pub field_type: RawType,
    pub id: u16,
    pub offset: u16,
    pub default_integer: i64,
    /// The real default, written as the decimal text that reads back to the same number.
    pub default_real: String,
    pub deprecated: bool,
    pub required: bool,
    pub key: bool,
    pub attributes: Vec<Attribute>,
}

/// A table or struct as a schema file writes it down, under its full dotted name.
#[derive(Debug)]
pub struct RawObject {
    pub name: String,
    pub fields: Vec<RawField>,
    pub is_struct: bool,
    pub minalign: i32,
    pub bytesize: i32,
    pub attributes: Vec<Attribute>,
}

/// One value of an enum as a schema file writes it down.
#[derive(Debug)]
pub struct RawEnumVal {
    pub name: String,
    pub value: i64,
    pub union_type: Option<RawType>,
}

/// An enum or union as a schema file writes it down, under its full dotted name.
#[derive(Debug)]
pub struct RawEnum {
    pub name: String,
    pub values: Vec<RawEnumVal>,
    pub is_union: bool,
    pub underlying_type: RawType,
    pub attributes: Vec<Attribute>,
}

/// What a `RawField` holds.
pub struct RawFieldView {
    pub name: Seq<char>,
    pub field_type: RawType,
    pub id: u16,
    pub offset: u16,
    pub default_integer: i64,
    pub default_real: Seq<char>,
    pub deprecated: bool,
    pub required: bool,
    pub key: bool,
    pub attributes: Seq<AttributeView>,
}

/// What a `RawObject` holds.
pub struct RawObjectView {
    pub name: Seq<char>,
    pub fields: Seq<RawFieldView>,
    pub is_struct: bool,
    pub minalign: i32,
    pub bytesize: i32,
    pub attributes: Seq<AttributeView>,
}

/// What a `RawEnumVal` holds.
pub struct RawEnumValView {
    pub name: Seq<char>,
    pub value: i64,
    pub union_type: Option<RawType>,
}

/// What a `RawEnum` holds.
pub struct RawEnumView {
    pub name: Seq<char>,
    pub values: Seq<RawEnumValView>,
    pub is_union: bool,
    pub underlying_type: RawType,
    pub attributes: Seq<AttributeView>,
}

impl DeepView for RawField {
    type V = RawFieldView;

    open spec fn deep_view(&self) -> RawFieldView {
        RawFieldView {
            name: self.name@,
            field_type: self.field_type,
            id: self.id,
            offset: self.offset,
            default_integer: self.default_integer,
            default_real: self.default_real@,
            deprecated: self.deprecated,
            required: self.required,
            key: self.key,
            attributes: self.attributes.deep_view(),
        }
    }
}

impl DeepView for RawObject {
    type V = RawObjectView;

    open spec fn deep_view(&self) -> RawObjectView {
        RawObjectView {
            name: self.name@,
            fields: self.fields.deep_view(),
            is_struct: self.is_struct,
            minalign: self.minalign,
            bytesize: self.bytesize,
            attributes: self.attributes.deep_view(),
        }
    }
}

impl DeepView for RawEnumVal {
    type V = RawEnumValView;

    open spec fn deep_view(&self) -> RawEnumValView {
        RawEnumValView { name: self.name@, value: self.value, union_type: self.union_type }
    }
}

impl DeepView for RawEnum {
    type V = RawEnumView;

    open spec fn deep_view(&self) -> RawEnumView {
        RawEnumView {
            name: self.name@,
            values: self.values.deep_view(),
            is_union: self.is_union,
            underlying_type: self.underlying_type,
            attributes: self.attributes.deep_view(),
        }
    }
}

impl BaseType {
    /// True of the kinds that stand for a type by themselves: the numbers, `Bool` and
    /// `String`.
    pub open spec fn spec_is_plain(&self) -> bool {
        !(self is NoType || self is UType || self is Vector || self is Obj || self is Union)
    }

    /// Tells whether the kind stands for a type by itself.
    pub fn is_plain(&self) -> (r: bool)
        ensures
            r == self.spec_is_plain(),
    {
        match self {
            BaseType::NoType | BaseType::UType | BaseType::Vector | BaseType::Obj
            | BaseType::Union => false,
            _ => true,
        }
    }
}

/// The type that a plain kind stands for.
pub open spec fn spec_from_base_type(base_type: BaseType) -> Type
    recommends
        base_type.spec_is_plain(),
{
    match base_type {
        BaseType::Bool => Type::Bool,
        BaseType::Byte => Type::Byte,
        BaseType::UByte => Type::UByte,
        BaseType::Short => Type::Short,
        BaseType::UShort => Type::UShort,
        BaseType::Int => Type::Int,
        BaseType::UInt => Type::UInt,
        BaseType::Long => Type::Long,
        BaseType::ULong => Type::ULong,
        BaseType::Float => Type::Float,
        BaseType::Double => Type::Double,
        BaseType::String => Type::String,
        _ => arbitrary(),
    }
}

/// An integer type with an index stands for the enum of that index; every other type, and
/// every type with the index -1, stands for itself.
pub open spec fn spec_try_into_enum(ty: Type, index: i32) -> Type {
    if index != -1 && ty.spec_is_integer() {
        Type::Enum(spec_widen(index))
    } else {
        ty
    }
}

impl RawType {
    /// The type can be read: it is plain, or a table, a struct, a union, a union's
    /// discriminant, or a vector of plain values or of tables or structs.
    pub open spec fn spec_convertible(&self) -> bool {
        match self.base_type {
            BaseType::Vector => self.element is Obj || self.element.spec_is_plain(),
            BaseType::Obj | BaseType::Union | BaseType::UType => true,
            base_type => base_type.spec_is_plain(),
        }
    }

    /// The type that is written down.
    pub open spec fn spec_to_type(&self) -> Type
        recommends
            self.spec_convertible(),
    {
        match self.base_type {
            BaseType::Vector => Type::Vector(
                Box::new(
                    if self.element is Obj {
                        Type::Obj(spec_widen(self.index))
                    } else {
                        spec_from_base_type(self.element)
                    },
                ),
            ),
            BaseType::Obj => Type::Obj(spec_widen(self.index)),
            BaseType::Union => Type::Union(spec_widen(self.index)),
            BaseType::UType => Type::UType(spec_widen(self.index)),
            base_type => spec_from_base_type(base_type),
        }
    }

    /// Tells whether the type can be read.
    pub fn convertible(&self) -> (r: bool)
        ensures
            r == self.spec_convertible(),
    {
        match self.base_type {
            BaseType::Vector => match self.element {
                BaseType::Obj => true,
                element => element.is_plain(),
            },
            BaseType::Obj | BaseType::Union | BaseType::UType => true,
            base_type => base_type.is_plain(),
        }
    }
}

/// Reads a plain kind as a type.
pub fn from_base_type(base_type: BaseType) -> (ty: Type)
    requires
        base_type.spec_is_plain(),
    ensures
        ty == spec_from_base_type(base_type),
{
    match base_type {
        BaseType::Bool => Type::Bool,
        BaseType::Byte => Type::Byte,
        BaseType::UByte => Type::UByte,
        BaseType::Short => Type::Short,
        BaseType::UShort => Type::UShort,
        BaseType::Int => Type::Int,
        BaseType::UInt => Type::UInt,
        BaseType::Long => Type::Long,
        BaseType::ULong => Type::ULong,
        BaseType::Float => Type::Float,
        BaseType::Double => Type::Double,
        _ => Type::String,
    }
}

/// Turns an integer type that names an enum into the enum's type.
pub fn try_into_enum(ty: Type, index: i32) -> (r: Type)
    ensures
        r == spec_try_into_enum(ty, index),
{
    if index == -1 {
        return ty;
    }
    match ty {
        Type::Byte
        | Type::UByte
        | Type::Short
        | Type::UShort
        | Type::Int
        | Type::UInt
        | Type::Long
        | Type::ULong => Type::Enum(widen(index)),
        _ => ty,
    }
}

impl Type {
    /// Reads a type as a schema file writes it down.
    pub fn from_raw(t: &RawType) -> (ty: Type)
        requires
            t.spec_convertible(),
        ensures
            ty == t.spec_to_type(),
    {
        match t.base_type {
            BaseType::Vector => Type::Vector(
                Box::new(
                    match t.element {
                        BaseType::Obj => Type::Obj(widen(t.index)),
                        element => from_base_type(element),
                    },
                ),
            ),
            BaseType::Obj => Type::Obj(widen(t.index)),
            BaseType::Union => Type::Union(widen(t.index)),
            BaseType::UType => Type::UType(widen(t.index)),
            base_type => from_base_type(base_type),
        }
    }
}

} // verus!
