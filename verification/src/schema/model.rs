use crate::types::SIZE_OF_UOFFSET;
use vstd::prelude::*;

verus! {

/// The type of a field, of a vector's elements or of an enum's values.
#[derive(Debug, PartialEq, Eq)]
pub enum Type {
    /// The discriminant of a union; carries the index of the enum that lists the variants.
    UType(usize),
    Bool,
    Byte,
    UByte,
    Short,
    UShort,
    Int,
    UInt,
    Long,
    ULong,
    Float,
    Double,
    /// An integer that takes its values from the enum with this index.
    Enum(usize),
    String,
    Vector(Box<Type>),
    /// The table or struct with this index.
    Obj(usize),
    /// The union whose variants the enum with this index lists.
    Union(usize),
}

/// One name and value of the metadata attached to a declaration.
#[derive(Debug, PartialEq, Eq)]
pub struct Attribute {
    pub key: String,
    pub value: String,
}

/// A normalized schema: its namespaces, its tables and structs, and its enums and unions.
#[derive(Debug)]
pub struct Schema {
    pub namespaces: Vec<String>,
    pub objects: Vec<Object>,
    pub enums: Vec<Enum>,
}

/// A table or a struct.
#[derive(Debug)]
pub struct Object {
    pub name: String,
    /// The fields, ordered by their slot in the vtable.
    pub fields: Vec<Field>,
    /// The fields in the order in which a table emits them.
    pub fields_by_alignment: Vec<Field>,
    pub is_struct: bool,
    pub minalign: i32,
    pub bytesize: i32,
    pub attributes: Vec<Attribute>,
    pub alignment: usize,
    pub has_reference: bool,
}

/// A field of a table or struct, with its layout.
#[derive(Debug)]
pub struct Field {
    pub name: String,
    pub field_type: Type,
    pub id: u16,
    pub offset: u16,
    pub default_integer: i64,
    /// The real default, written as the decimal text that reads back to the same number.
    pub default_real: String,
    pub deprecated: bool,
    pub required: bool,
    pub key: bool,
    pub attributes: Vec<Attribute>,
    pub size: usize,
    pub alignment: usize,
    pub is_reference: bool,
}

/// An enum or a union.
#[derive(Debug)]
pub struct Enum {
    pub name: String,
    /// The values, ordered by their number.
    pub values: Vec<EnumVal>,
    pub is_union: bool,
    pub underlying_type: Type,
    pub attributes: Vec<Attribute>,
}

/// One value of an enum; for a union, the variant with the table that it stands for.
#[derive(Debug)]
pub struct EnumVal {
    pub name: String,
    pub value: i64,
    pub union_type: Option<usize>,
}

impl Clone for Type {
    fn clone(&self) -> (r: Self)
        ensures
            r == *self,
        decreases self,
    {
        match self {
            Type::UType(index) => Type::UType(*index),
            Type::Bool => Type::Bool,
            Type::Byte => Type::Byte,
            Type::UByte => Type::UByte,
            Type::Short => Type::Short,
            Type::UShort => Type::UShort,
            Type::Int => Type::Int,
            Type::UInt => Type::UInt,
            Type::Long => Type::Long,
            Type::ULong => Type::ULong,
            Type::Float => Type::Float,
            Type::Double => Type::Double,
            Type::Enum(index) => Type::Enum(*index),
            Type::String => Type::String,
            Type::Vector(element) => Type::Vector(Box::new((**element).clone())),
            Type::Obj(index) => Type::Obj(*index),
            Type::Union(index) => Type::Union(*index),
        }
    }
}

/// What an `Attribute` holds.
pub struct AttributeView {
    pub key: Seq<char>,
    pub value: Seq<char>,
}

/// What an `EnumVal` holds.
pub struct EnumValView {
    pub name: Seq<char>,
    pub value: i64,
    pub union_type: Option<usize>,
}

/// What an `Enum` holds.
pub struct EnumView {
    pub name: Seq<char>,
    pub values: Seq<EnumValView>,
    pub is_union: bool,
    pub underlying_type: Type,
    pub attributes: Seq<AttributeView>,
}

/// What a `Field` holds.
pub struct FieldView {
    pub name: Seq<char>,
    pub field_type: Type,
    pub id: u16,
    pub offset: u16,
    pub default_integer: i64,
    pub default_real: Seq<char>,
    pub deprecated: bool,
    pub required: bool,
    pub key: bool,
    pub attributes: Seq<AttributeView>,
    pub size: usize,
    pub alignment: usize,
    pub is_reference: bool,
}

/// What an `Object` holds.
pub struct ObjectView {
    pub name: Seq<char>,
    pub fields: Seq<FieldView>,
    pub fields_by_alignment: Seq<FieldView>,
    pub is_struct: bool,
    pub minalign: i32,
    pub bytesize: i32,
    pub attributes: Seq<AttributeView>,
    pub alignment: usize,
    pub has_reference: bool,
}

/// What a `Schema` holds.
pub struct SchemaView {
    pub namespaces: Seq<Seq<char>>,
    pub objects: Seq<ObjectView>,
    pub enums: Seq<EnumView>,
}

impl DeepView for Type {
    type V = Type;

    open spec fn deep_view(&self) -> Type {
        *self
    }
}

impl DeepView for Attribute {
    type V = AttributeView;

    open spec fn deep_view(&self) -> AttributeView {
        AttributeView { key: self.key@, value: self.value@ }
    }
}

impl DeepView for EnumVal {
    type V = EnumValView;

    open spec fn deep_view(&self) -> EnumValView {
        EnumValView { name: self.name@, value: self.value, union_type: self.union_type }
    }
}

impl DeepView for Enum {
    type V = EnumView;

    open spec fn deep_view(&self) -> EnumView {
        EnumView {
            name: self.name@,
            values: self.values.deep_view(),
            is_union: self.is_union,
            underlying_type: self.underlying_type,
            attributes: self.attributes.deep_view(),
        }
    }
}

impl DeepView for Field {
    type V = FieldView;

    open spec fn deep_view(&self) -> FieldView {
        FieldView {
            name: self.name@,
            field_type: self.field_type,
            id: self.id,
            offset: self.offset,
            default_integer: self.default_integer,
            default_real: self.default_real@,
            deprecated: self.deprecated,
            required: self.required,
            key: self.key,
            attributes: self.attributes.deep_view(),
            size: self.size,
            alignment: self.alignment,
            is_reference: self.is_reference,
        }
    }
}

impl DeepView for Object {
    type V = ObjectView;

    open spec fn deep_view(&self) -> ObjectView {
        ObjectView {
            name: self.name@,
            fields: self.fields.deep_view(),
            fields_by_alignment: self.fields_by_alignment.deep_view(),
            is_struct: self.is_struct,
            minalign: self.minalign,
            bytesize: self.bytesize,
            attributes: self.attributes.deep_view(),
            alignment: self.alignment,
            has_reference: self.has_reference,
        }
    }
}

impl DeepView for Schema {
    type V = SchemaView;

    open spec fn deep_view(&self) -> SchemaView {
        SchemaView {
            namespaces: self.namespaces.deep_view(),
            objects: self.objects.deep_view(),
            enums: self.enums.deep_view(),
        }
    }
}

/// A value that can be copied with everything it holds.
pub trait DeepClone: DeepView + Sized {
    fn deep_clone(&self) -> (copy: Self)
        ensures
            copy.deep_view() == self.deep_view(),
    ;
}

/// Copies a vector item by item.
pub fn deep_clone_vec<T: DeepClone>(items: &Vec<T>) -> (copy: Vec<T>)
    ensures
        copy.deep_view() == items.deep_view(),
{
    let mut copy: Vec<T> = Vec::with_capacity(items.len());
    let mut i: usize = 0;
    while i < items.len()
        invariant
            i <= items@.len(),
            copy@.len() == i,
            forall|j: int|
                0 <= j < i ==> (#[trigger] copy@[j]).deep_view() == items@[j].deep_view(),
        decreases items@.len() - i,
    {
        copy.push(items[i].deep_clone());
        i += 1;
    }
    assert(copy.deep_view() =~= items.deep_view());
    copy
}

impl DeepClone for String {
    fn deep_clone(&self) -> (copy: Self) {
        self.clone()
    }
}

impl DeepClone for Attribute {
    fn deep_clone(&self) -> (copy: Self) {
        Attribute { key: self.key.clone(), value: self.value.clone() }
    }
}

impl DeepClone for EnumVal {
    fn deep_clone(&self) -> (copy: Self) {
        EnumVal { name: self.name.clone(), value: self.value, union_type: self.union_type }
    }
}

impl DeepClone for Enum {
    fn deep_clone(&self) -> (copy: Self) {
        Enum {
            name: self.name.clone(),
            values: deep_clone_vec(&self.values),
            is_union: self.is_union,
            underlying_type: self.underlying_type.clone(),
            attributes: deep_clone_vec(&self.attributes),
        }
    }
}

impl DeepClone for Field {
    fn deep_clone(&self) -> (copy: Self) {
        Field {
            name: self.name.clone(),
            field_type: self.field_type.clone(),
            id: self.id,
            offset: self.offset,
            default_integer: self.default_integer,
            default_real: self.default_real.clone(),
            deprecated: self.deprecated,
            required: self.required,
            key: self.key,
            attributes: deep_clone_vec(&self.attributes),
            size: self.size,
            alignment: self.alignment,
            is_reference: self.is_reference,
        }
    }
}

impl DeepClone for Object {
    fn deep_clone(&self) -> (copy: Self) {
        Object {
            name: self.name.clone(),
            fields: deep_clone_vec(&self.fields),
            fields_by_alignment: deep_clone_vec(&self.fields_by_alignment),
            is_struct: self.is_struct,
            minalign: self.minalign,
            bytesize: self.bytesize,
            attributes: deep_clone_vec(&self.attributes),
            alignment: self.alignment,
            has_reference: self.has_reference,
        }
    }
}

impl DeepClone for Schema {
    fn deep_clone(&self) -> (copy: Self) {
        Schema {
            namespaces: deep_clone_vec(&self.namespaces),
            objects: deep_clone_vec(&self.objects),
            enums: deep_clone_vec(&self.enums),
        }
    }
}

impl Type {
    /// True of the type of an enum.
    pub open spec fn spec_is_enum(&self) -> bool {
        self is Enum
    }

    /// Tells whether the type is that of an enum.
    #[verifier::when_used_as_spec(spec_is_enum)]
    pub fn is_enum(&self) -> (r: bool)
        ensures
            r == (self is Enum),
    {
        match self {
            Type::Enum(_) => true,
            _ => false,
        }
    }

    /// True of the eight integer types that an enum can be built on.
    pub open spec fn spec_is_integer(&self) -> bool {
        self is Byte || self is UByte || self is Short || self is UShort || self is Int
            || self is UInt || self is Long || self is ULong
    }

    /// The enum, table or struct that the type itself names lies within the given bounds.
    /// Sizes are looked up for these two only: a vector, a union and a union's discriminant
    /// have a fixed width.
    pub open spec fn spec_resolvable(&self, n_objects: nat, n_enums: nat) -> bool {
        match self {
            Type::Enum(index) => *index < n_enums,
            Type::Obj(index) => *index < n_objects,
            _ => true,
        }
    }

    /// Tells whether the enum, table or struct that the type itself names lies within the
    /// given bounds.
    pub fn resolvable(&self, n_objects: usize, n_enums: usize) -> (r: bool)
        ensures
            r == self.spec_resolvable(n_objects as nat, n_enums as nat),
    {
        match self {
            Type::Enum(index) => *index < n_enums,
            Type::Obj(index) => *index < n_objects,
            _ => true,
        }
    }
}

/// A signed 32-bit number read as an unsigned machine word: a number below zero counts down
/// from the top of the range.
pub open spec fn spec_widen(x: i32) -> usize {
    if x >= 0 {
        x as usize
    } else {
        (usize::MAX + 1 + x) as usize
    }
}

/// Reads a signed 32-bit number as an unsigned machine word.
pub fn widen(x: i32) -> (r: usize)
    ensures
        r == spec_widen(x),
{
    if x >= 0 {
        x as usize
    } else {
        usize::MAX - ((-(x + 1)) as usize)
    }
}

impl SchemaView {
    /// Every enum is built on a type that is no enum itself and that names no table or
    /// struct outside the schema.
    pub open spec fn well_formed(&self) -> bool {
        forall|i: int|
            0 <= i < self.enums.len() ==> {
                &&& !((#[trigger] self.enums[i]).underlying_type is Enum)
                &&& self.enums[i].underlying_type.spec_resolvable(
                    self.objects.len(),
                    self.enums.len(),
                )
            }
    }

    /// The inline size of a value whose type is no enum.
    pub open spec fn plain_size(&self, t: Type) -> usize {
        match t {
            Type::UType(_) | Type::Bool | Type::Byte | Type::UByte => 1,
            Type::Short | Type::UShort => 2,
            Type::Int | Type::UInt | Type::Float => 4,
            Type::Long | Type::ULong | Type::Double => 8,
            Type::Obj(index) => if self.objects[index as int].is_struct {
                spec_widen(self.objects[index as int].bytesize)
            } else {
                SIZE_OF_UOFFSET
            },
            _ => SIZE_OF_UOFFSET,
        }
    }

    /// The number of bytes that a value of type `t` takes inside a table or a struct: the
    /// width of a number, the width of the underlying number for an enum, the whole size for
    /// a struct, and the width of an offset for everything that is stored by reference.
    pub open spec fn type_size(&self, t: Type) -> usize {
        match t {
            Type::Enum(index) => self.plain_size(self.enums[index as int].underlying_type),
            _ => self.plain_size(t),
        }
    }

    /// The alignment of a value of type `t`: that which a struct declares, else the size.
    pub open spec fn type_alignment(&self, t: Type) -> usize {
        match t {
            Type::Obj(index) => if self.objects[index as int].is_struct {
                spec_widen(self.objects[index as int].minalign)
            } else {
                SIZE_OF_UOFFSET
            },
            _ => self.type_size(t),
        }
    }

    /// True of the types whose values a table holds as an offset to where they are stored.
    pub open spec fn type_is_reference(&self, t: Type) -> bool {
        match t {
            Type::String | Type::Vector(_) | Type::Union(_) => true,
            Type::Obj(index) => !self.objects[index as int].is_struct,
            _ => false,
        }
    }
}

impl Schema {
    fn plain_size(&self, t: &Type) -> (size: usize)
        requires
            t.spec_resolvable(self.objects@.len(), self.enums@.len()),
        ensures
            size == self.deep_view().plain_size(*t),
    {
        match t {
            Type::UType(_) | Type::Bool | Type::Byte | Type::UByte => 1,
            Type::Short | Type::UShort => 2,
            Type::Int | Type::UInt | Type::Float => 4,
            Type::Long | Type::ULong | Type::Double => 8,
            Type::Obj(index) => {
                let obj = &self.objects[*index];
                if obj.is_struct {
                    widen(obj.bytesize)
                } else {
                    SIZE_OF_UOFFSET
                }
            },
            _ => SIZE_OF_UOFFSET,
        }
    }

    /// The number of bytes that a value of type `t` takes inside a table or a struct.
    pub fn type_size(&self, t: &Type) -> (size: usize)
        requires
            self.deep_view().well_formed(),
            t.spec_resolvable(self.objects@.len(), self.enums@.len()),
        ensures
            size == self.deep_view().type_size(*t),
    {
        match t {
            Type::Enum(index) => {
                assert(self.deep_view().enums[*index as int].underlying_type
                    == self.enums@[*index as int].underlying_type);
                self.plain_size(&self.enums[*index].underlying_type)
            },
            _ => self.plain_size(t),
        }
    }

    /// The alignment of a value of type `t` inside a table or a struct.
    pub fn type_alignment(&self, t: &Type) -> (alignment: usize)
        requires
            self.deep_view().well_formed(),
            t.spec_resolvable(self.objects@.len(), self.enums@.len()),
        ensures
            alignment == self.deep_view().type_alignment(*t),
    {
        match t {
            Type::Obj(index) => {
                let obj = &self.objects[*index];
                if obj.is_struct {
                    widen(obj.minalign)
                } else {
                    SIZE_OF_UOFFSET
                }
            },
            _ => self.type_size(t),
        }
    }

    /// Whether a table holds a value of type `t` as an offset to where it is stored.
    pub fn type_is_reference(&self, t: &Type) -> (is_reference: bool)
        requires
            t.spec_resolvable(self.objects@.len(), self.enums@.len()),
        ensures
            is_reference == self.deep_view().type_is_reference(*t),
    {
        match t {
            Type::String | Type::Vector(_) | Type::Union(_) => true,
            Type::Obj(index) => !self.objects[*index].is_struct,
            _ => false,
        }
    }
}

} // verus!
