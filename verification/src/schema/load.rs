use crate::schema::model::{
    deep_clone_vec, spec_widen, widen, Enum, EnumVal, EnumValView, EnumView, Field, FieldView,
    Object, ObjectView, Schema, SchemaView,
};
use crate::schema::names::{base_name, namespaces_of, spec_base_name, spec_namespaces};
use crate::schema::raw::{
    spec_try_into_enum, try_into_enum, RawEnum, RawEnumVal, RawEnumValView, RawEnumView, RawField,
    RawFieldView, RawObject, RawObjectView, RawType,
};
use crate::schema::model::Type;
use crate::schema::sort::{
    lemma_sorted_order_is_sorted, lemma_stable_sort_deep_view, spec_sorted_order,
    spec_stable_sort, stable_sort_by_key, SortKey,
};
use crate::types::SIZE_OF_UOFFSET;
use vstd::prelude::*;

verus! {

/// A field as it is read, before the schema has given it a size.
pub open spec fn spec_field_from_raw(raw: RawFieldView) -> FieldView {
    FieldView {
        name: raw.name,
        field_type: spec_try_into_enum(raw.field_type.spec_to_type(), raw.field_type.index),
        id: raw.id,
        offset: raw.offset,
        default_integer: raw.default_integer,
        default_real: raw.default_real,
        deprecated: raw.deprecated,
        required: raw.required,
        key: raw.key,
        attributes: raw.attributes,
        size: 0,
        alignment: 0,
        is_reference: false,
    }
}

/// The fields of a raw object, each as it is read, in the order of the file.
pub open spec fn spec_fields_from_raw(raw: Seq<RawFieldView>) -> Seq<FieldView> {
    Seq::new(raw.len(), |i: int| spec_field_from_raw(raw[i]))
}

/// The keys that order fields by their slot in the vtable.
pub open spec fn spec_offset_keys(fields: Seq<FieldView>) -> Seq<SortKey> {
    Seq::new(fields.len(), |i: int| (fields[i].offset as u64, 0u64))
}

/// A table or struct as it is read: under its base name, its fields ordered by slot, and
/// nothing yet of what the schema as a whole decides.
pub open spec fn spec_object_from_raw(raw: RawObjectView) -> ObjectView {
    let fields = spec_fields_from_raw(raw.fields);
    ObjectView {
        name: spec_base_name(raw.name),
        fields: spec_stable_sort(fields, spec_offset_keys(fields)),
        fields_by_alignment: Seq::empty(),
        is_struct: raw.is_struct,
        minalign: raw.minalign,
        bytesize: raw.bytesize,
        attributes: raw.attributes,
        alignment: 0,
        has_reference: false,
    }
}

/// One value of an enum as it is read.
pub open spec fn spec_enum_val_from_raw(raw: RawEnumValView) -> EnumValView {
    EnumValView {
        name: raw.name,
        value: raw.value,
        union_type: match raw.union_type {
            Some(t) => Some(spec_widen(t.index)),
            None => None,
        },
    }
}

/// The values of a raw enum, each as it is read, in the order of the file.
pub open spec fn spec_values_from_raw(raw: Seq<RawEnumValView>) -> Seq<EnumValView> {
    Seq::new(raw.len(), |i: int| spec_enum_val_from_raw(raw[i]))
}

/// A key that ascends with the number it is made of.
pub open spec fn spec_value_key(value: i64) -> SortKey {
    ((value - i64::MIN) as u64, 0u64)
}

/// The keys that order the values of an enum by their number.
pub open spec fn spec_value_keys(values: Seq<EnumValView>) -> Seq<SortKey> {
    Seq::new(values.len(), |i: int| spec_value_key(values[i].value))
}

/// An enum as it is read: under its base name, its values ordered by number.
pub open spec fn spec_enum_from_raw(raw: RawEnumView) -> EnumView {
    let values = spec_values_from_raw(raw.values);
    EnumView {
        name: spec_base_name(raw.name),
        values: spec_stable_sort(values, spec_value_keys(values)),
        is_union: raw.is_union,
        underlying_type: raw.underlying_type.spec_to_type(),
        attributes: raw.attributes,
    }
}

/// The field with the size, the alignment and the kind of storage that the schema gives to
/// its type.
pub open spec fn spec_field_with_layout(schema: SchemaView, f: FieldView) -> FieldView {
    FieldView {
        name: f.name,
        field_type: f.field_type,
        id: f.id,
        offset: f.offset,
        default_integer: f.default_integer,
        default_real: f.default_real,
        deprecated: f.deprecated,
        required: f.required,
        key: f.key,
        attributes: f.attributes,
        size: schema.type_size(f.field_type),
        alignment: schema.type_alignment(f.field_type),
        is_reference: schema.type_is_reference(f.field_type),
    }
}

/// Each of the fields with its layout.
pub open spec fn spec_fields_with_layout(schema: SchemaView, fields: Seq<FieldView>) -> Seq<
    FieldView,
> {
    Seq::new(fields.len(), |i: int| spec_field_with_layout(schema, fields[i]))
}

/// The keys that order fields for emission: the larger alignment first, and of two equal
/// alignments the larger size first.
pub open spec fn spec_emission_keys(fields: Seq<FieldView>) -> Seq<SortKey> {
    Seq::new(
        fields.len(),
        |i: int| ((u64::MAX - fields[i].alignment) as u64, (u64::MAX - fields[i].size) as u64),
    )
}

/// The largest alignment among the fields; 0 where there is no field.
pub open spec fn spec_max_alignment(fields: Seq<FieldView>) -> usize
    decreases fields.len(),
{
    if fields.len() == 0 {
        0
    } else {
        let rest = spec_max_alignment(fields.drop_last());
        if fields.last().alignment > rest {
            fields.last().alignment
        } else {
            rest
        }
    }
}

/// True where one of the fields is stored by reference.
pub open spec fn spec_has_reference(fields: Seq<FieldView>) -> bool {
    exists|i: int| 0 <= i < fields.len() && (#[trigger] fields[i]).is_reference
}

/// The object with what the schema decides: the layout of each field, the fields in the
/// order of emission, the alignment of the whole (that of an offset where it has no field)
/// and whether it holds a reference.
pub open spec fn spec_object_with_layout(schema: SchemaView, o: ObjectView) -> ObjectView {
    let fields = spec_fields_with_layout(schema, o.fields);
    ObjectView {
        name: o.name,
        fields: fields,
        fields_by_alignment: spec_stable_sort(fields, spec_emission_keys(fields)),
        is_struct: o.is_struct,
        minalign: o.minalign,
        bytesize: o.bytesize,
        attributes: o.attributes,
        alignment: if fields.len() == 0 {
            SIZE_OF_UOFFSET
        } else {
            spec_max_alignment(fields)
        },
        has_reference: spec_has_reference(fields),
    }
}

/// The full name that gives a schema its namespaces: that of the first object, else that of
/// the first enum, else the empty name.
pub open spec fn spec_leading_name(objects: Seq<RawObjectView>, enums: Seq<RawEnumView>) -> Seq<
    char,
> {
    if objects.len() > 0 {
        objects[0].name
    } else if enums.len() > 0 {
        enums[0].name
    } else {
        Seq::empty()
    }
}

/// The schema as it is read, before any layout is decided.
pub open spec fn spec_plain_schema(
    objects: Seq<RawObjectView>,
    enums: Seq<RawEnumView>,
) -> SchemaView {
    SchemaView {
        namespaces: spec_namespaces(spec_leading_name(objects, enums)),
        objects: Seq::new(objects.len(), |i: int| spec_object_from_raw(objects[i])),
        enums: Seq::new(enums.len(), |i: int| spec_enum_from_raw(enums[i])),
    }
}

/// The normalized schema: what is read, with the layout of every object decided against
/// what is read.
pub open spec fn spec_schema_from_raw(
    objects: Seq<RawObjectView>,
    enums: Seq<RawEnumView>,
) -> SchemaView {
    let plain = spec_plain_schema(objects, enums);
    SchemaView {
        namespaces: plain.namespaces,
        objects: Seq::new(
            plain.objects.len(),
            |i: int| spec_object_with_layout(plain, plain.objects[i]),
        ),
        enums: plain.enums,
    }
}

/// Every type in the raw fields can be read, and names an enum, table or struct that the
/// schema holds where its size depends on one.
pub open spec fn spec_raw_fields_valid(
    fields: Seq<RawFieldView>,
    n_objects: nat,
    n_enums: nat,
) -> bool {
    forall|j: int|
        0 <= j < fields.len() ==> {
            &&& (#[trigger] fields[j]).field_type.spec_convertible()
            &&& spec_field_from_raw(fields[j]).field_type.spec_resolvable(n_objects, n_enums)
        }
}

/// The raw schema can be normalized: every type in it can be read, and every size that the
/// layout asks for can be looked up.
pub open spec fn spec_raw_valid(objects: Seq<RawObjectView>, enums: Seq<RawEnumView>) -> bool {
    &&& forall|i: int|
        0 <= i < enums.len() ==> {
            &&& (#[trigger] enums[i]).underlying_type.spec_convertible()
            &&& enums[i].underlying_type.spec_to_type().spec_resolvable(
                objects.len(),
                enums.len(),
            )
        }
    &&& forall|i: int|
        0 <= i < objects.len() ==> spec_raw_fields_valid(
            (#[trigger] objects[i]).fields,
            objects.len(),
            enums.len(),
        )
}

impl Field {
    /// Reads a field. Its size, alignment and kind of storage wait for the schema.
    pub fn from_raw(raw: &RawField) -> (field: Field)
        requires
            raw.field_type.spec_convertible(),
        ensures
            field.deep_view() == spec_field_from_raw(raw.deep_view()),
    {
        Field {
            name: raw.name.clone(),
            field_type: try_into_enum(Type::from_raw(&raw.field_type), raw.field_type.index),
            id: raw.id,
            offset: raw.offset,
            default_integer: raw.default_integer,
            default_real: raw.default_real.clone(),
            deprecated: raw.deprecated,
            required: raw.required,
            key: raw.key,
            attributes: deep_clone_vec(&raw.attributes),
            size: 0,
            alignment: 0,
            is_reference: false,
        }
    }
}

impl EnumVal {
    /// Reads one value of an enum.
    pub fn from_raw(raw: &RawEnumVal) -> (value: EnumVal)
        ensures
            value.deep_view() == spec_enum_val_from_raw(raw.deep_view()),
    {
        EnumVal {
            name: raw.name.clone(),
            value: raw.value,
            union_type: match raw.union_type {
                Some(t) => Some(widen(t.index)),
                None => None,
            },
        }
    }
}

fn fields_from_raw(raw: &Vec<RawField>) -> (fields: Vec<Field>)
    requires
        forall|j: int| 0 <= j < raw@.len() ==> (#[trigger] raw@[j]).field_type.spec_convertible(),
    ensures
        fields.deep_view() == spec_fields_from_raw(raw.deep_view()),
{
    let mut fields: Vec<Field> = Vec::with_capacity(raw.len());
    let mut j: usize = 0;
    while j < raw.len()
        invariant
            j <= raw@.len(),
            fields@.len() == j,
            forall|k: int|
                0 <= k < raw@.len() ==> (#[trigger] raw@[k]).field_type.spec_convertible(),
            forall|k: int|
                0 <= k < j ==> (#[trigger] fields@[k]).deep_view() == spec_field_from_raw(
                    raw@[k].deep_view(),
                ),
        decreases raw@.len() - j,
    {
        fields.push(Field::from_raw(&raw[j]));
        j += 1;
    }
    assert(fields.deep_view() =~= spec_fields_from_raw(raw.deep_view()));
    fields
}

fn offset_keys(fields: &Vec<Field>) -> (keys: Vec<SortKey>)
    ensures
        keys@ == spec_offset_keys(fields.deep_view()),
{
    let mut keys: Vec<SortKey> = Vec::with_capacity(fields.len());
    let mut j: usize = 0;
    while j < fields.len()
        invariant
            j <= fields@.len(),
            keys@.len() == j,
            forall|k: int| 0 <= k < j ==> #[trigger] keys@[k] == (fields@[k].offset as u64, 0u64),
        decreases fields@.len() - j,
    {
        keys.push((fields[j].offset as u64, 0u64));
        j += 1;
    }
    assert(keys@ =~= spec_offset_keys(fields.deep_view()));
    keys
}

impl Object {
    /// Reads a table or struct: strips the namespaces from its name and orders its fields
    /// by their slot. What depends on the other declarations waits for the schema.
    pub fn from_raw(raw: &RawObject) -> (object: Object)
        requires
            forall|j: int|
                0 <= j < raw.fields@.len() ==> (
                #[trigger] raw.fields@[j]).field_type.spec_convertible(),
        ensures
            object.deep_view() == spec_object_from_raw(raw.deep_view()),
    {
        let fields = fields_from_raw(&raw.fields);
        let keys = offset_keys(&fields);
        let ghost unsorted = fields;
        let sorted = stable_sort_by_key(fields, &keys);
        proof {
            lemma_stable_sort_deep_view(unsorted, sorted, keys@);
        }
        let fields_by_alignment: Vec<Field> = Vec::new();
        assert(fields_by_alignment.deep_view() =~= Seq::<FieldView>::empty());
        Object {
            name: base_name(raw.name.as_str()).to_owned(),
            fields: sorted,
            fields_by_alignment,
            is_struct: raw.is_struct,
            minalign: raw.minalign,
            bytesize: raw.bytesize,
            attributes: deep_clone_vec(&raw.attributes),
            alignment: 0,
            has_reference: false,
        }
    }
}

fn values_from_raw(raw: &Vec<RawEnumVal>) -> (values: Vec<EnumVal>)
    ensures
        values.deep_view() == spec_values_from_raw(raw.deep_view()),
{
    let mut values: Vec<EnumVal> = Vec::with_capacity(raw.len());
    let mut j: usize = 0;
    while j < raw.len()
        invariant
            j <= raw@.len(),
            values@.len() == j,
            forall|k: int|
                0 <= k < j ==> (#[trigger] values@[k]).deep_view() == spec_enum_val_from_raw(
                    raw@[k].deep_view(),
                ),
        decreases raw@.len() - j,
    {
        values.push(EnumVal::from_raw(&raw[j]));
        j += 1;
    }
    assert(values.deep_view() =~= spec_values_from_raw(raw.deep_view()));
    values
}

/// Makes the key that orders an enum's value.
pub fn value_key(value: i64) -> (key: SortKey)
    ensures
        key == spec_value_key(value),
{
    if value >= 0 {
        ((value as u64) + 0x8000_0000_0000_0000u64, 0u64)
    } else {
        ((value - i64::MIN) as u64, 0u64)
    }
}

fn value_keys(values: &Vec<EnumVal>) -> (keys: Vec<SortKey>)
    ensures
        keys@ == spec_value_keys(values.deep_view()),
{
    let mut keys: Vec<SortKey> = Vec::with_capacity(values.len());
    let mut j: usize = 0;
    while j < values.len()
        invariant
            j <= values@.len(),
            keys@.len() == j,
            forall|k: int| 0 <= k < j ==> #[trigger] keys@[k] == spec_value_key(values@[k].value),
        decreases values@.len() - j,
    {
        keys.push(value_key(values[j].value));
        j += 1;
    }
    assert(keys@ =~= spec_value_keys(values.deep_view()));
    keys
}

impl Enum {
    /// Reads an enum or union: strips the namespaces from its name and orders its values by
    /// their number.
    pub fn from_raw(raw: &RawEnum) -> (e: Enum)
        requires
            raw.underlying_type.spec_convertible(),
        ensures
            e.deep_view() == spec_enum_from_raw(raw.deep_view()),
    {
        let values = values_from_raw(&raw.values);
        let keys = value_keys(&values);
        let ghost unsorted = values;
        let sorted = stable_sort_by_key(values, &keys);
        proof {
            lemma_stable_sort_deep_view(unsorted, sorted, keys@);
        }
        Enum {
            name: base_name(raw.name.as_str()).to_owned(),
            values: sorted,
            is_union: raw.is_union,
            underlying_type: Type::from_raw(&raw.underlying_type),
            attributes: deep_clone_vec(&raw.attributes),
        }
    }
}

fn fields_with_layout(schema: &Schema, fields: &Vec<Field>) -> (laid: Vec<Field>)
    requires
        schema.deep_view().well_formed(),
        forall|j: int|
            0 <= j < fields@.len() ==> (#[trigger] fields@[j]).field_type.spec_resolvable(
                schema.objects@.len(),
                schema.enums@.len(),
            ),
    ensures
        laid.deep_view() == spec_fields_with_layout(schema.deep_view(), fields.deep_view()),
{
    let mut laid: Vec<Field> = Vec::with_capacity(fields.len());
    let mut j: usize = 0;
    while j < fields.len()
        invariant
            j <= fields@.len(),
            laid@.len() == j,
            schema.deep_view().well_formed(),
            forall|k: int|
                0 <= k < fields@.len() ==> (#[trigger] fields@[k]).field_type.spec_resolvable(
                    schema.objects@.len(),
                    schema.enums@.len(),
                ),
            forall|k: int|
                0 <= k < j ==> (#[trigger] laid@[k]).deep_view() == spec_field_with_layout(
                    schema.deep_view(),
                    fields@[k].deep_view(),
                ),
        decreases fields@.len() - j,
    {
        let field = &fields[j];
        laid.push(
            Field {
                name: field.name.clone(),
                field_type: field.field_type.clone(),
                id: field.id,
                offset: field.offset,
                default_integer: field.default_integer,
                default_real: field.default_real.clone(),
                deprecated: field.deprecated,
                required: field.required,
                key: field.key,
                attributes: deep_clone_vec(&field.attributes),
                size: schema.type_size(&field.field_type),
                alignment: schema.type_alignment(&field.field_type),
                is_reference: schema.type_is_reference(&field.field_type),
            },
        );
        j += 1;
    }
    assert(laid.deep_view() =~= spec_fields_with_layout(
        schema.deep_view(),
        fields.deep_view(),
    ));
    laid
}

/// Makes the keys that order fields for emission.
pub fn emission_keys(fields: &Vec<Field>) -> (keys: Vec<SortKey>)
    ensures
        keys@ == spec_emission_keys(fields.deep_view()),
{
    let mut keys: Vec<SortKey> = Vec::with_capacity(fields.len());
    let mut j: usize = 0;
    while j < fields.len()
        invariant
            j <= fields@.len(),
            keys@.len() == j,
            forall|k: int|
                0 <= k < j ==> #[trigger] keys@[k] == (
                    (u64::MAX - fields@[k].alignment) as u64,
                    (u64::MAX - fields@[k].size) as u64,
                ),
        decreases fields@.len() - j,
    {
        keys.push((u64::MAX - (fields[j].alignment as u64), u64::MAX - (fields[j].size as u64)));
        j += 1;
    }
    assert(keys@ =~= spec_emission_keys(fields.deep_view()));
    keys
}

fn max_alignment(fields: &Vec<Field>) -> (alignment: usize)
    ensures
        alignment == spec_max_alignment(fields.deep_view()),
{
    let mut alignment: usize = 0;
    let mut j: usize = 0;
    while j < fields.len()
        invariant
            j <= fields@.len(),
            alignment == spec_max_alignment(fields.deep_view().subrange(0, j as int)),
        decreases fields@.len() - j,
    {
        proof {
            let next = fields.deep_view().subrange(0, j + 1);
            assert(next.drop_last() =~= fields.deep_view().subrange(0, j as int));
            assert(next.last() == fields@[j as int].deep_view());
        }
        if fields[j].alignment > alignment {
            alignment = fields[j].alignment;
        }
        j += 1;
    }
    assert(fields.deep_view().subrange(0, j as int) =~= fields.deep_view());
    alignment
}

fn has_reference(fields: &Vec<Field>) -> (found: bool)
    ensures
        found == spec_has_reference(fields.deep_view()),
{
    let mut j: usize = 0;
    while j < fields.len()
        invariant
            j <= fields@.len(),
            forall|k: int| 0 <= k < j ==> !(#[trigger] fields.deep_view()[k]).is_reference,
        decreases fields@.len() - j,
    {
        if fields[j].is_reference {
            assert(fields.deep_view()[j as int].is_reference);
            return true;
        }
        j += 1;
    }
    false
}

impl Object {
    /// Gives the object what the schema decides: the layout of its fields, their order of
    /// emission, its alignment and whether it holds a reference.
    pub fn with_layout(&self, schema: &Schema) -> (object: Object)
        requires
            schema.deep_view().well_formed(),
            forall|j: int|
                0 <= j < self.fields@.len() ==> (
                #[trigger] self.fields@[j]).field_type.spec_resolvable(
                    schema.objects@.len(),
                    schema.enums@.len(),
                ),
        ensures
            object.deep_view() == spec_object_with_layout(schema.deep_view(), self.deep_view()),
    {
        let fields = fields_with_layout(schema, &self.fields);
        let by_alignment = deep_clone_vec(&fields);
        let keys = emission_keys(&by_alignment);
        let ghost unsorted = by_alignment;
        let sorted = stable_sort_by_key(by_alignment, &keys);
        proof {
            lemma_stable_sort_deep_view(unsorted, sorted, keys@);
        }
        let alignment = if fields.len() == 0 {
            SIZE_OF_UOFFSET
        } else {
            max_alignment(&fields)
        };
        let has_reference = has_reference(&fields);
        Object {
            name: self.name.clone(),
            fields,
            fields_by_alignment: sorted,
            is_struct: self.is_struct,
            minalign: self.minalign,
            bytesize: self.bytesize,
            attributes: deep_clone_vec(&self.attributes),
            alignment,
            has_reference,
        }
    }
}

/// Reading a type never gives an enum: only a field's integer type is turned into one.
pub proof fn lemma_to_type_is_no_enum(t: RawType)
    requires
        t.spec_convertible(),
    ensures
        !(t.spec_to_type() is Enum),
{
}

/// The fields of an object that is read are the fields of the raw object in another order,
/// so what holds of the type of each raw field holds of the type of each field.
pub proof fn lemma_object_fields_resolvable(raw: RawObjectView, n_objects: nat, n_enums: nat)
    requires
        spec_raw_fields_valid(raw.fields, n_objects, n_enums),
    ensures
        spec_object_from_raw(raw).fields.len() == raw.fields.len(),
        forall|k: int|
            0 <= k < raw.fields.len() ==> (#[trigger] spec_object_from_raw(
                raw,
            ).fields[k]).field_type.spec_resolvable(n_objects, n_enums),
{
    let fields = spec_fields_from_raw(raw.fields);
    let keys = spec_offset_keys(fields);
    lemma_sorted_order_is_sorted(keys, 0);
    let order = spec_sorted_order(keys, 0);
    assert forall|k: int| 0 <= k < raw.fields.len() implies (#[trigger] spec_object_from_raw(
        raw,
    ).fields[k]).field_type.spec_resolvable(n_objects, n_enums) by {
        assert(0 <= order[k] < raw.fields.len());
        assert(spec_object_from_raw(raw).fields[k] == fields[order[k]]);
        assert(fields[order[k]] == spec_field_from_raw(raw.fields[order[k]]));
    }
}

fn raw_fields_valid(fields: &Vec<RawField>, n_objects: usize, n_enums: usize) -> (valid: bool)
    ensures
        valid == spec_raw_fields_valid(fields.deep_view(), n_objects as nat, n_enums as nat),
{
    let mut j: usize = 0;
    while j < fields.len()
        invariant
            j <= fields@.len(),
            forall|k: int|
                0 <= k < j ==> {
                    &&& (#[trigger] fields.deep_view()[k]).field_type.spec_convertible()
                    &&& spec_field_from_raw(fields.deep_view()[k]).field_type.spec_resolvable(
                        n_objects as nat,
                        n_enums as nat,
                    )
                },
        decreases fields@.len() - j,
    {
        let raw = &fields[j];
        assert(fields.deep_view()[j as int] == raw.deep_view());
        if !raw.field_type.convertible() {
            return false;
        }
        let ty = try_into_enum(Type::from_raw(&raw.field_type), raw.field_type.index);
        if !ty.resolvable(n_objects, n_enums) {
            return false;
        }
        j += 1;
    }
    true
}

/// Tells whether a raw schema can be normalized.
pub fn raw_valid(objects: &Vec<RawObject>, enums: &Vec<RawEnum>) -> (valid: bool)
    ensures
        valid == spec_raw_valid(objects.deep_view(), enums.deep_view()),
{
    let mut i: usize = 0;
    while i < enums.len()
        invariant
            i <= enums@.len(),
            forall|k: int|
                0 <= k < i ==> {
                    &&& (#[trigger] enums.deep_view()[k]).underlying_type.spec_convertible()
                    &&& enums.deep_view()[k].underlying_type.spec_to_type().spec_resolvable(
                        objects.deep_view().len(),
                        enums.deep_view().len(),
                    )
                },
        decreases enums@.len() - i,
    {
        let raw = &enums[i];
        assert(enums.deep_view()[i as int] == raw.deep_view());
        if !raw.underlying_type.convertible() {
            return false;
        }
        if !Type::from_raw(&raw.underlying_type).resolvable(objects.len(), enums.len()) {
            return false;
        }
        i += 1;
    }
    let mut i: usize = 0;
    while i < objects.len()
        invariant
            i <= objects@.len(),
            forall|k: int|
                0 <= k < enums.deep_view().len() ==> {
                    &&& (#[trigger] enums.deep_view()[k]).underlying_type.spec_convertible()
                    &&& enums.deep_view()[k].underlying_type.spec_to_type().spec_resolvable(
                        objects.deep_view().len(),
                        enums.deep_view().len(),
                    )
                },
            forall|k: int|
                0 <= k < i ==> spec_raw_fields_valid(
                    (#[trigger] objects.deep_view()[k]).fields,
                    objects.deep_view().len(),
                    enums.deep_view().len(),
                ),
        decreases objects@.len() - i,
    {
        assert(objects.deep_view()[i as int] == objects@[i as int].deep_view());
        if !raw_fields_valid(&objects[i].fields, objects.len(), enums.len()) {
            return false;
        }
        i += 1;
    }
    true
}

impl Schema {
    /// Normalizes a schema: reads every object and enum, takes the namespaces from the
    /// first name, and decides the layout of every object.
    pub fn from_raw(objects: &Vec<RawObject>, enums: &Vec<RawEnum>) -> (schema: Schema)
        requires
            spec_raw_valid(objects.deep_view(), enums.deep_view()),
        ensures
            schema.deep_view() == spec_schema_from_raw(objects.deep_view(), enums.deep_view()),
    {
        let ghost raw_objects = objects.deep_view();
        let ghost raw_enums = enums.deep_view();
        let ghost target = spec_plain_schema(raw_objects, raw_enums);
        let namespaces = if objects.len() > 0 {
            assert(raw_objects[0] == objects@[0].deep_view());
            namespaces_of(objects[0].name.as_str())
        } else if enums.len() > 0 {
            assert(raw_enums[0] == enums@[0].deep_view());
            namespaces_of(enums[0].name.as_str())
        } else {
            let empty = "";
            proof {
                reveal_strlit("");
                assert(empty@ =~= Seq::<char>::empty());
            }
            namespaces_of(empty)
        };
        let mut plain_objects: Vec<Object> = Vec::with_capacity(objects.len());
        let mut i: usize = 0;
        while i < objects.len()
            invariant
                i <= objects@.len(),
                plain_objects@.len() == i,
                raw_objects == objects.deep_view(),
                raw_enums == enums.deep_view(),
                spec_raw_valid(raw_objects, raw_enums),
                forall|k: int|
                    0 <= k < i ==> (#[trigger] plain_objects@[k]).deep_view()
                        == spec_object_from_raw(raw_objects[k]),
            decreases objects@.len() - i,
        {
            assert(raw_objects[i as int] == objects@[i as int].deep_view());
            assert(spec_raw_fields_valid(
                raw_objects[i as int].fields,
                raw_objects.len(),
                raw_enums.len(),
            ));
            assert forall|j: int| 0 <= j < objects@[i as int].fields@.len() implies (
            #[trigger] objects@[i as int].fields@[j]).field_type.spec_convertible() by {
                assert(raw_objects[i as int].fields[j].field_type.spec_convertible());
            }
            plain_objects.push(Object::from_raw(&objects[i]));
            i += 1;
        }
        let mut plain_enums: Vec<Enum> = Vec::with_capacity(enums.len());
        let mut i: usize = 0;
        while i < enums.len()
            invariant
                i <= enums@.len(),
                plain_enums@.len() == i,
                raw_objects == objects.deep_view(),
                raw_enums == enums.deep_view(),
                spec_raw_valid(raw_objects, raw_enums),
                forall|k: int|
                    0 <= k < i ==> (#[trigger] plain_enums@[k]).deep_view() == spec_enum_from_raw(
                        raw_enums[k],
                    ),
            decreases enums@.len() - i,
        {
            assert(raw_enums[i as int] == enums@[i as int].deep_view());
            assert(raw_enums[i as int].underlying_type.spec_convertible());
            plain_enums.push(Enum::from_raw(&enums[i]));
            i += 1;
        }
        let plain = Schema { namespaces, objects: plain_objects, enums: plain_enums };
        proof {
            assert(plain.objects.deep_view() =~= target.objects);
            assert(plain.enums.deep_view() =~= target.enums);
            assert(plain.deep_view() == target);
            assert forall|k: int| 0 <= k < target.enums.len() implies {
                &&& !((#[trigger] target.enums[k]).underlying_type is Enum)
                &&& target.enums[k].underlying_type.spec_resolvable(
                    target.objects.len(),
                    target.enums.len(),
                )
            } by {
                lemma_to_type_is_no_enum(raw_enums[k].underlying_type);
            }
        }
        let mut laid: Vec<Object> = Vec::with_capacity(plain.objects.len());
        let mut i: usize = 0;
        while i < plain.objects.len()
            invariant
                i <= plain.objects@.len(),
                laid@.len() == i,
                plain.deep_view() == target,
                target == spec_plain_schema(raw_objects, raw_enums),
                target.well_formed(),
                spec_raw_valid(raw_objects, raw_enums),
                plain.objects@.len() == raw_objects.len(),
                plain.enums@.len() == raw_enums.len(),
                forall|k: int|
                    0 <= k < i ==> (#[trigger] laid@[k]).deep_view() == spec_object_with_layout(
                        target,
                        target.objects[k],
                    ),
            decreases plain.objects@.len() - i,
        {
            proof {
                lemma_object_fields_resolvable(
                    raw_objects[i as int],
                    raw_objects.len(),
                    raw_enums.len(),
                );
                assert(plain.objects@[i as int].deep_view() == target.objects[i as int]);
                assert forall|j: int| 0 <= j < plain.objects@[i as int].fields@.len() implies (
                #[trigger] plain.objects@[i as int].fields@[j]).field_type.spec_resolvable(
                    plain.objects@.len(),
                    plain.enums@.len(),
                ) by {
                    assert(plain.objects@[i as int].fields.deep_view()[j]
                        == plain.objects@[i as int].fields@[j].deep_view());
                    assert(target.objects[i as int].fields[j].field_type.spec_resolvable(
                        raw_objects.len(),
                        raw_enums.len(),
                    ));
                }
            }
            laid.push(plain.objects[i].with_layout(&plain));
            i += 1;
        }
        let schema = Schema {
            namespaces: deep_clone_vec(&plain.namespaces),
            objects: laid,
            enums: deep_clone_vec(&plain.enums),
        };
        proof {
            assert(schema.objects.deep_view() =~= spec_schema_from_raw(
                raw_objects,
                raw_enums,
            ).objects);
        }
        schema
    }
}

} // verus!
