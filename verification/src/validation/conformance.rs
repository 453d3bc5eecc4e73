use crate::builder::component::{Component, FieldValue, TableField};
use crate::schema::model::{Schema, SchemaView, Type};
use crate::validation::offsets::Error;
use crate::validation::string::spec_verify_string;
use crate::builder::vtable::spec_entered_at;
use crate::validation::table::{
    spec_element_by_reference, spec_type_checkable, spec_variant, spec_verifiable,
    spec_verify_table, spec_verify_vector,
};
use vstd::prelude::*;

verus! {

/// Every slot of the object lies behind the two sizes of a vtable, at an even place.
pub open spec fn spec_slots_regular(schema: SchemaView, object: int) -> bool {
    forall|i: int|
        0 <= i < schema.objects[object].fields.len() ==> {
            &&& (#[trigger] schema.objects[object].fields[i]).offset >= 4
            &&& schema.objects[object].fields[i].offset % 2 == 0
        }
}

/// The component is a value of the type: a string of `String`, a vector of the type of
/// its elements, and a table of a table of the schema whose fields it holds. A table holds
/// the fields of an object where every field that is entered at a slot of the object has
/// the size of the object's field there, if that is stored inline, and else points to a
/// value of the type of that field. Nothing is a value of a union by itself: a union is
/// held by a table, as a discriminant and a table of the variant.
pub open spec fn spec_is_a(schema: SchemaView, ty: Type, c: Component) -> bool
    decreases c, 0nat,
{
    match c {
        Component::Empty => false,
        Component::String(_) => ty is String,
        Component::ScalarsVector(v) => {
            &&& ty is Vector
            &&& !spec_element_by_reference(schema, *ty->Vector_0)
            &&& v.len * schema.type_size(*ty->Vector_0) == v.scalars@.len()
        },
        Component::NestedBuffer(_) => {
            &&& ty is Vector
            &&& !spec_element_by_reference(schema, *ty->Vector_0)
            &&& schema.type_size(*ty->Vector_0) == 1
        },
        Component::ReferencesVector(v) => {
            &&& ty is Vector
            &&& spec_element_by_reference(schema, *ty->Vector_0)
            &&& spec_elements_are(schema, *ty->Vector_0, v.references@, v.references@.len())
        },
        Component::Table(t) => {
            &&& ty is Obj
            &&& ty->Obj_0 < schema.objects.len()
            &&& !schema.objects[ty->Obj_0 as int].is_struct
            &&& spec_slots_regular(schema, ty->Obj_0 as int)
            &&& spec_fields_are(schema, ty->Obj_0 as int, t.fields@, t.fields@.len())
        },
    }
}

/// Each of the first `k` components is a value of the type.
pub open spec fn spec_elements_are(
    schema: SchemaView,
    element: Type,
    s: Seq<Component>,
    k: nat,
) -> bool
    decreases s, k,
{
    if k == 0 || k > s.len() {
        true
    } else {
        spec_elements_are(schema, element, s, (k - 1) as nat) && spec_is_a(
            schema,
            element,
            s[k - 1],
        )
    }
}

/// The discriminant that the fields of a table hold for the union that is entered at the
/// slot `vt`: the one byte of the inline field that was entered last at the slot before it;
/// none where there is no such field.
pub open spec fn spec_discriminant(fields: Seq<TableField>, vt: int) -> Option<u8> {
    match spec_entered_at(fields, fields.len(), vt - 2) {
        Some(j) => match fields[j].value {
            FieldValue::Scalar(bytes) => if bytes@.len() == 1 {
                Some(bytes@[0])
            } else {
                None
            },
            FieldValue::Reference(_) => None,
        },
        None => None,
    }
}

/// The type of what a field of the type `ty` points to: for a union the table that the
/// discriminant in the fields stands for, and for every other type the type itself. Where
/// the discriminant stands for no table, that is a union still, of which nothing is a
/// value.
pub open spec fn spec_pointed_type(
    schema: SchemaView,
    ty: Type,
    fields: Seq<TableField>,
    vt: int,
) -> Type {
    match ty {
        Type::Union(e) => match spec_discriminant(fields, vt) {
            Some(tag) => match spec_variant(schema, e, tag) {
                Some(object) => Type::Obj(object),
                None => ty,
            },
            None => ty,
        },
        _ => ty,
    }
}

/// Each of the first `k` fields is a field of the object: where it is entered at a slot of
/// the object, it has the size of the object's field there, if that is stored inline, and
/// else points to a value of the type of that field; for a union, to a table of the table
/// that the discriminant in the fields stands for.
pub open spec fn spec_fields_are(
    schema: SchemaView,
    object: int,
    fields: Seq<TableField>,
    k: nat,
) -> bool
    decreases fields, k,
{
    if k == 0 || k > fields.len() {
        true
    } else {
        &&& spec_fields_are(schema, object, fields, (k - 1) as nat)
        &&& forall|i: int|
            0 <= i < schema.objects[object].fields.len() && (
            #[trigger] schema.objects[object].fields[i]).offset == fields[k - 1].slot
                ==> spec_field_is(schema, object, fields, k - 1, i)
    }
}

/// The `j`-th field of a table is the `i`-th field of the object, at whose slot it is
/// entered: it has the size of the object's field, if that is stored inline, and else
/// points to a value of the type of that field; for a union, to a table of the table that
/// the discriminant in the fields stands for.
pub open spec fn spec_field_is(
    schema: SchemaView,
    object: int,
    fields: Seq<TableField>,
    j: int,
    i: int,
) -> bool
    decreases fields, 0nat,
{
    if 0 <= j < fields.len() {
        if !schema.type_is_reference(schema.objects[object].fields[i].field_type) {
            schema.type_size(schema.objects[object].fields[i].field_type)
                == fields[j].value.spec_size()
        } else {
            match fields[j].value {
                FieldValue::Scalar(_) => false,
                FieldValue::Reference(child) => spec_is_a(
                    schema,
                    spec_pointed_type(
                        schema,
                        schema.objects[object].fields[i].field_type,
                        fields,
                        fields[j].slot as int,
                    ),
                    child,
                ),
            }
        }
    } else {
        true
    }
}

/// What the check of what an offset of the type `ty` points to gives.
pub open spec fn spec_verify_reference(
    f: Seq<u8>,
    schema: SchemaView,
    ty: Type,
    loc: usize,
) -> Result<(), Error> {
    match ty {
        Type::String => spec_verify_string(f, loc),
        Type::Vector(element) => spec_verify_vector(f, schema, *element, loc),
        Type::Obj(index) => spec_verify_table(f, schema, index, loc),
        _ => Ok(()),
    }
}

/// Each element of a run of values of a type is a value of the type.
pub(crate) proof fn lemma_elements_are_index(
    schema: SchemaView,
    element: Type,
    s: Seq<Component>,
    k: nat,
    i: int,
)
    requires
        spec_elements_are(schema, element, s, k),
        0 <= i < k <= s.len(),
    ensures
        spec_is_a(schema, element, s[i]),
    decreases k,
{
    if i < k - 1 {
        lemma_elements_are_index(schema, element, s, (k - 1) as nat, i);
    }
}

/// Each field of a run of fields of an object is a field of the object.
pub(crate) proof fn lemma_fields_are_index(
    schema: SchemaView,
    object: int,
    fields: Seq<TableField>,
    k: nat,
    j: int,
    i: int,
)
    requires
        spec_fields_are(schema, object, fields, k),
        0 <= j < k <= fields.len(),
        0 <= i < schema.objects[object].fields.len(),
        schema.objects[object].fields[i].offset == fields[j].slot,
    ensures
        !schema.type_is_reference(schema.objects[object].fields[i].field_type) ==> schema.type_size(
            schema.objects[object].fields[i].field_type,
        ) == fields[j].value.spec_size(),
        schema.type_is_reference(schema.objects[object].fields[i].field_type) ==> {
            &&& fields[j].value is Reference
            &&& spec_is_a(
                schema,
                spec_pointed_type(
                    schema,
                    schema.objects[object].fields[i].field_type,
                    fields,
                    fields[j].slot as int,
                ),
                fields[j].value->Reference_0,
            )
        },
    decreases k,
{
    if j < k - 1 {
        lemma_fields_are_index(schema, object, fields, (k - 1) as nat, j, i);
    } else {
        assert(spec_field_is(schema, object, fields, j, i));
    }
}

/// What has a value is the type of a string, of a vector or of a table.
pub(crate) proof fn lemma_is_a_type(schema: SchemaView, ty: Type, c: Component)
    requires
        spec_is_a(schema, ty, c),
    ensures
        ty is String || ty is Vector || ty is Obj,
{
}

/// Tells whether the elements of a vector of the given type are stored by reference.
pub fn element_by_reference(schema: &Schema, element: &Type) -> (r: bool)
    requires
        element.spec_resolvable(schema.objects@.len(), schema.enums@.len()),
    ensures
        r == spec_element_by_reference(schema.deep_view(), *element),
{
    match element {
        Type::String => true,
        Type::Obj(index) => !schema.objects[*index].is_struct,
        _ => false,
    }
}

/// Tells whether every slot of the object lies behind the two sizes of a vtable, at an
/// even place.
pub fn slots_regular(schema: &Schema, object: usize) -> (r: bool)
    requires
        object < schema.objects@.len(),
    ensures
        r == spec_slots_regular(schema.deep_view(), object as int),
{
    let ghost declared = schema.deep_view().objects[object as int].fields;
    assert(schema.deep_view().objects[object as int] == schema.objects@[object as int].deep_view());
    let fields = &schema.objects[object].fields;
    let mut i: usize = 0;
    while i < fields.len()
        invariant
            i <= fields@.len(),
            object < schema.objects@.len(),
            declared == fields.deep_view(),
            declared == schema.deep_view().objects[object as int].fields,
            forall|k: int|
                0 <= k < i ==> (#[trigger] declared[k]).offset >= 4 && declared[k].offset % 2 == 0,
        decreases fields@.len() - i,
    {
        assert(declared[i as int] == fields@[i as int].deep_view());
        if fields[i].offset < 4 || fields[i].offset % 2 != 0 {
            assert(declared[i as int].offset < 4 || declared[i as int].offset % 2 != 0);
            return false;
        }
        i += 1;
    }
    true
}

/// Finds the field that was entered last at a slot.
pub fn entered_at(fields: &Vec<TableField>, s: usize) -> (r: Option<usize>)
    ensures
        r is Some == spec_entered_at(fields@, fields@.len(), s as int) is Some,
        r is Some ==> r->Some_0 == spec_entered_at(fields@, fields@.len(), s as int)->Some_0,
{
    let mut found: Option<usize> = None;
    let mut k: usize = 0;
    while k < fields.len()
        invariant
            k <= fields@.len(),
            found is Some == spec_entered_at(fields@, k as nat, s as int) is Some,
            found is Some ==> found->Some_0 == spec_entered_at(fields@, k as nat, s as int)->Some_0,
        decreases fields@.len() - k,
    {
        if fields[k].slot == s {
            found = Some(k);
        }
        k += 1;
    }
    found
}

/// Finds the type of what a field of the type `ty` points to, for a table that holds the
/// given fields and the field at the slot `vt`.
pub fn pointed_type(schema: &Schema, ty: &Type, fields: &Vec<TableField>, vt: usize) -> (r: Type)
    ensures
        r == spec_pointed_type(schema.deep_view(), *ty, fields@, vt as int),
{
    match ty {
        Type::Union(e) => {
            if vt < 2 {
                assert(spec_entered_at(fields@, fields@.len(), vt - 2) is None) by {
                    crate::builder::vtable::lemma_entered_at(fields@, fields@.len(), vt - 2);
                }
                return ty.clone();
            }
            match entered_at(fields, vt - 2) {
                Some(j) => {
                    proof {
                        crate::builder::vtable::lemma_entered_at(fields@, fields@.len(), vt - 2);
                    }
                    match &fields[j].value {
                        FieldValue::Scalar(bytes) => {
                            if bytes.len() == 1 {
                                match crate::validation::table::variant(schema, *e, bytes[0]) {
                                    Some(object) => Type::Obj(object),
                                    None => ty.clone(),
                                }
                            } else {
                                ty.clone()
                            }
                        },
                        FieldValue::Reference(_) => ty.clone(),
                    }
                },
                None => ty.clone(),
            }
        },
        _ => ty.clone(),
    }
}

proof fn lemma_not_elements_are(
    schema: SchemaView,
    element: Type,
    s: Seq<Component>,
    k: nat,
    i: int,
)
    requires
        0 <= i < k <= s.len(),
        !spec_is_a(schema, element, s[i]),
    ensures
        !spec_elements_are(schema, element, s, k),
    decreases k,
{
    if i < k - 1 {
        lemma_not_elements_are(schema, element, s, (k - 1) as nat, i);
    }
}

proof fn lemma_not_fields_are(
    schema: SchemaView,
    object: int,
    fields: Seq<TableField>,
    k: nat,
    j: int,
)
    requires
        0 <= j < k <= fields.len(),
        !spec_fields_are(schema, object, fields, (j + 1) as nat),
    ensures
        !spec_fields_are(schema, object, fields, k),
    decreases k,
{
    if j < k - 1 {
        lemma_not_fields_are(schema, object, fields, (k - 1) as nat, j);
    }
}

/// Tells whether a component is a value of a type of the schema.
pub fn conforms(schema: &Schema, ty: &Type, c: &Component) -> (r: bool)
    requires
        spec_verifiable(schema.deep_view()),
        spec_type_checkable(schema.deep_view(), *ty),
    ensures
        r == spec_is_a(schema.deep_view(), *ty, *c),
    decreases c, 1nat,
{
    let ghost view = schema.deep_view();
    match c {
        Component::Empty => false,
        Component::String(_) => {
            let r = match ty {
                Type::String => true,
                _ => false,
            };
            assert(r == spec_is_a(view, *ty, *c));
            r
        },
        Component::ScalarsVector(v) => {
            let held = v.scalars.len();
            let r = match ty {
                Type::Vector(element) => {
                    if element_by_reference(schema, element) {
                        false
                    } else {
                        match v.len.checked_mul(schema.type_size(element)) {
                            Some(bytes) => bytes == held,
                            None => false,
                        }
                    }
                },
                _ => false,
            };
            assert(r == spec_is_a(view, *ty, *c));
            r
        },
        Component::NestedBuffer(_) => {
            let r = match ty {
                Type::Vector(element) => !element_by_reference(schema, element)
                    && schema.type_size(element) == 1,
                _ => false,
            };
            assert(r == spec_is_a(view, *ty, *c));
            r
        },
        Component::ReferencesVector(v) => {
            let r = match ty {
                Type::Vector(element) => element_by_reference(schema, element)
                    && elements_conform(schema, element, &v.references),
                _ => false,
            };
            assert(r == spec_is_a(view, *ty, *c));
            r
        },
        Component::Table(t) => {
            let r = match ty {
                Type::Obj(object) => {
                    if *object < schema.objects.len() {
                        assert(view.objects[*object as int]
                            == schema.objects@[*object as int].deep_view());
                        !schema.objects[*object].is_struct && slots_regular(schema, *object)
                            && fields_conform(schema, *object, &t.fields)
                    } else {
                        false
                    }
                },
                _ => false,
            };
            assert(r == spec_is_a(view, *ty, *c));
            r
        },
    }
}

fn elements_conform(schema: &Schema, element: &Type, components: &Vec<Component>) -> (r: bool)
    requires
        spec_verifiable(schema.deep_view()),
        spec_type_checkable(schema.deep_view(), *element),
    ensures
        r == spec_elements_are(schema.deep_view(), *element, components@, components@.len()),
    decreases components, 0nat,
{
    let mut k: usize = 0;
    while k < components.len()
        invariant
            k <= components@.len(),
            spec_verifiable(schema.deep_view()),
            spec_type_checkable(schema.deep_view(), *element),
            spec_elements_are(schema.deep_view(), *element, components@, k as nat),
        decreases components@.len() - k,
    {
        if !conforms(schema, element, &components[k]) {
            proof {
                lemma_not_elements_are(
                    schema.deep_view(),
                    *element,
                    components@,
                    components@.len(),
                    k as int,
                );
            }
            return false;
        }
        k += 1;
    }
    true
}

fn fields_conform(schema: &Schema, object: usize, fields: &Vec<TableField>) -> (r: bool)
    requires
        spec_verifiable(schema.deep_view()),
        object < schema.objects@.len(),
    ensures
        r == spec_fields_are(schema.deep_view(), object as int, fields@, fields@.len()),
    decreases fields, 0nat,
{
    let ghost view = schema.deep_view();
    let ghost declared = view.objects[object as int].fields;
    assert(view.objects[object as int] == schema.objects@[object as int].deep_view());
    let schema_fields = &schema.objects[object].fields;
    let mut k: usize = 0;
    while k < fields.len()
        invariant
            k <= fields@.len(),
            object < schema.objects@.len(),
            view == schema.deep_view(),
            spec_verifiable(view),
            declared == view.objects[object as int].fields,
            declared == schema_fields.deep_view(),
            spec_fields_are(view, object as int, fields@, k as nat),
        decreases fields@.len() - k,
    {
        let field = &fields[k];
        let mut i: usize = 0;
        while i < schema_fields.len()
            invariant
                i <= schema_fields@.len(),
                k < fields@.len(),
                *field == fields@[k as int],
                object < schema.objects@.len(),
                view == schema.deep_view(),
                spec_verifiable(view),
                declared == view.objects[object as int].fields,
                declared == schema_fields.deep_view(),
                spec_fields_are(view, object as int, fields@, k as nat),
                forall|m: int|
                    0 <= m < i && (#[trigger] declared[m]).offset == fields@[k as int].slot
                        ==> spec_field_is(view, object as int, fields@, k as int, m),
            decreases schema_fields@.len() - i,
        {
            assert(declared[i as int] == schema_fields@[i as int].deep_view());
            if schema_fields[i].offset as usize == field.slot {
                let ty = &schema_fields[i].field_type;
                assert(spec_type_checkable(
                    view,
                    view.objects[object as int].fields[i as int].field_type,
                ));
                let matched = if !schema.type_is_reference(ty) {
                    schema.type_size(ty) == field.value.size()
                } else {
                    match &field.value {
                        FieldValue::Scalar(_) => false,
                        FieldValue::Reference(child) => {
                            let pointed = pointed_type(schema, ty, fields, field.slot);
                            conforms(schema, &pointed, child)
                        },
                    }
                };
                assert(matched == spec_field_is(view, object as int, fields@, k as int, i as int));
                if !matched {
                    proof {
                        assert(!spec_fields_are(view, object as int, fields@, (k + 1) as nat));
                        lemma_not_fields_are(
                            view,
                            object as int,
                            fields@,
                            fields@.len(),
                            k as int,
                        );
                    }
                    return false;
                }
            }
            i += 1;
        }
        k += 1;
    }
    true
}

} // verus!
