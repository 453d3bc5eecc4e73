use crate::codegen::rust::spec_index_of_value;
use crate::schema::model::{Enum, Schema, SchemaView, Type};
use crate::types::{SIZE_OF_SOFFSET, SIZE_OF_UOFFSET, SIZE_OF_VOFFSET};
use crate::validation::offsets::{
    read_soffset, read_uoffset, read_voffset, spec_read_soffset, spec_read_uoffset,
    spec_read_voffset, spec_try_follow_uoffset, spec_try_read_uoffset, try_follow_uoffset,
    try_read_uoffset, Error, MAX_OFFSET_LOC,
};
use crate::validation::string::{spec_verify_string, StringVerifier};
use vstd::prelude::*;

verus! {

/// Where a table keeps its vtable, and the two sizes that the vtable starts with.
#[derive(Clone, Copy, Debug)]
pub struct TableHeader {
    pub vtable_loc: usize,
    pub vtable_size: usize,
    pub inline_size: usize,
}

/// The number of bytes from `loc` to the end of the buffer; 0 where `loc` lies outside.
pub open spec fn spec_remaining(buf_len: nat, loc: usize) -> nat {
    if loc < buf_len {
        (buf_len - loc) as nat
    } else {
        0
    }
}

/// `child` lies above `loc`, and `loc` lies in the buffer. Every offset that is followed
/// leads from a place in the buffer to a place above it, so a check never comes back to
/// where it has been.
pub open spec fn spec_above(buf: Seq<u8>, loc: usize, child: usize) -> bool {
    loc < child && loc < buf.len()
}

/// The place of the vtable of the table at `loc`: the table's place less the signed offset
/// that the table starts with, where that is a place at all.
pub open spec fn spec_vtable_loc(buf: Seq<u8>, loc: usize) -> Option<usize> {
    let soffset = spec_read_soffset(buf, loc as int);
    if soffset == i32::MIN || loc - soffset < 0 || loc - soffset > usize::MAX {
        None
    } else {
        Some((loc - soffset) as usize)
    }
}

/// The number of field slots in a vtable of the given size.
pub open spec fn spec_num_fields(vtable_size: usize) -> int {
    vtable_size / 2 - 2
}

/// The entry of the `k`-th field slot of the vtable at `vtable_loc`.
pub open spec fn spec_slot(buf: Seq<u8>, vtable_loc: usize, k: int) -> usize {
    spec_read_voffset(buf, vtable_loc + 4 + 2 * k)
}

/// A slot is empty, or points behind the header of the table and inside the table.
pub open spec fn spec_slot_ok(voffset: usize, inline_size: usize) -> bool {
    (voffset == 0 || voffset >= SIZE_OF_SOFFSET) && voffset < inline_size
}

/// The header of the table at `loc`, where the table can be read: its first four bytes lie
/// in the buffer, they lead to a vtable whose two sizes lie in the buffer, the sizes are at
/// least those of an empty vtable and an empty table, vtable and table end inside the buffer,
/// and every slot is in order.
pub open spec fn spec_table_header(buf: Seq<u8>, loc: usize) -> Option<TableHeader> {
    if loc > MAX_OFFSET_LOC || loc + SIZE_OF_SOFFSET > buf.len() {
        None
    } else {
        match spec_vtable_loc(buf, loc) {
            None => None,
            Some(vtable_loc) => if vtable_loc + 2 * SIZE_OF_VOFFSET > buf.len() {
                None
            } else {
                let vtable_size = spec_read_voffset(buf, vtable_loc as int);
                let inline_size = spec_read_voffset(buf, vtable_loc + 2);
                if vtable_size < 2 * SIZE_OF_VOFFSET || inline_size < SIZE_OF_SOFFSET
                    || vtable_loc + vtable_size > buf.len() || loc + inline_size > buf.len() {
                    None
                } else if !(forall|k: int|
                    0 <= k < spec_num_fields(vtable_size) ==> spec_slot_ok(
                        #[trigger] spec_slot(buf, vtable_loc, k),
                        inline_size,
                    )) {
                    None
                } else {
                    Some(TableHeader { vtable_loc, vtable_size, inline_size })
                }
            },
        }
    }
}

/// The entry of the vtable for the field whose slot starts `vt` bytes into the vtable; 0
/// where the vtable ends before it.
pub open spec fn spec_field_slot(buf: Seq<u8>, header: TableHeader, vt: usize) -> usize {
    if vt + SIZE_OF_VOFFSET <= header.vtable_size {
        spec_read_voffset(buf, header.vtable_loc + vt)
    } else {
        0
    }
}

/// The place of the field of the table at `loc` whose slot starts `vt` bytes into the
/// vtable; none where the table cannot be read or the field is absent.
pub open spec fn spec_field_location(buf: Seq<u8>, loc: usize, vt: usize) -> Option<usize> {
    match spec_table_header(buf, loc) {
        None => None,
        Some(header) => {
            let voffset = spec_field_slot(buf, header, vt);
            if voffset == 0 || loc + voffset > usize::MAX {
                None
            } else {
                Some((loc + voffset) as usize)
            }
        },
    }
}

/// A type can be checked against the schema: what it names, and what the elements of a
/// vector name, lies in the schema.
pub open spec fn spec_type_checkable(schema: SchemaView, ty: Type) -> bool {
    &&& ty.spec_resolvable(schema.objects.len(), schema.enums.len())
    &&& match ty {
        Type::Vector(element) => element.spec_resolvable(
            schema.objects.len(),
            schema.enums.len(),
        ),
        _ => true,
    }
}

/// Buffers can be checked against the schema: it is well formed, and the type of every
/// field can be checked.
pub open spec fn spec_verifiable(schema: SchemaView) -> bool {
    &&& schema.well_formed()
    &&& forall|o: int, j: int|
        0 <= o < schema.objects.len() && 0 <= j < schema.objects[o].fields.len()
            ==> spec_type_checkable(schema, #[trigger] schema.objects[o].fields[j].field_type)
}

/// The table that the discriminant `tag` of the union over the enum `e` stands for: none
/// for the discriminant 0, for one that no value of the enum has, and for a value that names
/// no table of the schema.
pub open spec fn spec_variant(schema: SchemaView, e: usize, tag: u8) -> Option<usize> {
    if tag == 0 || e >= schema.enums.len() {
        None
    } else {
        let values = schema.enums[e as int].values;
        let k = spec_index_of_value(values, tag as i64);
        if k < values.len() {
            match values[k].union_type {
                Some(object) => if object < schema.objects.len() {
                    Some(object)
                } else {
                    None
                },
                None => None,
            }
        } else {
            None
        }
    }
}

/// The elements of a vector of this type are stored by reference: strings and tables.
pub open spec fn spec_element_by_reference(schema: SchemaView, element: Type) -> bool {
    match element {
        Type::String => true,
        Type::Obj(index) => !schema.objects[index as int].is_struct,
        _ => false,
    }
}

/// What the check of a vector of inline elements at `loc` gives: the length has to be
/// readable, and that many elements of the given size have to lie in the buffer.
pub open spec fn spec_verify_scalar_elements(
    buf: Seq<u8>,
    loc: usize,
    scalar_size: usize,
) -> Result<(), Error> {
    match spec_try_read_uoffset(buf, loc) {
        Err(e) => Err(e),
        Ok(len) => if loc + SIZE_OF_UOFFSET + len * scalar_size <= buf.len() {
            Ok(())
        } else {
            Err(Error::OutOfBounds)
        },
    }
}

/// What the check of the table at `loc` against the object `object` gives: the first
/// failure on the way through its header and then its fields in the order of their slots.
pub open spec fn spec_verify_table(
    buf: Seq<u8>,
    schema: SchemaView,
    object: usize,
    loc: usize,
) -> Result<(), Error>
    decreases spec_remaining(buf.len(), loc), 3nat, 0nat,
{
    match spec_table_header(buf, loc) {
        None => Err(Error::OutOfBounds),
        Some(_) => spec_verify_fields(buf, schema, object, loc, 0),
    }
}

/// What the check of the fields from the `j`-th on gives.
pub open spec fn spec_verify_fields(
    buf: Seq<u8>,
    schema: SchemaView,
    object: usize,
    loc: usize,
    j: nat,
) -> Result<(), Error>
    decreases spec_remaining(buf.len(), loc), 2nat, schema.objects[object as int].fields.len() - j,
{
    let fields = schema.objects[object as int].fields;
    if j >= fields.len() {
        Ok(())
    } else {
        match spec_verify_field(
            buf,
            schema,
            loc,
            fields[j as int].field_type,
            fields[j as int].offset as usize,
        ) {
            Err(e) => Err(e),
            Ok(_) => spec_verify_fields(buf, schema, object, loc, j + 1),
        }
    }
}

/// What the check of one field of the table at `loc` gives. The field has type `ty` and
/// its slot starts `vt` bytes into the vtable. An absent field passes. A field that is there
/// has to lie behind the header and end inside the table; where it is stored by reference,
/// the offset is followed, which leads to a place above the table, and what lies there is
/// checked. A union has to have a discriminant that names a table.
pub open spec fn spec_verify_field(
    buf: Seq<u8>,
    schema: SchemaView,
    loc: usize,
    ty: Type,
    vt: usize,
) -> Result<(), Error>
    decreases spec_remaining(buf.len(), loc), 1nat, 0nat,
{
    match spec_table_header(buf, loc) {
        None => Err(Error::OutOfBounds),
        Some(header) => {
            let voffset = spec_field_slot(buf, header, vt);
            if voffset == 0 {
                Ok(())
            } else if voffset < SIZE_OF_SOFFSET || voffset >= header.inline_size {
                Err(Error::OutOfBounds)
            } else if !schema.type_is_reference(ty) {
                if voffset + schema.type_size(ty) > header.inline_size {
                    Err(Error::OutOfBounds)
                } else {
                    Ok(())
                }
            } else if voffset + SIZE_OF_UOFFSET > header.inline_size {
                Err(Error::OutOfBounds)
            } else {
                match ty {
                    Type::Union(e) => {
                        let tag_slot = if vt >= SIZE_OF_VOFFSET {
                            spec_field_slot(buf, header, (vt - SIZE_OF_VOFFSET) as usize)
                        } else {
                            0
                        };
                        if tag_slot >= header.inline_size {
                            Err(Error::OutOfBounds)
                        } else {
                            let tag = if tag_slot == 0 {
                                0u8
                            } else {
                                buf[loc + tag_slot]
                            };
                            match spec_variant(schema, e, tag) {
                                None => Err(Error::UnmatchedUnion),
                                Some(variant) => match spec_try_follow_uoffset(
                                    buf,
                                    (loc + voffset) as usize,
                                ) {
                                    Err(e) => Err(e),
                                    Ok(child) => if spec_above(buf, loc, child) {
                                        spec_verify_table(buf, schema, variant, child)
                                    } else {
                                        Err(Error::OutOfBounds)
                                    },
                                },
                            }
                        }
                    },
                    _ => match spec_try_follow_uoffset(buf, (loc + voffset) as usize) {
                        Err(e) => Err(e),
                        Ok(child) => if spec_above(buf, loc, child) {
                            match ty {
                                Type::String => spec_verify_string(buf, child),
                                Type::Vector(element) => spec_verify_vector(
                                    buf,
                                    schema,
                                    *element,
                                    child,
                                ),
                                Type::Obj(index) => spec_verify_table(buf, schema, index, child),
                                _ => Ok(()),
                            }
                        } else {
                            Err(Error::OutOfBounds)
                        },
                    },
                }
            }
        },
    }
}

/// What the check of the vector at `loc` gives, its elements being of type `element`.
pub open spec fn spec_verify_vector(
    buf: Seq<u8>,
    schema: SchemaView,
    element: Type,
    loc: usize,
) -> Result<(), Error>
    decreases spec_remaining(buf.len(), loc), 3nat, 0nat,
{
    if spec_element_by_reference(schema, element) {
        spec_verify_reference_elements(buf, schema, element, loc)
    } else {
        spec_verify_scalar_elements(buf, loc, schema.type_size(element))
    }
}

/// What the check of a vector of references at `loc` gives: the length has to be readable,
/// that many offsets have to lie in the buffer, and each element has to pass in turn.
pub open spec fn spec_verify_reference_elements(
    buf: Seq<u8>,
    schema: SchemaView,
    element: Type,
    loc: usize,
) -> Result<(), Error>
    decreases spec_remaining(buf.len(), loc), 2nat, usize::MAX + 1,
{
    match spec_try_read_uoffset(buf, loc) {
        Err(e) => Err(e),
        Ok(len) => if loc + SIZE_OF_UOFFSET + len * SIZE_OF_UOFFSET > buf.len() {
            Err(Error::OutOfBounds)
        } else {
            spec_verify_elements(buf, schema, element, loc, 0, len as nat)
        },
    }
}

/// What the check of the elements from the `k`-th on gives, of the `n` that the vector of
/// references at `loc` holds. Each offset is followed, which leads to a place above the
/// vector, and what lies there is checked.
pub open spec fn spec_verify_elements(
    buf: Seq<u8>,
    schema: SchemaView,
    element: Type,
    loc: usize,
    k: nat,
    n: nat,
) -> Result<(), Error>
    decreases spec_remaining(buf.len(), loc), 1nat, n - k,
{
    if k >= n {
        Ok(())
    } else if loc + SIZE_OF_UOFFSET + n * SIZE_OF_UOFFSET > buf.len() {
        Err(Error::OutOfBounds)
    } else {
        let offset_loc = loc + SIZE_OF_UOFFSET + k * SIZE_OF_UOFFSET;
        let element_loc = offset_loc + spec_read_uoffset(buf, offset_loc);
        if element_loc > usize::MAX || !spec_above(buf, loc, element_loc as usize) {
            Err(Error::OutOfBounds)
        } else {
            let checked = match element {
                Type::String => spec_verify_string(buf, element_loc as usize),
                Type::Obj(index) => spec_verify_table(buf, schema, index, element_loc as usize),
                _ => Ok(()),
            };
            match checked {
                Err(e) => Err(e),
                Ok(_) => spec_verify_elements(buf, schema, element, loc, k + 1, n),
            }
        }
    }
}

/// Reads the header of the table at `loc` and checks the slots of its vtable.
pub fn table_header(buf: &[u8], loc: usize) -> (r: Result<TableHeader, Error>)
    ensures
        r == (match spec_table_header(buf@, loc) {
            Some(header) => Ok::<TableHeader, Error>(header),
            None => Err::<TableHeader, Error>(Error::OutOfBounds),
        }),
{
    let buf_len = buf.len();
    if loc > MAX_OFFSET_LOC || loc + SIZE_OF_SOFFSET > buf_len {
        return Err(Error::OutOfBounds);
    }
    let soffset = read_soffset(buf, loc);
    let vtable_loc = if soffset >= 0 {
        loc.checked_sub(soffset as usize)
    } else if soffset == i32::MIN {
        None
    } else {
        loc.checked_add((-soffset) as usize)
    };
    let vtable_loc = match vtable_loc {
        Some(vtable_loc) => vtable_loc,
        None => {
            return Err(Error::OutOfBounds);
        },
    };
    match vtable_loc.checked_add(2 * SIZE_OF_VOFFSET) {
        Some(end) => {
            if end > buf_len {
                return Err(Error::OutOfBounds);
            }
        },
        None => {
            return Err(Error::OutOfBounds);
        },
    }
    let vtable_size = read_voffset(buf, vtable_loc);
    let inline_size = read_voffset(buf, vtable_loc + SIZE_OF_VOFFSET);
    if vtable_size < 2 * SIZE_OF_VOFFSET || inline_size < SIZE_OF_SOFFSET {
        return Err(Error::OutOfBounds);
    }
    if vtable_size > buf_len - vtable_loc || inline_size > buf_len - loc {
        return Err(Error::OutOfBounds);
    }
    let num_fields = vtable_size / SIZE_OF_VOFFSET - 2;
    let mut k: usize = 0;
    while k < num_fields
        invariant
            k <= num_fields,
            num_fields == spec_num_fields(vtable_size),
            vtable_size >= 4,
            vtable_loc + vtable_size <= buf@.len(),
            buf@.len() == buf_len,
            loc <= MAX_OFFSET_LOC,
            loc + SIZE_OF_SOFFSET <= buf@.len(),
            spec_vtable_loc(buf@, loc) == Some(vtable_loc),
            vtable_size == spec_read_voffset(buf@, vtable_loc as int),
            inline_size == spec_read_voffset(buf@, vtable_loc + 2),
            inline_size >= SIZE_OF_SOFFSET,
            loc + inline_size <= buf@.len(),
            forall|i: int|
                0 <= i < k ==> spec_slot_ok(#[trigger] spec_slot(buf@, vtable_loc, i), inline_size),
        decreases num_fields - k,
    {
        let voffset = read_voffset(buf, vtable_loc + 2 * SIZE_OF_VOFFSET + SIZE_OF_VOFFSET * k);
        assert(voffset == spec_slot(buf@, vtable_loc, k as int));
        if (voffset > 0 && voffset < SIZE_OF_SOFFSET) || voffset >= inline_size {
            return Err(Error::OutOfBounds);
        }
        k += 1;
    }
    Ok(TableHeader { vtable_loc, vtable_size, inline_size })
}

/// A table whose header can be read lies in the buffer with its vtable, and both are at
/// least as large as when they are empty.
pub proof fn lemma_header_in_bounds(buf: Seq<u8>, loc: usize, header: TableHeader)
    requires
        spec_table_header(buf, loc) == Some(header),
    ensures
        loc + SIZE_OF_SOFFSET <= buf.len(),
        header.inline_size >= SIZE_OF_SOFFSET,
        header.vtable_size >= 2 * SIZE_OF_VOFFSET,
        loc + header.inline_size <= buf.len(),
        header.vtable_loc + header.vtable_size <= buf.len(),
{
}

/// Looks up the entry of the vtable for the field whose slot starts `vt` bytes into it.
pub fn field_slot(buf: &[u8], header: &TableHeader, vt: usize) -> (voffset: usize)
    requires
        header.vtable_loc + header.vtable_size <= buf@.len(),
    ensures
        voffset == spec_field_slot(buf@, *header, vt),
{
    let buf_len = buf.len();
    if vt <= header.vtable_size && SIZE_OF_VOFFSET <= header.vtable_size - vt {
        read_voffset(buf, header.vtable_loc + vt)
    } else {
        0
    }
}

/// Finds where a field of a table stands. A field that is absent has no place, and is read
/// as its default.
pub fn field_location(buf: &[u8], loc: usize, vt: usize) -> (place: Option<usize>)
    ensures
        place == spec_field_location(buf@, loc, vt),
{
    match table_header(buf, loc) {
        Err(_) => None,
        Ok(header) => {
            proof {
                lemma_header_in_bounds(buf@, loc, header);
            }
            let voffset = field_slot(buf, &header, vt);
            if voffset == 0 {
                None
            } else {
                loc.checked_add(voffset)
            }
        },
    }
}

fn value_index(e: &Enum, number: i64) -> (i: usize)
    ensures
        i == spec_index_of_value(e.deep_view().values, number),
        i <= e.values@.len(),
{
    let ghost values = e.deep_view().values;
    let mut i: usize = 0;
    assert(values.subrange(0, values.len() as int) =~= values);
    while i < e.values.len() && e.values[i].value != number
        invariant
            i <= e.values@.len(),
            values == e.values.deep_view(),
            spec_index_of_value(values, number) == i + spec_index_of_value(
                values.subrange(i as int, values.len() as int),
                number,
            ),
        decreases e.values@.len() - i,
    {
        proof {
            let tail = values.subrange(i as int, values.len() as int);
            assert(tail[0] == values[i as int]);
            assert(values[i as int] == e.values@[i as int].deep_view());
            assert(tail.drop_first() =~= values.subrange(i + 1, values.len() as int));
        }
        i += 1;
    }
    proof {
        let tail = values.subrange(i as int, values.len() as int);
        if i < e.values@.len() {
            assert(tail[0] == values[i as int]);
            assert(values[i as int] == e.values@[i as int].deep_view());
        }
    }
    i
}

/// Finds the table that a discriminant of a union stands for.
pub fn variant(schema: &Schema, e: usize, tag: u8) -> (r: Option<usize>)
    ensures
        r == spec_variant(schema.deep_view(), e, tag),
{
    if tag == 0 || e >= schema.enums.len() {
        return None;
    }
    assert(schema.deep_view().enums[e as int] == schema.enums@[e as int].deep_view());
    let values = &schema.enums[e].values;
    let k = value_index(&schema.enums[e], tag as i64);
    if k < values.len() {
        assert(schema.deep_view().enums[e as int].values[k as int]
            == values@[k as int].deep_view());
        match values[k].union_type {
            Some(object) => if object < schema.objects.len() {
                Some(object)
            } else {
                None
            },
            None => None,
        }
    } else {
        None
    }
}

/// Tells whether buffers can be checked against the schema.
pub fn verifiable(schema: &Schema) -> (r: bool)
    ensures
        r == spec_verifiable(schema.deep_view()),
{
    let ghost view = schema.deep_view();
    let n_objects = schema.objects.len();
    let n_enums = schema.enums.len();
    let mut i: usize = 0;
    while i < n_enums
        invariant
            i <= n_enums,
            n_enums == schema.enums@.len(),
            n_objects == schema.objects@.len(),
            view == schema.deep_view(),
            forall|k: int|
                0 <= k < i ==> {
                    &&& !((#[trigger] view.enums[k]).underlying_type is Enum)
                    &&& view.enums[k].underlying_type.spec_resolvable(
                        view.objects.len(),
                        view.enums.len(),
                    )
                },
        decreases n_enums - i,
    {
        assert(view.enums[i as int] == schema.enums@[i as int].deep_view());
        let underlying = &schema.enums[i].underlying_type;
        if underlying.is_enum() || !underlying.resolvable(n_objects, n_enums) {
            return false;
        }
        i += 1;
    }
    let mut o: usize = 0;
    while o < n_objects
        invariant
            o <= n_objects,
            n_enums == schema.enums@.len(),
            n_objects == schema.objects@.len(),
            view == schema.deep_view(),
            view.well_formed(),
            forall|p: int, j: int|
                0 <= p < o && 0 <= j < view.objects[p].fields.len() ==> spec_type_checkable(
                    view,
                    #[trigger] view.objects[p].fields[j].field_type,
                ),
        decreases n_objects - o,
    {
        assert(view.objects[o as int] == schema.objects@[o as int].deep_view());
        let fields = &schema.objects[o].fields;
        let mut j: usize = 0;
        while j < fields.len()
            invariant
                j <= fields@.len(),
                o < n_objects,
                n_enums == schema.enums@.len(),
                n_objects == schema.objects@.len(),
                view == schema.deep_view(),
                fields.deep_view() == view.objects[o as int].fields,
                forall|i: int|
                    0 <= i < j ==> spec_type_checkable(
                        view,
                        #[trigger] view.objects[o as int].fields[i].field_type,
                    ),
            decreases fields@.len() - j,
        {
            assert(fields.deep_view()[j as int] == fields@[j as int].deep_view());
            let ty = &fields[j].field_type;
            if !ty.resolvable(n_objects, n_enums) {
                assert(!spec_type_checkable(
                    view,
                    view.objects[o as int].fields[j as int].field_type,
                ));
                return false;
            }
            match ty {
                Type::Vector(element) => {
                    if !element.resolvable(n_objects, n_enums) {
                        assert(!spec_type_checkable(
                            view,
                            view.objects[o as int].fields[j as int].field_type,
                        ));
                        return false;
                    }
                },
                _ => {},
            }
            j += 1;
        }
        o += 1;
    }
    true
}

/// Checks a vector of inline elements of the given size where it is stored.
pub fn verify_scalar_elements(buf: &[u8], loc: usize, scalar_size: usize) -> (r: Result<
    (),
    Error,
>)
    ensures
        r == spec_verify_scalar_elements(buf@, loc, scalar_size),
{
    let len = match try_read_uoffset(buf, loc) {
        Ok(len) => len,
        Err(e) => {
            return Err(e);
        },
    };
    let start = loc + SIZE_OF_UOFFSET;
    if scalar_size == 0 {
        assert(len * scalar_size == 0) by (nonlinear_arith)
            requires
                scalar_size == 0,
        ;
        return Ok(());
    }
    let room = buf.len() - start;
    proof {
        let q = room as int / scalar_size as int;
        vstd::arithmetic::div_mod::lemma_fundamental_div_mod(room as int, scalar_size as int);
        if len <= q {
            assert(len * scalar_size <= q * scalar_size) by (nonlinear_arith)
                requires
                    len <= q,
                    scalar_size > 0,
            ;
            assert(q * scalar_size == scalar_size * q) by (nonlinear_arith);
        } else {
            assert(len * scalar_size >= (q + 1) * scalar_size) by (nonlinear_arith)
                requires
                    len >= q + 1,
                    scalar_size > 0,
            ;
            assert((q + 1) * scalar_size == scalar_size * q + scalar_size) by (nonlinear_arith);
        }
    }
    if len <= room / scalar_size {
        Ok(())
    } else {
        Err(Error::OutOfBounds)
    }
}

/// Checks the table at `loc` against the object `object` of the schema.
pub fn verify_table(buf: &[u8], schema: &Schema, object: usize, loc: usize) -> (r: Result<
    (),
    Error,
>)
    requires
        spec_verifiable(schema.deep_view()),
        object < schema.objects@.len(),
    ensures
        r == spec_verify_table(buf@, schema.deep_view(), object, loc),
    decreases spec_remaining(buf@.len(), loc), 3nat, 0nat,
{
    let header = match table_header(buf, loc) {
        Ok(header) => header,
        Err(e) => {
            return Err(e);
        },
    };
    let ghost view = schema.deep_view();
    assert(view.objects[object as int] == schema.objects@[object as int].deep_view());
    let fields = &schema.objects[object].fields;
    let mut j: usize = 0;
    while j < fields.len()
        invariant
            j <= fields@.len(),
            object < schema.objects@.len(),
            view == schema.deep_view(),
            spec_verifiable(view),
            fields.deep_view() == view.objects[object as int].fields,
            spec_table_header(buf@, loc) == Some(header),
            spec_verify_table(buf@, view, object, loc) == spec_verify_fields(
                buf@,
                view,
                object,
                loc,
                j as nat,
            ),
        decreases fields@.len() - j,
    {
        assert(fields.deep_view()[j as int] == fields@[j as int].deep_view());
        assert(spec_type_checkable(view, view.objects[object as int].fields[j as int].field_type));
        match verify_field(
            buf,
            schema,
            &header,
            loc,
            &fields[j].field_type,
            fields[j].offset as usize,
        ) {
            Ok(_) => {},
            Err(e) => {
                return Err(e);
            },
        }
        j += 1;
    }
    Ok(())
}

/// Checks one field of the table at `loc`, whose header has been read.
pub fn verify_field(
    buf: &[u8],
    schema: &Schema,
    header: &TableHeader,
    loc: usize,
    ty: &Type,
    vt: usize,
) -> (r: Result<(), Error>)
    requires
        spec_verifiable(schema.deep_view()),
        spec_type_checkable(schema.deep_view(), *ty),
        spec_table_header(buf@, loc) == Some(*header),
    ensures
        r == spec_verify_field(buf@, schema.deep_view(), loc, *ty, vt),
    decreases spec_remaining(buf@.len(), loc), 1nat, 0nat,
{
    proof {
        lemma_header_in_bounds(buf@, loc, *header);
    }
    let buf_len = buf.len();
    let voffset = field_slot(buf, header, vt);
    if voffset == 0 {
        return Ok(());
    }
    if voffset < SIZE_OF_SOFFSET || voffset >= header.inline_size {
        return Err(Error::OutOfBounds);
    }
    if !schema.type_is_reference(ty) {
        if schema.type_size(ty) > header.inline_size - voffset {
            return Err(Error::OutOfBounds);
        }
        return Ok(());
    }
    if SIZE_OF_UOFFSET > header.inline_size - voffset {
        return Err(Error::OutOfBounds);
    }
    match ty {
        Type::Union(e) => {
            let tag_slot = if vt >= SIZE_OF_VOFFSET {
                field_slot(buf, header, vt - SIZE_OF_VOFFSET)
            } else {
                0
            };
            if tag_slot >= header.inline_size {
                return Err(Error::OutOfBounds);
            }
            let tag = if tag_slot == 0 {
                0u8
            } else {
                buf[loc + tag_slot]
            };
            match variant(schema, *e, tag) {
                None => Err(Error::UnmatchedUnion),
                Some(object) => match try_follow_uoffset(buf, loc + voffset) {
                    Err(e) => Err(e),
                    Ok(child) => verify_table(buf, schema, object, child),
                },
            }
        },
        _ => match try_follow_uoffset(buf, loc + voffset) {
            Err(e) => Err(e),
            Ok(child) => match ty {
                Type::String => StringVerifier::follow(buf, child).verify(),
                Type::Vector(element) => verify_vector(buf, schema, element, child),
                Type::Obj(index) => verify_table(buf, schema, *index, child),
                _ => Ok(()),
            },
        },
    }
}

/// Checks the vector at `loc`, whose elements are of type `element`.
pub fn verify_vector(buf: &[u8], schema: &Schema, element: &Type, loc: usize) -> (r: Result<
    (),
    Error,
>)
    requires
        spec_verifiable(schema.deep_view()),
        element.spec_resolvable(schema.objects@.len(), schema.enums@.len()),
    ensures
        r == spec_verify_vector(buf@, schema.deep_view(), *element, loc),
    decreases spec_remaining(buf@.len(), loc), 3nat, 0nat,
{
    let by_reference = match element {
        Type::String => true,
        Type::Obj(index) => !schema.objects[*index].is_struct,
        _ => false,
    };
    if by_reference {
        verify_reference_elements(buf, schema, element, loc)
    } else {
        verify_scalar_elements(buf, loc, schema.type_size(element))
    }
}

/// Checks the vector of references at `loc`, whose elements are strings or tables.
pub fn verify_reference_elements(buf: &[u8], schema: &Schema, element: &Type, loc: usize) -> (r:
    Result<(), Error>)
    requires
        spec_verifiable(schema.deep_view()),
        element.spec_resolvable(schema.objects@.len(), schema.enums@.len()),
    ensures
        r == spec_verify_reference_elements(buf@, schema.deep_view(), *element, loc),
    decreases spec_remaining(buf@.len(), loc), 2nat, usize::MAX + 1,
{
    let len = match try_read_uoffset(buf, loc) {
        Ok(len) => len,
        Err(e) => {
            return Err(e);
        },
    };
    let mut offset_loc = loc + SIZE_OF_UOFFSET;
    if len > (buf.len() - offset_loc) / SIZE_OF_UOFFSET {
        return Err(Error::OutOfBounds);
    }
    let end_loc = offset_loc + len * SIZE_OF_UOFFSET;
    let ghost view = schema.deep_view();
    let mut k: usize = 0;
    while offset_loc < end_loc
        invariant
            k <= len,
            offset_loc == loc + SIZE_OF_UOFFSET + k * SIZE_OF_UOFFSET,
            end_loc == loc + SIZE_OF_UOFFSET + len * SIZE_OF_UOFFSET,
            end_loc <= buf@.len(),
            view == schema.deep_view(),
            spec_verifiable(view),
            element.spec_resolvable(schema.objects@.len(), schema.enums@.len()),
            spec_verify_reference_elements(buf@, view, *element, loc) == spec_verify_elements(
                buf@,
                view,
                *element,
                loc,
                k as nat,
                len as nat,
            ),
        decreases len - k,
    {
        let element_loc = match offset_loc.checked_add(read_uoffset(buf, offset_loc)) {
            Some(element_loc) => element_loc,
            None => {
                return Err(Error::OutOfBounds);
            },
        };
        let checked = match element {
            Type::String => StringVerifier::follow(buf, element_loc).verify(),
            Type::Obj(index) => verify_table(buf, schema, *index, element_loc),
            _ => Ok(()),
        };
        match checked {
            Ok(_) => {},
            Err(e) => {
                return Err(e);
            },
        }
        offset_loc += SIZE_OF_UOFFSET;
        k += 1;
    }
    Ok(())
}

} // verus!
