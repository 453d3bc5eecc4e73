use crate::alignment::lemma_align_is_least_multiple;
use crate::builder::buffer::{spec_voffset_bytes, BuilderView};
use crate::builder::component::{
    spec_fields_nbytes, spec_fields_well_formed, Component, TableComponent, TableField,
};
use crate::builder::emit::{spec_build, spec_len_bytes};
use crate::builder::layout::spec_table_frame;
use crate::builder::tree::{spec_fits_format, spec_laid_out};
use crate::builder::vtable::{spec_entered_at, spec_entry, spec_slot_bytes, spec_vtable_len};
use crate::scalar::lemma_u32_le_round_trip;
use crate::schema::model::{Schema, SchemaView, Type};
use crate::validation::conformance::{spec_is_a, spec_verify_reference};
use crate::validation::offsets::{
    spec_read_soffset, spec_read_uoffset, spec_read_voffset, Error,
};
use crate::validation::string::spec_verify_string;
use crate::validation::table::{
    spec_field_location, spec_field_slot, spec_num_fields, spec_slot, spec_slot_ok,
    spec_table_header, spec_verify_field, spec_verify_fields, spec_verify_scalar_elements,
    spec_vtable_loc, TableHeader,
};
use vstd::prelude::*;

verus! {

/// A length that fits thirty-two bits is read back from the four bytes that were written
/// for it, wherever they stand in a buffer.
pub(crate) proof fn lemma_length_reads_back(buffer: Seq<u8>, at: int, n: int)
    requires
        0 <= at,
        at + 4 <= buffer.len(),
        0 <= n < 0x1_0000_0000,
        buffer.subrange(at, at + 4) == spec_len_bytes(n),
    ensures
        spec_read_uoffset(buffer, at) == n,
{
    let v = n as u32;
    vstd::arithmetic::div_mod::lemma_small_mod(n as nat, 0x1_0000_0000);
    let written = crate::scalar::spec_u32_le(v);
    assert(spec_len_bytes(n) == written);
    assert(crate::scalar::spec_u32_from_le(written) == v) by {
        lemma_u32_le_round_trip(v, Seq::empty());
        assert(written + Seq::<u8>::empty() =~= written);
    }
}

/// A number that fits sixteen bits is read back from the two bytes that were written for
/// it, wherever they stand in a buffer.
pub(crate) proof fn lemma_entry_reads_back(buffer: Seq<u8>, at: int, n: int)
    requires
        0 <= at,
        at + 2 <= buffer.len(),
        0 <= n < 0x1_0000,
        buffer.subrange(at, at + 2) == spec_voffset_bytes(n),
    ensures
        spec_read_voffset(buffer, at) == n,
{
    let v = n as u16;
    vstd::arithmetic::div_mod::lemma_small_mod(n as nat, 0x1_0000);
    let written = crate::scalar::spec_u16_le(v);
    assert(spec_voffset_bytes(n) == written);
    assert(crate::scalar::spec_u16_from_le(written) == v) by {
        crate::scalar::lemma_u16_le_round_trip(v, Seq::empty());
        assert(written + Seq::<u8>::empty() =~= written);
    }
}

/// Every field takes at least one byte.
pub open spec fn spec_fields_take_room(fields: Seq<TableField>) -> bool {
    forall|j: int| 0 <= j < fields.len() ==> (#[trigger] fields[j]).value.spec_size() > 0
}

/// The header that the check reads from a table that lies in the buffer as the format asks.
pub open spec fn spec_header_of(
    start: int,
    vtable_position: int,
    fields: Seq<TableField>,
) -> TableHeader {
    TableHeader {
        vtable_loc: vtable_position as usize,
        vtable_size: spec_vtable_len(fields, fields.len()) as usize,
        inline_size: (spec_fields_nbytes(fields, fields.len()) + 4) as usize,
    }
}

/// The entry of a field that takes room lies behind the header of the table and before
/// the end of the field, which lies in the table.
pub(crate) proof fn lemma_entry_in_table(fields: Seq<TableField>, alignment: usize, j: int)
    requires
        spec_fields_well_formed(fields, alignment, fields.len()),
        0 <= j < fields.len(),
    ensures
        4 <= spec_entry(fields, j),
        spec_entry(fields, j) + fields[j].value.spec_size() == spec_fields_nbytes(
            fields,
            (j + 1) as nat,
        ) + 4,
        spec_fields_nbytes(fields, (j + 1) as nat) <= spec_fields_nbytes(fields, fields.len()),
{
    crate::builder::layout::lemma_nbytes_grow(fields, alignment, (j + 1) as nat, fields.len());
    crate::builder::layout::lemma_nbytes_not_negative(fields, alignment, j as nat);
    crate::builder::emit::lemma_fields_well_formed_index(fields, alignment, fields.len(), j);
    lemma_align_is_least_multiple(
        spec_fields_nbytes(fields, j as nat),
        fields[j].alignment as int,
    );
}

/// What the vtable of a table says of the slot `s`: the entry of the field that was
/// entered there last, or zero.
pub open spec fn spec_slot_value(fields: Seq<TableField>, s: int) -> int {
    match spec_entered_at(fields, fields.len(), s) {
        Some(j) => spec_entry(fields, j),
        None => 0,
    }
}

/// The check reads from the vtable of a table that lies in the buffer as the format asks
/// what the vtable says of each slot, where the table with its header fits sixteen bits.
pub(crate) proof fn lemma_slot_reads_back(
    buffer: Seq<u8>,
    start: int,
    position: int,
    fields: Seq<TableField>,
    alignment: usize,
    s: int,
)
    requires
        spec_fields_well_formed(fields, alignment, fields.len()),
        spec_fields_take_room(fields),
        spec_table_frame(buffer, start, position, fields),
        spec_fields_nbytes(fields, fields.len()) + 4 < 0x1_0000,
        4 <= s < spec_vtable_len(fields, fields.len()),
        s % 2 == 0,
    ensures
        spec_read_voffset(buffer, position + s) == spec_slot_value(fields, s),
        spec_slot_value(fields, s) == 0 || 4 <= spec_slot_value(fields, s) < spec_fields_nbytes(
            fields,
            fields.len(),
        ) + 4,
{
    let n = fields.len();
    let length = spec_vtable_len(fields, n);
    let vtable = buffer.subrange(position, position + length);
    crate::builder::vtable::lemma_vtable_len_even(fields, alignment, n);
    crate::builder::layout::lemma_nbytes_not_negative(fields, alignment, n);
    assert(s + 2 <= length);
    assert(position + length <= buffer.len());
    assert(buffer.subrange(position + s, position + s + 2) =~= vtable.subrange(s, s + 2));
    assert(vtable.subrange(s, s + 2) == spec_slot_bytes(fields, n, s));
    crate::builder::vtable::lemma_entered_at(fields, n, s);
    match spec_entered_at(fields, n, s) {
        Some(j) => {
            lemma_entry_in_table(fields, alignment, j);
            assert(fields[j].value.spec_size() > 0);
            lemma_entry_reads_back(buffer, position + s, spec_entry(fields, j));
        },
        None => {
            assert(spec_voffset_bytes(0) =~= seq![0u8, 0u8]);
            lemma_entry_reads_back(buffer, position + s, 0);
        },
    }
}

/// The check finds the vtable of a table where the table points to.
pub(crate) proof fn lemma_vtable_is_found(buffer: Seq<u8>, start: usize, position: usize)
    requires
        start + 4 <= buffer.len(),
        position <= start,
        start - position < 0x8000_0000,
        buffer.subrange(start as int, start + 4) == spec_len_bytes(start - position),
    ensures
        spec_vtable_loc(buffer, start) == Some(position),
{
    assert(spec_read_soffset(buffer, start as int) == start - position) by {
        lemma_length_reads_back(buffer, start as int, start - position);
    }
}

/// The check reads the two sizes that the vtable of a table starts with.
pub(crate) proof fn lemma_sizes_read_back(
    buffer: Seq<u8>,
    start: int,
    position: int,
    fields: Seq<TableField>,
    alignment: usize,
)
    requires
        spec_fields_well_formed(fields, alignment, fields.len()),
        spec_table_frame(buffer, start, position, fields),
        spec_vtable_len(fields, fields.len()) < 0x1_0000,
        spec_fields_nbytes(fields, fields.len()) + 4 < 0x1_0000,
    ensures
        spec_read_voffset(buffer, position) == spec_vtable_len(fields, fields.len()),
        spec_read_voffset(buffer, position + 2) == spec_fields_nbytes(fields, fields.len()) + 4,
{
    let n = fields.len();
    let length = spec_vtable_len(fields, n);
    let inline = spec_fields_nbytes(fields, n) + 4;
    let vtable = buffer.subrange(position, position + length);
    crate::builder::vtable::lemma_vtable_len_even(fields, alignment, n);
    crate::builder::layout::lemma_nbytes_not_negative(fields, alignment, n);
    assert(position + length <= buffer.len());
    assert(spec_read_voffset(buffer, position) == length) by {
        assert(buffer.subrange(position, position + 2) =~= vtable.subrange(0, 2));
        lemma_entry_reads_back(buffer, position, length);
    }
    assert(spec_read_voffset(buffer, position + 2) == inline) by {
        assert(buffer.subrange(position + 2, position + 4) =~= vtable.subrange(2, 4));
        lemma_entry_reads_back(buffer, position + 2, inline);
    }
}

/// Every slot of the vtable of a table that lies in the buffer as the format asks is in
/// order.
pub(crate) proof fn lemma_slots_in_order(
    buffer: Seq<u8>,
    start: int,
    position: usize,
    fields: Seq<TableField>,
    alignment: usize,
)
    requires
        spec_fields_well_formed(fields, alignment, fields.len()),
        spec_fields_take_room(fields),
        spec_table_frame(buffer, start, position as int, fields),
        spec_vtable_len(fields, fields.len()) < 0x1_0000,
        spec_fields_nbytes(fields, fields.len()) + 4 < 0x1_0000,
    ensures
        forall|k: int|
            0 <= k < spec_num_fields(spec_vtable_len(fields, fields.len()) as usize)
                ==> spec_slot_ok(
                #[trigger] spec_slot(buffer, position, k),
                (spec_fields_nbytes(fields, fields.len()) + 4) as usize,
            ),
{
    let n = fields.len();
    let length = spec_vtable_len(fields, n);
    crate::builder::vtable::lemma_vtable_len_even(fields, alignment, n);
    crate::builder::layout::lemma_nbytes_not_negative(fields, alignment, n);
    assert forall|k: int| 0 <= k < spec_num_fields(length as usize) implies spec_slot_ok(
        #[trigger] spec_slot(buffer, position, k),
        (spec_fields_nbytes(fields, n) + 4) as usize,
    ) by {
        lemma_slot_reads_back(buffer, start, position as int, fields, alignment, 4 + 2 * k);
    }
}

/// A table that lies in the buffer as the format asks has a header that the check can
/// read: the vtable is found where the table points to, the two sizes are those of the
/// vtable and the table, and every slot is in order. This asks that the sizes fit sixteen
/// bits, that the distance from the vtable to the table fits thirty-one, and that every
/// field takes room.
pub proof fn lemma_laid_out_table_has_header(
    buffer: Seq<u8>,
    start: usize,
    position: usize,
    fields: Seq<TableField>,
    alignment: usize,
)
    requires
        spec_fields_well_formed(fields, alignment, fields.len()),
        spec_fields_take_room(fields),
        spec_table_frame(buffer, start as int, position as int, fields),
        buffer.len() <= usize::MAX,
        start - position < 0x8000_0000,
        spec_vtable_len(fields, fields.len()) < 0x1_0000,
        spec_fields_nbytes(fields, fields.len()) + 4 < 0x1_0000,
    ensures
        spec_table_header(buffer, start) == Some(
            spec_header_of(start as int, position as int, fields),
        ),
{
    let n = fields.len();
    crate::builder::vtable::lemma_vtable_len_even(fields, alignment, n);
    crate::builder::layout::lemma_nbytes_not_negative(fields, alignment, n);
    lemma_vtable_is_found(buffer, start, position);
    lemma_sizes_read_back(buffer, start as int, position as int, fields, alignment);
    lemma_slots_in_order(buffer, start as int, position, fields, alignment);
}

/// No two fields have the same slot.
pub open spec fn spec_slots_differ(fields: Seq<TableField>) -> bool {
    forall|i: int, j: int|
        0 <= i < j < fields.len() ==> (#[trigger] fields[i]).slot != (#[trigger] fields[j]).slot
}

/// Where no two fields have the same slot, the field that was entered at the slot of a
/// field is that field.
pub(crate) proof fn lemma_entered_at_own_slot(fields: Seq<TableField>, k: nat, j: int)
    requires
        spec_slots_differ(fields),
        0 <= j < k <= fields.len(),
    ensures
        spec_entered_at(fields, k, fields[j].slot as int) == Some(j),
    decreases k,
{
    if j < k - 1 {
        lemma_entered_at_own_slot(fields, (k - 1) as nat, j);
    }
}

/// The four bytes that were written for a number are read as the low thirty-two bits of
/// the number.
pub(crate) proof fn lemma_length_reads_low_bits(buffer: Seq<u8>, at: int, n: int)
    requires
        0 <= at,
        at + 4 <= buffer.len(),
        0 <= n,
        buffer.subrange(at, at + 4) == spec_len_bytes(n),
    ensures
        spec_read_uoffset(buffer, at) == n % 0x1_0000_0000,
{
    let v = (n % 0x1_0000_0000) as u32;
    let written = crate::scalar::spec_u32_le(v);
    assert(spec_len_bytes(n) == written);
    assert(crate::scalar::spec_u32_from_le(written) == v) by {
        lemma_u32_le_round_trip(v, Seq::empty());
        assert(written + Seq::<u8>::empty() =~= written);
    }
}

/// A string that lies in a buffer passes the check of strings.
pub(crate) proof fn lemma_string_verifies(f: Seq<u8>, loc: usize, bytes: Seq<u8>)
    requires
        crate::builder::tree::spec_string_laid_out(f, loc as int, bytes),
        f.len() <= crate::builder::frame::MAX_BUFFER_LEN,
    ensures
        spec_verify_string(f, loc) == Ok::<(), Error>(()),
{
    lemma_length_reads_back(f, loc as int, bytes.len() as int);
}

/// A vector of inline values that lies in a buffer passes the check of such vectors for
/// the size of its elements, where its bytes are those of as many elements as it says.
pub(crate) proof fn lemma_scalar_vector_verifies(
    f: Seq<u8>,
    loc: usize,
    bytes: Seq<u8>,
    count: usize,
    size: usize,
)
    requires
        crate::builder::tree::spec_vector_laid_out(f, loc as int, bytes, count as int),
        count * size == bytes.len(),
        f.len() <= crate::builder::frame::MAX_BUFFER_LEN,
    ensures
        spec_verify_scalar_elements(f, loc, size) == Ok::<(), Error>(()),
{
    lemma_length_reads_low_bits(f, loc as int, count as int);
    let read = spec_read_uoffset(f, loc as int);
    if size == 0 {
        assert(read * size == 0) by (nonlinear_arith)
            requires
                size == 0,
        ;
    } else {
        assert(count <= bytes.len()) by (nonlinear_arith)
            requires
                count * size == bytes.len(),
                size >= 1,
                count >= 0,
        ;
        vstd::arithmetic::div_mod::lemma_small_mod(count as nat, 0x1_0000_0000);
        assert(read == count);
    }
}

/// What holds of a table that lies in a buffer as a table of an object of the schema.
pub open spec fn spec_table_premises(
    f: Seq<u8>,
    schema: SchemaView,
    object: usize,
    loc: usize,
    fields: Seq<TableField>,
    alignment: usize,
) -> bool {
    &&& spec_fields_well_formed(fields, alignment, fields.len())
    &&& spec_fields_take_room(fields)
    &&& spec_vtable_len(fields, fields.len()) < 0x1_0000
    &&& spec_fields_nbytes(fields, fields.len()) + 4 < 0x1_0000
    &&& f.len() <= crate::builder::frame::MAX_BUFFER_LEN
    &&& 0 <= crate::builder::tree::spec_vtable_of(f, loc as int) <= loc
    &&& crate::builder::tree::spec_table_own(
        f,
        loc as int,
        crate::builder::tree::spec_vtable_of(f, loc as int),
        fields,
    )
    &&& object < schema.objects.len()
    &&& crate::validation::conformance::spec_slots_regular(schema, object as int)
}

/// The check reads the discriminant of a union from a table that lies in a buffer as the
/// table holds it.
pub(crate) proof fn lemma_discriminant_reads_back(
    f: Seq<u8>,
    loc: usize,
    position: usize,
    fields: Seq<TableField>,
    alignment: usize,
    vt: int,
)
    requires
        spec_fields_well_formed(fields, alignment, fields.len()),
        spec_fields_take_room(fields),
        spec_vtable_len(fields, fields.len()) < 0x1_0000,
        spec_fields_nbytes(fields, fields.len()) + 4 < 0x1_0000,
        f.len() <= crate::builder::frame::MAX_BUFFER_LEN,
        position <= loc,
        crate::builder::tree::spec_table_own(f, loc as int, position as int, fields),
        crate::validation::conformance::spec_discriminant(fields, vt) is Some,
    ensures
        vt >= 6,
        ({
            let header = spec_header_of(loc as int, position as int, fields);
            let tag_slot = spec_field_slot(f, header, (vt - 2) as usize);
            &&& 4 <= tag_slot < header.inline_size
            &&& f[loc + tag_slot] == crate::validation::conformance::spec_discriminant(
                fields,
                vt,
            )->Some_0
        }),
{
    let n = fields.len();
    crate::builder::vtable::lemma_entered_at(fields, n, vt - 2);
    let j = spec_entered_at(fields, n, vt - 2)->Some_0;
    crate::builder::emit::lemma_fields_well_formed_index(fields, alignment, n, j);
    crate::builder::vtable::lemma_vtable_len_even(fields, alignment, n);
    crate::builder::layout::lemma_nbytes_not_negative(fields, alignment, n);
    lemma_slot_reads_back(f, loc as int, position as int, fields, alignment, vt - 2);
    lemma_entry_in_table(fields, alignment, j);
    let bytes = fields[j].value->Scalar_0@;
    let held = f.subrange(
        loc + spec_entry(fields, j),
        loc + 4 + spec_fields_nbytes(fields, (j + 1) as nat),
    );
    assert(held == bytes);
    assert(held[0] == f[loc + spec_entry(fields, j)]);
}

/// One field of a table that lies in a buffer passes the check, where what it points to
/// does.
pub(crate) proof fn lemma_field_verifies(
    f: Seq<u8>,
    schema: SchemaView,
    object: usize,
    loc: usize,
    fields: Seq<TableField>,
    alignment: usize,
    i: int,
)
    requires
        spec_table_premises(f, schema, object, loc, fields, alignment),
        0 <= i < schema.objects[object as int].fields.len(),
        match spec_entered_at(
            fields,
            fields.len(),
            schema.objects[object as int].fields[i].offset as int,
        ) {
            None => true,
            Some(j) => {
                let ty = schema.objects[object as int].fields[i].field_type;
                if schema.type_is_reference(ty) {
                    &&& !(crate::validation::conformance::spec_pointed_type(
                        schema,
                        ty,
                        fields,
                        schema.objects[object as int].fields[i].offset as int,
                    ) is Union)
                    &&& fields[j].value is Reference
                    &&& crate::builder::tree::spec_target(f, loc + spec_entry(fields, j)) >= loc
                        + spec_entry(fields, j) + 4
                    &&& crate::builder::tree::spec_target(f, loc + spec_entry(fields, j))
                        <= usize::MAX
                    &&& crate::validation::conformance::spec_verify_reference(
                        f,
                        schema,
                        crate::validation::conformance::spec_pointed_type(
                            schema,
                            ty,
                            fields,
                            schema.objects[object as int].fields[i].offset as int,
                        ),
                        crate::builder::tree::spec_target(f, loc + spec_entry(fields, j)) as usize,
                    ) == Ok::<(), Error>(())
                } else {
                    schema.type_size(ty) == fields[j].value.spec_size()
                }
            },
        },
    ensures
        spec_verify_field(
            f,
            schema,
            loc,
            schema.objects[object as int].fields[i].field_type,
            schema.objects[object as int].fields[i].offset as usize,
        ) == Ok::<(), Error>(()),
{
    let declared = schema.objects[object as int].fields;
    let position = crate::builder::tree::spec_vtable_of(f, loc as int) as usize;
    let n = fields.len();
    let vt = declared[i].offset as usize;
    let ty = declared[i].field_type;
    lemma_laid_out_table_has_header(f, loc, position, fields, alignment);
    let header = spec_header_of(loc as int, position as int, fields);
    crate::builder::vtable::lemma_vtable_len_even(fields, alignment, n);
    crate::builder::layout::lemma_nbytes_not_negative(fields, alignment, n);
    crate::builder::vtable::lemma_entered_at(fields, n, vt as int);
    if vt + 2 <= header.vtable_size {
        lemma_slot_reads_back(f, loc as int, position as int, fields, alignment, vt as int);
        match spec_entered_at(fields, n, vt as int) {
            Some(j) => {
                lemma_entry_in_table(fields, alignment, j);
                let voffset = spec_entry(fields, j);
                assert(spec_field_slot(f, header, vt) == voffset);
                if schema.type_is_reference(ty) {
                    let at = (loc + voffset) as usize;
                    let child = crate::builder::tree::spec_target(f, at as int);
                    assert(crate::validation::offsets::spec_try_follow_uoffset(f, at) == Ok::<
                        usize,
                        Error,
                    >(child as usize));
                    assert(crate::validation::table::spec_above(f, loc, child as usize));
                    if ty is Union {
                        lemma_discriminant_reads_back(
                            f,
                            loc,
                            position,
                            fields,
                            alignment,
                            vt as int,
                        );
                    }
                }
            },
            None => {
                assert(spec_field_slot(f, header, vt) == 0);
            },
        }
    } else {
        assert(spec_field_slot(f, header, vt) == 0);
    }
}

/// What lies in a buffer as a value of a type passes the check of values of that type,
/// with everything that it points to. This asks that the component can be emitted and fits
/// the format, and that the buffer is within the largest length of a buffer.
pub proof fn lemma_laid_out_verifies(
    f: Seq<u8>,
    schema: SchemaView,
    ty: Type,
    loc: usize,
    c: Component,
)
    requires
        c.spec_well_formed(),
        spec_fits_format(c),
        spec_is_a(schema, ty, c),
        spec_laid_out(f, loc as int, c),
        f.len() <= crate::builder::frame::MAX_BUFFER_LEN,
    ensures
        spec_verify_reference(f, schema, ty, loc) == Ok::<(), Error>(()),
    decreases c, 0nat,
{
    match c {
        Component::Empty => {},
        Component::String(s) => {
            lemma_string_verifies(f, loc, vstd::utf8::encode_utf8(s.text@));
        },
        Component::ScalarsVector(v) => {
            lemma_scalar_vector_verifies(
                f,
                loc,
                v.scalars@,
                v.len,
                schema.type_size(*ty->Vector_0),
            );
        },
        Component::NestedBuffer(n) => {
            let inner = spec_build(*n.root);
            lemma_scalar_vector_verifies(f, loc, inner, inner.len() as usize, 1);
        },
        Component::ReferencesVector(v) => {
            lemma_elements_verify(f, schema, *ty->Vector_0, loc, v.references@, 0);
            lemma_length_reads_back(f, loc as int, v.references@.len() as int);
        },
        Component::Table(t) => {
            lemma_table_premises(f, schema, ty->Obj_0, loc, t);
            lemma_fields_verify(f, schema, ty->Obj_0, loc, t.fields@, t.alignment, 0);
            let position = crate::builder::tree::spec_vtable_of(f, loc as int) as usize;
            lemma_laid_out_table_has_header(f, loc, position, t.fields@, t.alignment);
        },
    }
}

/// A table that lies in a buffer as a table of an object of the schema has what the check
/// of its fields builds on.
pub(crate) proof fn lemma_table_premises(
    f: Seq<u8>,
    schema: SchemaView,
    object: usize,
    loc: usize,
    t: TableComponent,
)
    requires
        Component::Table(t).spec_well_formed(),
        spec_fits_format(Component::Table(t)),
        spec_is_a(schema, Type::Obj(object), Component::Table(t)),
        spec_laid_out(f, loc as int, Component::Table(t)),
        f.len() <= crate::builder::frame::MAX_BUFFER_LEN,
    ensures
        spec_table_premises(f, schema, object, loc, t.fields@, t.alignment),
{
    let fields = t.fields@;
    assert forall|j: int| 0 <= j < fields.len() implies (#[trigger] fields[j]).value.spec_size()
        > 0 by {
        crate::builder::tree::lemma_fields_fit_format_index(fields, fields.len(), j);
    }
    crate::builder::vtable::lemma_vtable_len_even(fields, t.alignment, fields.len());
}

/// The elements of a vector of references that lies in a buffer pass the check from the
/// `k`-th on.
pub(crate) proof fn lemma_elements_verify(
    f: Seq<u8>,
    schema: SchemaView,
    element: Type,
    loc: usize,
    s: Seq<Component>,
    k: nat,
)
    requires
        crate::builder::component::spec_all_well_formed(s, s.len()),
        crate::builder::tree::spec_all_fit_format(s, s.len()),
        crate::validation::conformance::spec_elements_are(schema, element, s, s.len()),
        crate::builder::tree::spec_elements_laid_out(f, loc as int, s, s.len()),
        crate::validation::table::spec_element_by_reference(schema, element),
        loc + 4 + 4 * s.len() <= f.len(),
        f.len() <= crate::builder::frame::MAX_BUFFER_LEN,
        k <= s.len(),
    ensures
        crate::validation::table::spec_verify_elements(f, schema, element, loc, k, s.len())
            == Ok::<(), Error>(()),
    decreases s, s.len() - k,
{
    if k < s.len() {
        let n = s.len();
        crate::builder::emit::lemma_all_well_formed_index(s, n, k as int);
        crate::builder::tree::lemma_all_fit_format_index(s, n, k as int);
        crate::validation::conformance::lemma_elements_are_index(schema, element, s, n, k as int);
        crate::builder::tree::lemma_element_laid_out(f, loc as int, s, n, k as int);
        let at = loc + 4 + 4 * k;
        let target = crate::builder::tree::spec_target(f, at);
        lemma_laid_out_in_buffer(f, schema, element, target, s[k as int]);
        lemma_laid_out_verifies(f, schema, element, target as usize, s[k as int]);
        lemma_elements_verify(f, schema, element, loc, s, k + 1);
    }
}

/// A value of a type that lies in a buffer starts in the buffer.
pub(crate) proof fn lemma_laid_out_in_buffer(
    f: Seq<u8>,
    schema: SchemaView,
    ty: Type,
    loc: int,
    c: Component,
)
    requires
        spec_is_a(schema, ty, c),
        spec_laid_out(f, loc, c),
        c.spec_well_formed(),
    ensures
        0 <= loc <= f.len(),
{
    match c {
        Component::Table(t) => {
            crate::builder::vtable::lemma_vtable_len_even(t.fields@, t.alignment, t.fields@.len());
            crate::builder::layout::lemma_nbytes_not_negative(
                t.fields@,
                t.alignment,
                t.fields@.len(),
            );
        },
        _ => {},
    }
}

/// The fields of a table that lies in a buffer as a table of an object of the schema pass
/// the check from the `i`-th field of the object on.
pub(crate) proof fn lemma_fields_verify(
    f: Seq<u8>,
    schema: SchemaView,
    object: usize,
    loc: usize,
    fields: Seq<TableField>,
    alignment: usize,
    i: nat,
)
    requires
        spec_table_premises(f, schema, object, loc, fields, alignment),
        crate::builder::tree::spec_fields_fit_format(fields, fields.len()),
        crate::validation::conformance::spec_fields_are(
            schema,
            object as int,
            fields,
            fields.len(),
        ),
        crate::builder::tree::spec_children_laid_out(f, loc as int, fields, fields.len()),
        i <= schema.objects[object as int].fields.len(),
    ensures
        spec_verify_fields(f, schema, object, loc, i) == Ok::<(), Error>(()),
    decreases fields, schema.objects[object as int].fields.len() - i,
{
    let declared = schema.objects[object as int].fields;
    if i < declared.len() {
        let n = fields.len();
        let vt = declared[i as int].offset as int;
        let ty = declared[i as int].field_type;
        crate::builder::vtable::lemma_entered_at(fields, n, vt);
        match spec_entered_at(fields, n, vt) {
            Some(j) => {
                crate::validation::conformance::lemma_fields_are_index(
                    schema,
                    object as int,
                    fields,
                    n,
                    j,
                    i as int,
                );
                if schema.type_is_reference(ty) {
                    let child = fields[j].value->Reference_0;
                    let pointed = crate::validation::conformance::spec_pointed_type(
                        schema,
                        ty,
                        fields,
                        vt,
                    );
                    crate::validation::conformance::lemma_is_a_type(schema, pointed, child);
                    crate::builder::emit::lemma_fields_well_formed_index(fields, alignment, n, j);
                    crate::builder::tree::lemma_fields_fit_format_index(fields, n, j);
                    crate::builder::tree::lemma_child_laid_out(f, loc as int, fields, n, j);
                    let target = crate::builder::tree::spec_target(f, loc + spec_entry(fields, j));
                    lemma_laid_out_in_buffer(f, schema, pointed, target, child);
                    lemma_laid_out_verifies(f, schema, pointed, target as usize, child);
                }
            },
            None => {},
        }
        lemma_field_verifies(f, schema, object, loc, fields, alignment, i as int);
        lemma_fields_verify(f, schema, object, loc, fields, alignment, i + 1);
    }
}

/// Every buffer that the builder gives passes the check: where the root is a table of an
/// object of the schema with everything that it points to, the check of the buffer against
/// that object gives the place of the root. This asks that the root can be emitted and fits
/// the format, and that the buffer stays within the largest length of a buffer all the
/// way.
pub proof fn lemma_built_verifies(root: Component, schema: SchemaView, object: usize)
    requires
        root.spec_well_formed(),
        spec_fits_format(root),
        spec_is_a(schema, Type::Obj(object), root),
        crate::builder::run::spec_run_fits(BuilderView::initial(root)),
    ensures
        crate::validation::root::spec_get_root(spec_build(root), schema, object) == Ok::<
            usize,
            Error,
        >(crate::builder::tree::spec_target(spec_build(root), 0) as usize),
{
    let f = spec_build(root);
    crate::builder::built::lemma_built_holds_tree(root);
    crate::builder::built::lemma_run_within(BuilderView::initial(root));
    let target = crate::builder::tree::spec_target(f, 0);
    lemma_laid_out_in_buffer(f, schema, Type::Obj(object), target, root);
    lemma_laid_out_verifies(f, schema, Type::Obj(object), target as usize, root);
}

/// Reading back what lies in a buffer. A table that lies in a buffer, and whose fields
/// have different slots, is read through its vtable as it was built: the field that was
/// entered at a slot is found at the place that the vtable enters for it, and a slot at
/// which no field was entered is found absent.
pub proof fn lemma_laid_out_table_reads_back(
    f: Seq<u8>,
    loc: usize,
    fields: Seq<TableField>,
    alignment: usize,
    s: usize,
)
    requires
        spec_fields_well_formed(fields, alignment, fields.len()),
        spec_fields_take_room(fields),
        spec_slots_differ(fields),
        spec_vtable_len(fields, fields.len()) < 0x1_0000,
        spec_fields_nbytes(fields, fields.len()) + 4 < 0x1_0000,
        f.len() <= crate::builder::frame::MAX_BUFFER_LEN,
        0 <= crate::builder::tree::spec_vtable_of(f, loc as int) <= loc,
        spec_table_frame(
            f,
            loc as int,
            crate::builder::tree::spec_vtable_of(f, loc as int),
            fields,
        ),
        s >= 4,
        s % 2 == 0,
    ensures
        forall|j: int|
            0 <= j < fields.len() && (#[trigger] fields[j]).slot == s ==> spec_field_location(
                f,
                loc,
                s,
            ) == Some((loc + spec_entry(fields, j)) as usize),
        (forall|j: int| 0 <= j < fields.len() ==> (#[trigger] fields[j]).slot != s)
            ==> spec_field_location(f, loc, s) is None,
{
    let n = fields.len();
    let position = crate::builder::tree::spec_vtable_of(f, loc as int) as usize;
    crate::builder::layout::lemma_nbytes_not_negative(fields, alignment, n);
    lemma_laid_out_table_has_header(f, loc, position, fields, alignment);
    let header = spec_header_of(loc as int, position as int, fields);
    crate::builder::vtable::lemma_vtable_len_even(fields, alignment, n);
    crate::builder::vtable::lemma_entered_at(fields, n, s as int);
    if s + 2 <= header.vtable_size {
        lemma_slot_reads_back(f, loc as int, position as int, fields, alignment, s as int);
    }
    assert forall|j: int|
        0 <= j < n && (#[trigger] fields[j]).slot == s implies spec_field_location(f, loc, s)
        == Some((loc + spec_entry(fields, j)) as usize) by {
        lemma_entered_at_own_slot(fields, n, j);
        lemma_entry_in_table(fields, alignment, j);
    }
}

/// Builds the buffer for a root, where the root is a table of an object of the schema with
/// everything that it points to, can be emitted, fits the format, and the buffer stays
/// within the largest length of a buffer. The buffer that is given passes the check
/// against the object.
pub fn build_verified(root: Component, schema: &Schema, object: usize) -> (bytes: Option<Vec<u8>>)
    requires
        crate::validation::table::spec_verifiable(schema.deep_view()),
    ensures
        bytes is Some <==> {
            &&& root.spec_well_formed()
            &&& spec_fits_format(root)
            &&& spec_is_a(schema.deep_view(), Type::Obj(object), root)
            &&& crate::builder::run::spec_run_fits(BuilderView::initial(root))
        },
        bytes is Some ==> bytes->Some_0@ == spec_build(root),
        bytes is Some ==> crate::validation::root::spec_get_root(
            bytes->Some_0@,
            schema.deep_view(),
            object,
        ) is Ok,
{
    if object >= schema.objects.len() {
        return None;
    }
    if !root.well_formed() {
        return None;
    }
    if !root.fits_format() {
        return None;
    }
    let ty = Type::Obj(object);
    if !crate::validation::conformance::conforms(schema, &ty, &root) {
        return None;
    }
    proof {
        if crate::builder::run::spec_run_fits(BuilderView::initial(root)) {
            lemma_built_verifies(root, schema.deep_view(), object);
        }
    }
    crate::builder::buffer::Builder::new(root).try_build()
}

} // verus!
