use crate::alignment::{is_power_of_two, lemma_mask_is_mod, spec_align};
use crate::builder::buffer::BuilderView;
use crate::builder::component::{
    spec_fields_nbytes, spec_fields_well_formed, FieldValue, TableField,
};
use crate::builder::component::{Component, TableComponent};
use crate::builder::emit::{
    lemma_fields_well_formed_index, spec_aligned, spec_aligned_after, spec_emit_table,
    spec_len_bytes, spec_table_fields,
};
use crate::builder::vtable::{
    lemma_scratch_vtable, spec_entry, spec_is_vtable_of, spec_vtable_len,
};
use vstd::arithmetic::div_mod::{
    lemma_fundamental_div_mod, lemma_fundamental_div_mod_converse_mod, lemma_mod_multiples_vanish,
};
use vstd::prelude::*;

verus! {

proof fn lemma_power_of_two_bits(small: usize, large: usize)
    by (bit_vector)
    requires
        small != 0,
        small & ((small - 1) as usize) == 0,
        large != 0,
        large & ((large - 1) as usize) == 0,
        small <= large,
    ensures
        large & ((small - 1) as usize) == 0,
{
}

/// A power of two divides every power of two that is not below it.
pub(crate) proof fn lemma_power_of_two_divides(small: usize, large: usize)
    requires
        is_power_of_two(small),
        is_power_of_two(large),
        small <= large,
    ensures
        large % small == 0,
{
    lemma_power_of_two_bits(small, large);
    lemma_mask_is_mod(large, small);
}

/// Counted from a multiple of the alignment, the next multiple is as far as from zero.
pub(crate) proof fn lemma_align_from_multiple(base: int, n: int, a: int)
    requires
        base >= 0,
        n >= 0,
        a > 0,
        base % a == 0,
    ensures
        spec_align(base + n, a) == base + spec_align(n, a),
{
    lemma_fundamental_div_mod(base, a);
    lemma_mod_multiples_vanish(base / a, n, a);
    assert(a * (base / a) + n == base + n);
    assert((base + n) % a == n % a);
}

/// What a number divides, a divisor of the number divides too.
pub(crate) proof fn lemma_divides_through(base: int, large: int, small: int)
    requires
        base >= 0,
        large > 0,
        small > 0,
        base % large == 0,
        large % small == 0,
    ensures
        base % small == 0,
{
    lemma_fundamental_div_mod(base, large);
    lemma_fundamental_div_mod(large, small);
    let q = (base / large) * (large / small);
    assert(base == q * small + 0) by (nonlinear_arith)
        requires
            base == large * (base / large),
            large == small * (large / small),
            q == (base / large) * (large / small),
    ;
    lemma_fundamental_div_mod_converse_mod(base, small, q, 0);
}

/// The place that a table is emitted at leaves the fields behind its header at a multiple
/// of the table's alignment.
pub proof fn lemma_table_start_aligns_fields(p: int, alignment: usize)
    requires
        p >= 0,
        is_power_of_two(alignment),
    ensures
        (crate::alignment::spec_align_after(p, 4, alignment as int) + 4) % (alignment as int) == 0,
{
    crate::alignment::lemma_align_after_is_least(p, 4, alignment as int);
    if alignment < 4 {
        crate::alignment::lemma_small_powers_of_two();
        lemma_power_of_two_divides(alignment, 4);
        lemma_divides_through(
            crate::alignment::spec_align_after(p, 4, alignment as int) + 4,
            4,
            alignment as int,
        );
    }
}

/// The fields of a table stand where its vtable says. Where the fields behind the header
/// start at a multiple of the table's alignment, the first `k` fields end as many bytes
/// behind that start as the vtable counts for them; so the `k`-th field, which the vtable
/// enters at the next multiple of its alignment counted from the start of the fields,
/// stands at that very place in the buffer.
pub proof fn lemma_fields_stand_where_entered(
    view: BuilderView,
    fields: Seq<TableField>,
    alignment: usize,
    k: nat,
)
    requires
        is_power_of_two(alignment),
        spec_fields_well_formed(fields, alignment, fields.len()),
        view.buffer.len() % (alignment as nat) == 0,
        k <= fields.len(),
    ensures
        spec_table_fields(view, fields, k).buffer.len() == view.buffer.len() + spec_fields_nbytes(
            fields,
            k,
        ),
        k < fields.len() ==> spec_aligned(
            spec_table_fields(view, fields, k).buffer,
            fields[k as int].alignment as int,
        ).len() == view.buffer.len() + spec_align(
            spec_fields_nbytes(fields, k),
            fields[k as int].alignment as int,
        ),
    decreases k,
{
    lemma_nbytes_not_negative(fields, alignment, k);
    if k > 0 {
        lemma_nbytes_not_negative(fields, alignment, (k - 1) as nat);
        lemma_fields_stand_where_entered(view, fields, alignment, (k - 1) as nat);
        lemma_fields_well_formed_index(fields, alignment, fields.len(), k - 1);
        crate::alignment::lemma_align_is_least_multiple(
            spec_fields_nbytes(fields, (k - 1) as nat),
            fields[k - 1].alignment as int,
        );
        let before = spec_table_fields(view, fields, (k - 1) as nat);
        let aligned = spec_aligned(before.buffer, fields[k - 1].alignment as int);
        match fields[k - 1].value {
            FieldValue::Scalar(bytes) => {
                assert(spec_table_fields(view, fields, k).buffer == aligned + bytes@);
            },
            FieldValue::Reference(_) => {},
        }
    }
    if k < fields.len() {
        lemma_fields_well_formed_index(fields, alignment, fields.len(), k as int);
        let a = fields[k as int].alignment;
        lemma_power_of_two_divides(a, alignment);
        lemma_divides_through(view.buffer.len() as int, alignment as int, a as int);
        lemma_align_from_multiple(
            view.buffer.len() as int,
            spec_fields_nbytes(fields, k),
            a as int,
        );
        crate::alignment::lemma_align_is_least_multiple(
            view.buffer.len() + spec_fields_nbytes(fields, k),
            a as int,
        );
    }
}

/// The fields of a table take no negative number of bytes.
pub(crate) proof fn lemma_nbytes_not_negative(fields: Seq<TableField>, alignment: usize, k: nat)
    requires
        spec_fields_well_formed(fields, alignment, fields.len()),
        k <= fields.len(),
    ensures
        spec_fields_nbytes(fields, k) >= 0,
    decreases k,
{
    if k > 0 {
        lemma_nbytes_not_negative(fields, alignment, (k - 1) as nat);
        lemma_fields_well_formed_index(fields, alignment, fields.len(), k - 1);
        crate::alignment::lemma_align_is_least_multiple(
            spec_fields_nbytes(fields, (k - 1) as nat),
            fields[k - 1].alignment as int,
        );
    }
}

/// More fields take no fewer bytes.
pub(crate) proof fn lemma_nbytes_grow(fields: Seq<TableField>, alignment: usize, j: nat, k: nat)
    requires
        spec_fields_well_formed(fields, alignment, fields.len()),
        j <= k <= fields.len(),
    ensures
        0 <= spec_fields_nbytes(fields, j) <= spec_fields_nbytes(fields, k),
    decreases k,
{
    lemma_nbytes_not_negative(fields, alignment, j);
    if j < k {
        lemma_nbytes_grow(fields, alignment, j, (k - 1) as nat);
        lemma_fields_well_formed_index(fields, alignment, fields.len(), k - 1);
        crate::alignment::lemma_align_is_least_multiple(
            spec_fields_nbytes(fields, (k - 1) as nat),
            fields[k - 1].alignment as int,
        );
    }
}

/// Emitting the fields of a table leaves what stood in the buffer, and the vtables on
/// record.
pub(crate) proof fn lemma_table_fields_extend(view: BuilderView, fields: Seq<TableField>, k: nat)
    requires
        k <= fields.len(),
    ensures
        spec_table_fields(view, fields, k).buffer.len() >= view.buffer.len(),
        spec_table_fields(view, fields, k).buffer.subrange(0, view.buffer.len() as int)
            == view.buffer,
        spec_table_fields(view, fields, k).vtables == view.vtables,
    decreases k,
{
    if k == 0 {
        assert(view.buffer.subrange(0, view.buffer.len() as int) =~= view.buffer);
    } else {
        lemma_table_fields_extend(view, fields, (k - 1) as nat);
        let before = spec_table_fields(view, fields, (k - 1) as nat);
        let after = spec_table_fields(view, fields, k);
        assert(after.buffer.subrange(0, before.buffer.len() as int) =~= before.buffer);
        assert(after.buffer.subrange(0, view.buffer.len() as int) =~= before.buffer.subrange(
            0,
            view.buffer.len() as int,
        ));
    }
}

/// What the buffer holds where the `j`-th field of a table stands: the bytes of an inline
/// value, and four zero bytes for the offset of a reference.
pub open spec fn spec_field_bytes(field: TableField) -> Seq<u8> {
    match field.value {
        FieldValue::Scalar(bytes) => bytes@,
        FieldValue::Reference(_) => crate::builder::buffer::spec_zeros(4),
    }
}

/// Every field that has been emitted stands in the buffer with its bytes, at the place
/// that the vtable enters for it.
pub(crate) proof fn lemma_field_bytes(
    view: BuilderView,
    fields: Seq<TableField>,
    alignment: usize,
    j: int,
    k: nat,
)
    requires
        is_power_of_two(alignment),
        spec_fields_well_formed(fields, alignment, fields.len()),
        view.buffer.len() % (alignment as nat) == 0,
        0 <= j < k <= fields.len(),
    ensures
        spec_table_fields(view, fields, k).buffer.subrange(
            view.buffer.len() + spec_align(
                spec_fields_nbytes(fields, j as nat),
                fields[j].alignment as int,
            ),
            view.buffer.len() + spec_fields_nbytes(fields, (j + 1) as nat),
        ) == spec_field_bytes(fields[j]),
    decreases k,
{
    let place = view.buffer.len() + spec_align(
        spec_fields_nbytes(fields, j as nat),
        fields[j].alignment as int,
    );
    let end = view.buffer.len() + spec_fields_nbytes(fields, (j + 1) as nat);
    let after = spec_table_fields(view, fields, k);
    lemma_fields_stand_where_entered(view, fields, alignment, (k - 1) as nat);
    lemma_fields_stand_where_entered(view, fields, alignment, k);
    let before = spec_table_fields(view, fields, (k - 1) as nat);
    assert(after.buffer.subrange(0, before.buffer.len() as int) =~= before.buffer);
    if k == j + 1 {
        assert(after.buffer.subrange(place, end) =~= spec_field_bytes(fields[j]));
    } else {
        lemma_field_bytes(view, fields, alignment, j, (k - 1) as nat);
        lemma_nbytes_grow(fields, alignment, (j + 1) as nat, (k - 1) as nat);
        lemma_fields_well_formed_index(fields, alignment, fields.len(), j);
        lemma_nbytes_not_negative(fields, alignment, j as nat);
        crate::alignment::lemma_align_is_least_multiple(
            spec_fields_nbytes(fields, j as nat),
            fields[j].alignment as int,
        );
        assert(after.buffer.subrange(place, end) =~= before.buffer.subrange(place, end));
    }
}

/// The place of the vtable that a table points to when it is emitted in the state `view`.
pub open spec fn spec_vtable_position(view: BuilderView, t: TableComponent) -> usize {
    crate::builder::emit::spec_scratch_vtable(view, t.fields@).deduplicated_position(
        spec_align(view.buffer.len() as int, 2) as usize,
    )
}

/// The frame of a table lies in the buffer: its vtable stands at `position` before it and
/// is the vtable of its fields, the table starts at `start` with the distance back to the
/// vtable, and lies in the buffer with all its fields.
pub open spec fn spec_table_frame(
    buffer: Seq<u8>,
    start: int,
    position: int,
    fields: Seq<TableField>,
) -> bool {
    &&& 0 <= position
    &&& position + spec_vtable_len(fields, fields.len()) <= start
    &&& start + 4 + spec_fields_nbytes(fields, fields.len()) <= buffer.len()
    &&& spec_is_vtable_of(
        buffer.subrange(
            position,
            position + spec_vtable_len(fields, fields.len()),
        ),
        fields,
    )
    &&& buffer.subrange(start, start + 4) == spec_len_bytes(start - position)
}

/// A table lies in the buffer as the format asks: its vtable stands before it and is the
/// vtable of its fields, the table starts with the distance back to the vtable, ends with
/// the buffer, and every field stands with its bytes at the place that the vtable enters
/// for it.
pub open spec fn spec_table_laid_out(
    buffer: Seq<u8>,
    start: int,
    vtable_position: int,
    fields: Seq<TableField>,
) -> bool {
    &&& 0 <= vtable_position
    &&& vtable_position + spec_vtable_len(fields, fields.len()) <= start
    &&& spec_is_vtable_of(
        buffer.subrange(
            vtable_position,
            vtable_position + spec_vtable_len(fields, fields.len()),
        ),
        fields,
    )
    &&& buffer.subrange(start, start + 4) == spec_len_bytes(start - vtable_position)
    &&& buffer.len() == start + 4 + spec_fields_nbytes(fields, fields.len())
    &&& forall|j: int|
        0 <= j < fields.len() ==> buffer.subrange(
            start + spec_entry(fields, j),
            start + 4 + spec_fields_nbytes(fields, (j + 1) as nat),
        ) == spec_field_bytes(#[trigger] fields[j])
}

/// The state in which the header of a table has been written and its fields have not: the
/// vtable has gone through deduplication, and the distance back to it stands where the
/// table starts.
pub open spec fn spec_headed(view: BuilderView, t: TableComponent) -> BuilderView {
    let vtable_start = spec_align(view.buffer.len() as int, 2) as usize;
    let scratch = crate::builder::emit::spec_scratch_vtable(view, t.fields@);
    let stored = scratch.deduplicate(vtable_start);
    let aligned = spec_aligned_after(stored.buffer, 4, t.alignment as int);
    stored.with_buffer(aligned + spec_len_bytes(aligned.len() - spec_vtable_position(view, t)))
}

/// What the buffer holds when the header of a table has been written: what stood before,
/// the vtable of the table's fields at the place that the table points to, and the
/// distance back to it in the last four bytes, from where on the fields stand at a
/// multiple of the table's alignment.
pub(crate) proof fn lemma_headed(view: BuilderView, t: TableComponent)
    requires
        Component::Table(t).spec_well_formed(),
        crate::builder::emit::spec_scratch_vtable(view, t.fields@).buffer.len() <= usize::MAX,
    ensures
        ({
            let headed = spec_headed(view, t).buffer;
            let position = spec_vtable_position(view, t) as int;
            let length = spec_vtable_len(t.fields@, t.fields@.len());
            &&& headed.len() >= view.buffer.len() + 4
            &&& headed.len() % (t.alignment as nat) == 0
            &&& headed.subrange(0, view.buffer.len() as int) == view.buffer
            &&& position + length <= headed.len() - 4
            &&& spec_is_vtable_of(headed.subrange(position, position + length), t.fields@)
            &&& headed.subrange(headed.len() - 4, headed.len() as int) == spec_len_bytes(
                headed.len() - 4 - position,
            )
        }),
{
    let fields = t.fields@;
    let vtable_start = spec_align(view.buffer.len() as int, 2);
    let scratch = crate::builder::emit::spec_scratch_vtable(view, fields);
    lemma_scratch_vtable(view, fields, t.alignment);
    let bytes = scratch.scratch(vtable_start);
    let stored = scratch.deduplicate(vtable_start as usize);
    let position = scratch.deduplicated_position(vtable_start as usize);
    crate::builder::buffer::lemma_deduplicated_vtable_is_stored(scratch, vtable_start as usize);
    let aligned = spec_aligned_after(stored.buffer, 4, t.alignment as int);
    crate::alignment::lemma_align_after_is_least(stored.buffer.len() as int, 4, t.alignment as int);
    lemma_table_start_aligns_fields(stored.buffer.len() as int, t.alignment);
    let back = spec_len_bytes(aligned.len() - position);
    let headed = aligned + back;
    assert(back.len() == 4);
    assert(spec_headed(view, t).buffer == headed);
    assert(stored.buffer.subrange(0, view.buffer.len() as int) =~= view.buffer);
    assert(headed.subrange(0, view.buffer.len() as int) =~= stored.buffer.subrange(
        0,
        view.buffer.len() as int,
    ));
    assert(headed.subrange(position as int, position + bytes.len()) =~= stored.buffer.subrange(
        position as int,
        position + bytes.len(),
    ));
    assert(headed.subrange(headed.len() - 4, headed.len() as int) =~= back);
}

/// Emitting a table is writing its header and then emitting its fields.
pub(crate) proof fn lemma_emit_table_in_stages(view: BuilderView, t: TableComponent)
    ensures
        spec_emit_table(view, t).0 == spec_table_fields(
            spec_headed(view, t),
            t.fields@,
            t.fields@.len(),
        ),
        spec_emit_table(view, t).1 == (spec_headed(view, t).buffer.len() - 4) as usize,
{
    let vtable_start = spec_align(view.buffer.len() as int, 2) as usize;
    let scratch = crate::builder::emit::spec_scratch_vtable(view, t.fields@);
    let stored = scratch.deduplicate(vtable_start);
    let aligned = spec_aligned_after(stored.buffer, 4, t.alignment as int);
    let back = spec_len_bytes(aligned.len() - spec_vtable_position(view, t));
    assert(back.len() == 4);
    assert((aligned + back).len() - 4 == aligned.len());
}

/// The fields of a table that are emitted behind its header leave the table in the buffer
/// as the format asks.
pub(crate) proof fn lemma_fields_lay_out_table(
    headed: BuilderView,
    fields: Seq<TableField>,
    alignment: usize,
    position: int,
)
    requires
        is_power_of_two(alignment),
        spec_fields_well_formed(fields, alignment, fields.len()),
        headed.buffer.len() >= 4,
        headed.buffer.len() % (alignment as nat) == 0,
        0 <= position,
        position + spec_vtable_len(fields, fields.len()) <= headed.buffer.len() - 4,
        spec_is_vtable_of(
            headed.buffer.subrange(position, position + spec_vtable_len(fields, fields.len())),
            fields,
        ),
        headed.buffer.subrange(headed.buffer.len() - 4, headed.buffer.len() as int)
            == spec_len_bytes(headed.buffer.len() - 4 - position),
    ensures
        spec_table_laid_out(
            spec_table_fields(headed, fields, fields.len()).buffer,
            headed.buffer.len() - 4,
            position,
            fields,
        ),
{
    let n = fields.len();
    let length = spec_vtable_len(fields, n);
    let start = headed.buffer.len() - 4;
    let after = spec_table_fields(headed, fields, n).buffer;
    lemma_table_fields_extend(headed, fields, n);
    assert(after.subrange(position, position + length) == headed.buffer.subrange(
        position,
        position + length,
    )) by {
        assert(after.subrange(position, position + length) =~= after.subrange(
            0,
            headed.buffer.len() as int,
        ).subrange(position, position + length));
    }
    assert(after.subrange(start, start + 4) == spec_len_bytes(start - position)) by {
        assert(after.subrange(start, start + 4) =~= after.subrange(
            0,
            headed.buffer.len() as int,
        ).subrange(start, start + 4));
    }
    assert(after.len() == start + 4 + spec_fields_nbytes(fields, n)) by {
        lemma_fields_stand_where_entered(headed, fields, alignment, n);
    }
    assert forall|j: int| 0 <= j < n implies after.subrange(
        start + spec_entry(fields, j),
        start + 4 + spec_fields_nbytes(fields, (j + 1) as nat),
    ) == spec_field_bytes(#[trigger] fields[j]) by {
        lemma_field_bytes(headed, fields, alignment, j, n);
    }
}

/// A table that the builder emits lies in the buffer as the format asks, where the buffer
/// fits the machine before the vtable goes through deduplication. What stood in the buffer
/// before stands there after.
pub proof fn lemma_emitted_table_is_laid_out(view: BuilderView, t: TableComponent)
    requires
        Component::Table(t).spec_well_formed(),
        crate::builder::emit::spec_scratch_vtable(view, t.fields@).buffer.len() <= usize::MAX,
    ensures
        spec_table_laid_out(
            spec_emit_table(view, t).0.buffer,
            spec_headed(view, t).buffer.len() - 4,
            spec_vtable_position(view, t) as int,
            t.fields@,
        ),
        spec_headed(view, t).buffer.len() - 4 >= view.buffer.len(),
        spec_emit_table(view, t).0.buffer.subrange(0, view.buffer.len() as int) == view.buffer,
{
    let headed = spec_headed(view, t);
    lemma_headed(view, t);
    lemma_emit_table_in_stages(view, t);
    lemma_fields_lay_out_table(
        headed,
        t.fields@,
        t.alignment,
        spec_vtable_position(view, t) as int,
    );
    lemma_table_fields_extend(headed, t.fields@, t.fields@.len());
    let after = spec_table_fields(headed, t.fields@, t.fields@.len()).buffer;
    assert(after.subrange(0, view.buffer.len() as int) =~= after.subrange(
        0,
        headed.buffer.len() as int,
    ).subrange(0, view.buffer.len() as int));
}

} // verus!
