use crate::alignment::spec_align;
use crate::builder::buffer::{lemma_deduplicated_vtable_is_stored, spec_hash, BuilderView};
use crate::builder::component::{
    spec_fields_nbytes, spec_fields_well_formed, Component, TableComponent, TableField,
};
use crate::builder::emit::{spec_emit_table, spec_scratch_vtable, spec_table_fields};
use crate::builder::layout::{
    lemma_emit_table_in_stages, lemma_headed, lemma_table_fields_extend, spec_headed,
    spec_vtable_position,
};
use crate::builder::vtable::{
    lemma_scratch_vtable, lemma_vtable_len_even, spec_entered_at, spec_is_vtable_of,
    spec_slot_bytes, spec_vtable_len,
};
use vstd::prelude::*;

verus! {

/// Two runs of fields have the same layout: as many fields, and field by field the same
/// slot, the same alignment and the same size.
pub open spec fn spec_same_layout(first: Seq<TableField>, second: Seq<TableField>) -> bool {
    &&& first.len() == second.len()
    &&& forall|j: int|
        0 <= j < first.len() ==> {
            &&& (#[trigger] first[j]).slot == second[j].slot
            &&& first[j].alignment == second[j].alignment
            &&& first[j].value.spec_size() == second[j].value.spec_size()
        }
}

/// Fields with the same layout take the same room and make vtables of the same length.
pub(crate) proof fn lemma_same_layout_same_sizes(
    first: Seq<TableField>,
    second: Seq<TableField>,
    k: nat,
)
    requires
        spec_same_layout(first, second),
        k <= first.len(),
    ensures
        spec_fields_nbytes(first, k) == spec_fields_nbytes(second, k),
        spec_vtable_len(first, k) == spec_vtable_len(second, k),
    decreases k,
{
    if k > 0 {
        lemma_same_layout_same_sizes(first, second, (k - 1) as nat);
        assert(first[k - 1].slot == second[k - 1].slot);
    }
}

/// Fields with the same layout put the same two bytes into every slot of their vtables.
pub(crate) proof fn lemma_same_layout_same_slots(
    first: Seq<TableField>,
    second: Seq<TableField>,
    k: nat,
    s: int,
)
    requires
        spec_same_layout(first, second),
        k <= first.len(),
    ensures
        spec_entered_at(first, k, s) == spec_entered_at(second, k, s),
        spec_slot_bytes(first, k, s) == spec_slot_bytes(second, k, s),
    decreases k,
{
    if k > 0 {
        lemma_same_layout_same_slots(first, second, (k - 1) as nat, s);
        assert(first[k - 1].slot == second[k - 1].slot);
    }
    crate::builder::vtable::lemma_entered_at(first, k, s);
    match spec_entered_at(first, k, s) {
        Some(j) => {
            lemma_same_layout_same_sizes(first, second, j as nat);
            assert(first[j].alignment == second[j].alignment);
        },
        None => {},
    }
}

/// The vtable of a run of fields is one sequence of bytes, and fields with the same layout
/// have the same vtable.
pub proof fn lemma_same_layout_same_vtable(
    first_bytes: Seq<u8>,
    first: Seq<TableField>,
    second_bytes: Seq<u8>,
    second: Seq<TableField>,
    alignment: usize,
)
    requires
        spec_fields_well_formed(first, alignment, first.len()),
        spec_same_layout(first, second),
        spec_is_vtable_of(first_bytes, first),
        spec_is_vtable_of(second_bytes, second),
    ensures
        first_bytes == second_bytes,
{
    let n = first.len();
    lemma_same_layout_same_sizes(first, second, n);
    lemma_vtable_len_even(first, alignment, n);
    assert forall|i: int| 0 <= i < first_bytes.len() implies first_bytes[i] == second_bytes[i] by {
        let s = i - i % 2;
        if s == 0 {
            assert(first_bytes[i] == first_bytes.subrange(0, 2)[i]);
            assert(second_bytes[i] == second_bytes.subrange(0, 2)[i]);
        } else if s == 2 {
            assert(first_bytes[i] == first_bytes.subrange(2, 4)[i - 2]);
            assert(second_bytes[i] == second_bytes.subrange(2, 4)[i - 2]);
        } else {
            lemma_same_layout_same_slots(first, second, n, s);
            assert(first_bytes.subrange(s, s + 2) == spec_slot_bytes(first, n, s));
            assert(second_bytes.subrange(s, s + 2) == spec_slot_bytes(second, n, s));
            assert(first_bytes[i] == first_bytes.subrange(s, s + 2)[i - s]);
            assert(second_bytes[i] == second_bytes.subrange(s, s + 2)[i - s]);
        }
    }
    assert(first_bytes =~= second_bytes);
}

/// After a table has been emitted, the vtable that it points to stands in the buffer and
/// is on record, and what has been emitted since it went through deduplication has left it
/// so.
pub(crate) proof fn lemma_vtable_stays_on_record(view: BuilderView, t: TableComponent)
    requires
        Component::Table(t).spec_well_formed(),
        spec_scratch_vtable(view, t.fields@).buffer.len() <= usize::MAX,
    ensures
        ({
            let after = spec_emit_table(view, t).0;
            let position = spec_vtable_position(view, t);
            let bytes = spec_scratch_vtable(view, t.fields@).scratch(
                spec_align(view.buffer.len() as int, 2),
            );
            &&& spec_is_vtable_of(bytes, t.fields@)
            &&& after.vtables.contains_key(spec_hash(bytes))
            &&& after.vtables[spec_hash(bytes)] == position
            &&& position + bytes.len() <= after.buffer.len()
            &&& after.buffer.subrange(position as int, position + bytes.len()) == bytes
        }),
{
    let fields = t.fields@;
    let vtable_start = spec_align(view.buffer.len() as int, 2);
    let scratch = spec_scratch_vtable(view, fields);
    lemma_scratch_vtable(view, fields, t.alignment);
    let bytes = scratch.scratch(vtable_start);
    let stored = scratch.deduplicate(vtable_start as usize);
    let position = scratch.deduplicated_position(vtable_start as usize);
    lemma_deduplicated_vtable_is_stored(scratch, vtable_start as usize);
    let headed = spec_headed(view, t);
    lemma_headed(view, t);
    lemma_emit_table_in_stages(view, t);
    lemma_table_fields_extend(headed, fields, fields.len());
    let after = spec_table_fields(headed, fields, fields.len());
    assert(headed.vtables == stored.vtables);
    assert(headed.buffer.subrange(position as int, position + bytes.len()) == bytes);
    assert(after.buffer.subrange(position as int, position + bytes.len())
        =~= after.buffer.subrange(0, headed.buffer.len() as int).subrange(
        position as int,
        position + bytes.len(),
    ));
}

/// Two tables with the same layout share one vtable: where a table is emitted right after
/// a table whose fields have the same slots, alignments and sizes, it points to the vtable
/// that the first one points to, and its own is cut off again.
pub proof fn lemma_same_layout_shares_vtable(
    view: BuilderView,
    first: TableComponent,
    second: TableComponent,
)
    requires
        Component::Table(first).spec_well_formed(),
        Component::Table(second).spec_well_formed(),
        spec_same_layout(first.fields@, second.fields@),
        spec_scratch_vtable(view, first.fields@).buffer.len() <= usize::MAX,
        spec_scratch_vtable(spec_emit_table(view, first).0, second.fields@).buffer.len()
            <= usize::MAX,
    ensures
        spec_vtable_position(spec_emit_table(view, first).0, second) == spec_vtable_position(
            view,
            first,
        ),
{
    let after = spec_emit_table(view, first).0;
    let position = spec_vtable_position(view, first);
    let bytes = spec_scratch_vtable(view, first.fields@).scratch(
        spec_align(view.buffer.len() as int, 2),
    );
    lemma_vtable_stays_on_record(view, first);
    let later_start = spec_align(after.buffer.len() as int, 2);
    let later = spec_scratch_vtable(after, second.fields@);
    lemma_scratch_vtable(after, second.fields@, second.alignment);
    let later_bytes = later.scratch(later_start);
    lemma_same_layout_same_vtable(
        bytes,
        first.fields@,
        later_bytes,
        second.fields@,
        first.alignment,
    );
    assert(later.buffer.subrange(position as int, position + bytes.len())
        =~= later.buffer.subrange(0, after.buffer.len() as int).subrange(
        position as int,
        position + bytes.len(),
    ));
    assert(later.finds(later_start));
}

} // verus!
