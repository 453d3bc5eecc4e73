use crate::alignment::{lemma_align_is_least_multiple, spec_align};
use crate::builder::buffer::{spec_voffset_bytes, spec_write, spec_zeros, BuilderView};
use crate::builder::component::{spec_fields_nbytes, spec_fields_well_formed, TableField};
use crate::builder::emit::{lemma_fields_well_formed_index, spec_vtable_fields};
use vstd::prelude::*;

verus! {

/// The entry of the `j`-th field in the vtable: the place of the field, counted from the
/// start of the table.
pub open spec fn spec_entry(fields: Seq<TableField>, j: int) -> int {
    spec_align(spec_fields_nbytes(fields, j as nat), fields[j].alignment as int) + 4
}

/// The length of the vtable after the first `k` fields have been entered: it holds its two
/// sizes and reaches to the end of the last slot that was entered.
pub open spec fn spec_vtable_len(fields: Seq<TableField>, k: nat) -> int
    decreases k,
{
    if k == 0 || k > fields.len() {
        4
    } else {
        let before = spec_vtable_len(fields, (k - 1) as nat);
        if fields[k - 1].slot + 2 > before {
            fields[k - 1].slot + 2
        } else {
            before
        }
    }
}

/// The field that was entered last at the slot `s` among the first `k`, if there is one.
pub open spec fn spec_entered_at(fields: Seq<TableField>, k: nat, s: int) -> Option<int>
    decreases k,
{
    if k == 0 || k > fields.len() {
        None
    } else if fields[k - 1].slot == s {
        Some(k - 1)
    } else {
        spec_entered_at(fields, (k - 1) as nat, s)
    }
}

/// The two bytes that the vtable holds at the slot `s` after the first `k` fields have
/// been entered: the entry of the field that was entered there last, or zero.
pub open spec fn spec_slot_bytes(fields: Seq<TableField>, k: nat, s: int) -> Seq<u8> {
    match spec_entered_at(fields, k, s) {
        Some(j) => spec_voffset_bytes(spec_entry(fields, j)),
        None => seq![0u8, 0u8],
    }
}

/// A field that was entered at a slot is one of the fields, has that slot, and the vtable
/// reaches to the end of the slot.
pub(crate) proof fn lemma_entered_at(fields: Seq<TableField>, k: nat, s: int)
    requires
        k <= fields.len(),
    ensures
        spec_vtable_len(fields, k) >= 4,
        match spec_entered_at(fields, k, s) {
            Some(j) => 0 <= j < k && fields[j].slot == s && s + 2 <= spec_vtable_len(fields, k),
            None => forall|j: int| 0 <= j < k ==> (#[trigger] fields[j]).slot != s,
        },
    decreases k,
{
    if k > 0 {
        lemma_entered_at(fields, (k - 1) as nat, s);
    }
}

/// The length of a vtable of well-formed fields is even.
pub(crate) proof fn lemma_vtable_len_even(fields: Seq<TableField>, alignment: usize, k: nat)
    requires
        spec_fields_well_formed(fields, alignment, fields.len()),
        k <= fields.len(),
    ensures
        spec_vtable_len(fields, k) % 2 == 0,
        spec_vtable_len(fields, k) >= 4,
    decreases k,
{
    if k > 0 {
        lemma_vtable_len_even(fields, alignment, (k - 1) as nat);
        lemma_fields_well_formed_index(fields, alignment, fields.len(), k - 1);
    }
}

/// What the vtable holds after the first `k` fields have been entered: what stood before
/// the vtable stands, the two sizes are still zero, the vtable has the length that the
/// slots ask for, and every slot holds the entry of the field that was entered there last,
/// or zero.
pub(crate) proof fn lemma_vtable_fields(
    started: BuilderView,
    vtable_start: int,
    fields: Seq<TableField>,
    alignment: usize,
    k: nat,
)
    requires
        spec_fields_well_formed(fields, alignment, fields.len()),
        k <= fields.len(),
        0 <= vtable_start,
        started.buffer.len() == vtable_start + 4,
    ensures
        spec_vtable_fields(started, vtable_start, fields, k).len() == vtable_start
            + spec_vtable_len(fields, k),
        spec_vtable_fields(started, vtable_start, fields, k).subrange(0, vtable_start + 4)
            == started.buffer,
        forall|s: int|
            4 <= s < spec_vtable_len(fields, k) && s % 2 == 0 ==> spec_vtable_fields(
                started,
                vtable_start,
                fields,
                k,
            ).subrange(vtable_start + s, vtable_start + s + 2) == #[trigger] spec_slot_bytes(
                fields,
                k,
                s,
            ),
    decreases k,
{
    let after = spec_vtable_fields(started, vtable_start, fields, k);
    if k == 0 {
        assert(after.subrange(0, vtable_start + 4) =~= started.buffer);
    } else {
        let before = spec_vtable_fields(started, vtable_start, fields, (k - 1) as nat);
        lemma_vtable_fields(started, vtable_start, fields, alignment, (k - 1) as nat);
        lemma_vtable_len_even(fields, alignment, (k - 1) as nat);
        lemma_fields_well_formed_index(fields, alignment, fields.len(), k - 1);
        let slot = fields[k - 1].slot as int;
        let entry = spec_voffset_bytes(spec_entry(fields, k - 1));
        let length = spec_vtable_len(fields, (k - 1) as nat);
        assert(entry.len() == 2);
        assert(before.len() - vtable_start == length);
        if slot < length {
            assert(after == spec_write(before, vtable_start + slot, entry));
            assert(after.subrange(0, vtable_start + 4) =~= before.subrange(0, vtable_start + 4));
            assert forall|s: int|
                4 <= s < spec_vtable_len(fields, k) && s % 2 == 0 implies after.subrange(
                vtable_start + s,
                vtable_start + s + 2,
            ) == #[trigger] spec_slot_bytes(fields, k, s) by {
                if s == slot {
                    assert(after.subrange(vtable_start + s, vtable_start + s + 2) =~= entry);
                } else {
                    assert(spec_slot_bytes(fields, k, s) == spec_slot_bytes(
                        fields,
                        (k - 1) as nat,
                        s,
                    ));
                    assert(after.subrange(vtable_start + s, vtable_start + s + 2)
                        =~= before.subrange(vtable_start + s, vtable_start + s + 2));
                }
            }
        } else {
            assert(after == before + spec_zeros(slot - length) + entry);
            assert(after.subrange(0, vtable_start + 4) =~= before.subrange(0, vtable_start + 4));
            assert forall|s: int|
                4 <= s < spec_vtable_len(fields, k) && s % 2 == 0 implies after.subrange(
                vtable_start + s,
                vtable_start + s + 2,
            ) == #[trigger] spec_slot_bytes(fields, k, s) by {
                if s == slot {
                    assert(after.subrange(vtable_start + s, vtable_start + s + 2) =~= entry);
                } else if s < length {
                    assert(spec_slot_bytes(fields, k, s) == spec_slot_bytes(
                        fields,
                        (k - 1) as nat,
                        s,
                    ));
                    assert(after.subrange(vtable_start + s, vtable_start + s + 2)
                        =~= before.subrange(vtable_start + s, vtable_start + s + 2));
                } else {
                    lemma_entered_at(fields, (k - 1) as nat, s);
                    assert(spec_entered_at(fields, (k - 1) as nat, s) is None);
                    assert(after.subrange(vtable_start + s, vtable_start + s + 2) =~= seq![
                        0u8,
                        0u8,
                    ]);
                }
            }
        }
    }
}

/// `bytes` are the vtable of a table with the given fields: they start with the length of
/// the vtable and the size of the table with its header, and hold at every slot the entry
/// of the field that was entered there last, or zero.
pub open spec fn spec_is_vtable_of(bytes: Seq<u8>, fields: Seq<TableField>) -> bool {
    &&& bytes.len() == spec_vtable_len(fields, fields.len())
    &&& bytes.subrange(0, 2) == spec_voffset_bytes(spec_vtable_len(fields, fields.len()))
    &&& bytes.subrange(2, 4) == spec_voffset_bytes(spec_fields_nbytes(fields, fields.len()) + 4)
    &&& forall|s: int|
        4 <= s < bytes.len() && s % 2 == 0 ==> bytes.subrange(s, s + 2)
            == #[trigger] spec_slot_bytes(fields, fields.len(), s)
}

/// The vtable that is written for a table, before it goes through deduplication, starts at
/// the next even place behind what was emitted, leaves that untouched, and is the vtable of
/// the table's fields.
pub proof fn lemma_scratch_vtable(view: BuilderView, fields: Seq<TableField>, alignment: usize)
    requires
        spec_fields_well_formed(fields, alignment, fields.len()),
    ensures
        ({
            let vtable_start = spec_align(view.buffer.len() as int, 2);
            let scratch = crate::builder::emit::spec_scratch_vtable(view, fields);
            &&& vtable_start >= view.buffer.len()
            &&& scratch.buffer.len() == vtable_start + spec_vtable_len(fields, fields.len())
            &&& scratch.buffer.subrange(0, view.buffer.len() as int) == view.buffer
            &&& scratch.components == view.components
            &&& scratch.vtables == view.vtables
            &&& spec_is_vtable_of(scratch.scratch(vtable_start), fields)
        }),
{
    let vtable_start = spec_align(view.buffer.len() as int, 2);
    lemma_align_is_least_multiple(view.buffer.len() as int, 2);
    let started = view.with_buffer(
        crate::builder::emit::spec_aligned(view.buffer, 2) + spec_zeros(4),
    );
    let n = fields.len();
    lemma_vtable_fields(started, vtable_start, fields, alignment, n);
    lemma_vtable_len_even(fields, alignment, n);
    let entered = spec_vtable_fields(started, vtable_start, fields, n);
    let scratch = crate::builder::emit::spec_scratch_vtable(view, fields);
    let sizes = spec_voffset_bytes(entered.len() - vtable_start);
    let inline = spec_voffset_bytes(spec_fields_nbytes(fields, n) + 4);
    let first = spec_write(entered, vtable_start, sizes);
    assert(scratch.buffer == spec_write(first, vtable_start + 2, inline));
    assert(sizes.len() == 2 && inline.len() == 2);
    let bytes = scratch.scratch(vtable_start);
    assert(bytes.subrange(0, 2) =~= sizes);
    assert(bytes.subrange(2, 4) =~= inline);
    assert(scratch.buffer.subrange(0, view.buffer.len() as int) =~= entered.subrange(
        0,
        vtable_start + 4,
    ).subrange(0, view.buffer.len() as int));
    assert(started.buffer.subrange(0, view.buffer.len() as int) =~= view.buffer);
    assert forall|s: int| 4 <= s < bytes.len() && s % 2 == 0 implies bytes.subrange(s, s + 2)
        == #[trigger] spec_slot_bytes(fields, n, s) by {
        assert(bytes.subrange(s, s + 2) =~= entered.subrange(
            vtable_start + s,
            vtable_start + s + 2,
        ));
    }
}

} // verus!
