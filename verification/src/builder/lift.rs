use crate::alignment::{lemma_align_after_is_least, lemma_align_is_least_multiple};
use crate::builder::buffer::{spec_write, BuilderView};
use crate::builder::component::{
    spec_fields_nbytes, spec_fields_well_formed, Component, DesignatedComponent, FieldValue,
    TableField,
};
use crate::builder::emit::{
    lemma_fields_well_formed_index, spec_designated, spec_emit_string, spec_emit_vector,
    spec_len_bytes,
};
use crate::builder::frame::{spec_table_kids, MAX_BUFFER_LEN};
use crate::builder::layout::{
    lemma_nbytes_grow, lemma_nbytes_not_negative, spec_field_bytes, spec_table_laid_out,
};
use crate::builder::run::lemma_write_leaves;
use crate::builder::settle::{lemma_settled_region, spec_all_point, spec_settled};
use crate::builder::tree::{
    spec_children_laid_out, spec_elements_laid_out, spec_points_to, spec_string_laid_out,
    spec_table_own, spec_vector_laid_out,
};
use crate::builder::vtable::{spec_entry, spec_vtable_len};
use vstd::prelude::*;

verus! {

/// What an emission has written for a component, outside the offsets that it lets wait,
/// stands in `f` as the emission has left it.
pub(crate) proof fn lemma_own_region(
    f: Seq<u8>,
    next: BuilderView,
    emitted: Seq<u8>,
    at: int,
    offset: Seq<u8>,
    tail: Seq<DesignatedComponent>,
    kids: Seq<DesignatedComponent>,
    before: int,
    from: int,
    to: int,
)
    requires
        spec_settled(f, next),
        next.buffer == spec_write(emitted, at, offset),
        next.components == tail + kids,
        offset.len() == 4,
        0 <= at,
        at + 4 <= before,
        forall|i: int| 0 <= i < tail.len() ==> (#[trigger] tail[i]).offset_position + 4 <= before,
        before <= from <= to <= emitted.len(),
        forall|k: int|
            0 <= k < kids.len() ==> (#[trigger] kids[k]).offset_position + 4 <= from || to
                <= kids[k].offset_position,
    ensures
        f.subrange(from, to) == emitted.subrange(from, to),
{
    assert forall|i: int| 0 <= i < next.components.len() implies (
    #[trigger] next.components[i]).offset_position + 4 <= from || to
        <= next.components[i].offset_position by {
        if i < tail.len() {
            assert(next.components[i] == tail[i]);
        } else {
            assert(next.components[i] == kids[i - tail.len()]);
        }
    }
    lemma_settled_region(f, next, from, to);
    lemma_write_leaves(emitted, at, offset, from, to);
}

/// A string that has been emitted lies where it starts.
pub(crate) proof fn lemma_string_emitted(view: BuilderView, bytes: Seq<u8>)
    requires
        spec_emit_string(view, bytes).0.buffer.len() <= MAX_BUFFER_LEN,
    ensures
        spec_string_laid_out(
            spec_emit_string(view, bytes).0.buffer,
            spec_emit_string(view, bytes).1 as int,
            bytes,
        ),
        spec_emit_string(view, bytes).0.buffer.len() == spec_emit_string(view, bytes).1 + 4
            + bytes.len() + 1,
{
    let a = spec_emit_string(view, bytes).0.buffer;
    let start = spec_emit_string(view, bytes).1 as int;
    lemma_align_is_least_multiple(view.buffer.len() as int, 4);
    assert(spec_len_bytes(bytes.len() as int).len() == 4);
    assert(a.subrange(start, start + 4) =~= spec_len_bytes(bytes.len() as int));
    assert(a.subrange(start + 4, start + 4 + bytes.len()) =~= bytes);
}

/// A vector of inline values that has been emitted lies where it starts.
pub(crate) proof fn lemma_vector_emitted(view: BuilderView, bytes: Seq<u8>, count: int, alignment: int)
    requires
        alignment > 0,
        spec_emit_vector(view, bytes, count, alignment).0.buffer.len() <= MAX_BUFFER_LEN,
    ensures
        spec_vector_laid_out(
            spec_emit_vector(view, bytes, count, alignment).0.buffer,
            spec_emit_vector(view, bytes, count, alignment).1 as int,
            bytes,
            count,
        ),
        spec_emit_vector(view, bytes, count, alignment).0.buffer.len() == spec_emit_vector(
            view,
            bytes,
            count,
            alignment,
        ).1 + 4 + bytes.len(),
{
    let a = spec_emit_vector(view, bytes, count, alignment).0.buffer;
    let start = spec_emit_vector(view, bytes, count, alignment).1 as int;
    lemma_align_after_is_least(view.buffer.len() as int, 4, alignment);
    assert(spec_len_bytes(count).len() == 4);
    assert(a.subrange(start, start + 4) =~= spec_len_bytes(count));
    assert(a.subrange(start + 4, start + 4 + bytes.len()) =~= bytes);
}

/// A string lies in every buffer that holds from its start on what a buffer holds in
/// which it lies.
pub(crate) proof fn lemma_string_carries_over(f: Seq<u8>, a: Seq<u8>, start: int, bytes: Seq<u8>)
    requires
        spec_string_laid_out(a, start, bytes),
        f.len() >= a.len(),
        f.subrange(start, a.len() as int) == a.subrange(start, a.len() as int),
    ensures
        spec_string_laid_out(f, start, bytes),
{
    let n = bytes.len() as int;
    let own_f = f.subrange(start, a.len() as int);
    let own_a = a.subrange(start, a.len() as int);
    assert(f.subrange(start, start + 4) =~= own_f.subrange(0, 4));
    assert(a.subrange(start, start + 4) =~= own_a.subrange(0, 4));
    assert(f.subrange(start + 4, start + 4 + n) =~= own_f.subrange(4, 4 + n));
    assert(a.subrange(start + 4, start + 4 + n) =~= own_a.subrange(4, 4 + n));
    assert(f[start + 4 + n] == own_f[4 + n]);
    assert(a[start + 4 + n] == own_a[4 + n]);
}

/// A vector of inline values lies in every buffer that holds from its start on what a
/// buffer holds in which it lies.
pub(crate) proof fn lemma_vector_carries_over(
    f: Seq<u8>,
    a: Seq<u8>,
    start: int,
    bytes: Seq<u8>,
    count: int,
)
    requires
        spec_vector_laid_out(a, start, bytes, count),
        f.len() >= a.len(),
        f.subrange(start, a.len() as int) == a.subrange(start, a.len() as int),
    ensures
        spec_vector_laid_out(f, start, bytes, count),
{
    let n = bytes.len() as int;
    let own_f = f.subrange(start, a.len() as int);
    let own_a = a.subrange(start, a.len() as int);
    assert(f.subrange(start, start + 4) =~= own_f.subrange(0, 4));
    assert(a.subrange(start, start + 4) =~= own_a.subrange(0, 4));
    assert(f.subrange(start + 4, start + 4 + n) =~= own_f.subrange(4, 4 + n));
    assert(a.subrange(start + 4, start + 4 + n) =~= own_a.subrange(4, 4 + n));
}

/// Where every element of a vector of references that waits is pointed to, the elements
/// lie where their offsets point to.
pub(crate) proof fn lemma_elements_carried(
    f: Seq<u8>,
    start: int,
    references: Seq<Component>,
    k: nat,
)
    requires
        k <= references.len(),
        0 <= start,
        start + 4 + 4 * references.len() <= MAX_BUFFER_LEN,
        spec_all_point(f, spec_designated(references, start)),
    ensures
        spec_elements_laid_out(f, start, references, k),
    decreases k,
{
    if k > 0 {
        lemma_elements_carried(f, start, references, (k - 1) as nat);
        let kids = spec_designated(references, start);
        assert(kids[k - 1].offset_position == start + 4 + 4 * (k - 1));
        assert(kids[k - 1].component == references[k - 1]);
        assert(spec_points_to(f, kids[k - 1].offset_position as int, kids[k - 1].component));
    }
}

/// Every component that the fields of a table let wait waits for a field that is stored
/// by reference, with the place of that field.
pub(crate) proof fn lemma_table_kid_is_field(fields: Seq<TableField>, start: int, k: nat, i: int)
    requires
        k <= fields.len(),
        0 <= i < spec_table_kids(fields, start, k).len(),
    ensures
        exists|j: int|
            0 <= j < k && (#[trigger] fields[j]).value is Reference && spec_table_kids(
                fields,
                start,
                k,
            )[i].offset_position == (start + spec_entry(fields, j)) as usize,
    decreases k,
{
    let kids = spec_table_kids(fields, start, k);
    let before = spec_table_kids(fields, start, (k - 1) as nat);
    match fields[k - 1].value {
        FieldValue::Scalar(_) => {
            lemma_table_kid_is_field(fields, start, (k - 1) as nat, i);
            let j = choose|j: int|
                0 <= j < k - 1 && (#[trigger] fields[j]).value is Reference
                    && before[i].offset_position == (start + spec_entry(fields, j)) as usize;
            assert(fields[j].value is Reference);
        },
        FieldValue::Reference(_) => {
            if i < before.len() {
                lemma_table_kid_is_field(fields, start, (k - 1) as nat, i);
                let j = choose|j: int|
                    0 <= j < k - 1 && (#[trigger] fields[j]).value is Reference
                        && before[i].offset_position == (start + spec_entry(fields, j)) as usize;
                assert(kids[i] == before[i]);
                assert(fields[j].value is Reference);
            } else {
                assert(fields[k - 1].value is Reference);
            }
        },
    }
}

/// The fields of a table do not overlap: a field ends before every later field starts.
pub(crate) proof fn lemma_fields_apart(fields: Seq<TableField>, alignment: usize, i: int, j: int)
    requires
        spec_fields_well_formed(fields, alignment, fields.len()),
        0 <= i < j < fields.len(),
    ensures
        4 <= spec_entry(fields, i),
        spec_entry(fields, i) + fields[i].value.spec_size() == 4 + spec_fields_nbytes(
            fields,
            (i + 1) as nat,
        ),
        4 + spec_fields_nbytes(fields, (i + 1) as nat) <= spec_entry(fields, j),
        spec_entry(fields, j) + fields[j].value.spec_size() <= 4 + spec_fields_nbytes(
            fields,
            fields.len(),
        ),
{
    lemma_nbytes_grow(fields, alignment, (i + 1) as nat, j as nat);
    lemma_nbytes_grow(fields, alignment, (j + 1) as nat, fields.len());
    lemma_nbytes_not_negative(fields, alignment, i as nat);
    lemma_nbytes_not_negative(fields, alignment, j as nat);
    lemma_fields_well_formed_index(fields, alignment, fields.len(), i);
    lemma_fields_well_formed_index(fields, alignment, fields.len(), j);
    lemma_align_is_least_multiple(
        spec_fields_nbytes(fields, i as nat),
        fields[i].alignment as int,
    );
    lemma_align_is_least_multiple(
        spec_fields_nbytes(fields, j as nat),
        fields[j].alignment as int,
    );
}

/// Every field lies behind the header of its table and inside the table.
pub(crate) proof fn lemma_fields_in_table(fields: Seq<TableField>, alignment: usize, j: int)
    requires
        spec_fields_well_formed(fields, alignment, fields.len()),
        0 <= j < fields.len(),
    ensures
        4 <= spec_entry(fields, j),
        spec_entry(fields, j) + fields[j].value.spec_size() == 4 + spec_fields_nbytes(
            fields,
            (j + 1) as nat,
        ),
        spec_fields_nbytes(fields, (j + 1) as nat) <= spec_fields_nbytes(fields, fields.len()),
{
    lemma_nbytes_grow(fields, alignment, (j + 1) as nat, fields.len());
    lemma_nbytes_not_negative(fields, alignment, j as nat);
    lemma_fields_well_formed_index(fields, alignment, fields.len(), j);
    lemma_align_is_least_multiple(
        spec_fields_nbytes(fields, j as nat),
        fields[j].alignment as int,
    );
}

/// The offsets that the fields of a table let wait lie outside every inline field and
/// behind the header of the table.
pub(crate) proof fn lemma_inline_field_is_settled(
    fields: Seq<TableField>,
    alignment: usize,
    start: int,
    j: int,
)
    requires
        spec_fields_well_formed(fields, alignment, fields.len()),
        0 <= j < fields.len(),
        fields[j].value is Scalar,
        0 <= start,
        start + 4 + spec_fields_nbytes(fields, fields.len()) <= MAX_BUFFER_LEN,
    ensures
        forall|k: int|
            0 <= k < spec_table_kids(fields, start, fields.len()).len() ==> (
            #[trigger] spec_table_kids(fields, start, fields.len())[k]).offset_position + 4
                <= start + spec_entry(fields, j) || start + 4 + spec_fields_nbytes(
                fields,
                (j + 1) as nat,
            ) <= spec_table_kids(fields, start, fields.len())[k].offset_position,
{
    let n = fields.len();
    let kids = spec_table_kids(fields, start, n);
    assert forall|k: int| 0 <= k < kids.len() implies (#[trigger] kids[k]).offset_position + 4
        <= start + spec_entry(fields, j) || start + 4 + spec_fields_nbytes(
        fields,
        (j + 1) as nat,
    ) <= kids[k].offset_position by {
        lemma_table_kid_is_field(fields, start, n, k);
        let r = choose|r: int|
            0 <= r < n && (#[trigger] fields[r]).value is Reference && kids[k].offset_position == (
            start + spec_entry(fields, r)) as usize;
        if r < j {
            lemma_fields_apart(fields, alignment, r, j);
        } else {
            lemma_fields_apart(fields, alignment, j, r);
        }
    }
}

/// Where every component that the fields of a table let wait is pointed to, what the
/// fields point to lies where their offsets point to.
pub(crate) proof fn lemma_children_carried(
    f: Seq<u8>,
    start: int,
    fields: Seq<TableField>,
    alignment: usize,
    k: nat,
)
    requires
        spec_fields_well_formed(fields, alignment, fields.len()),
        k <= fields.len(),
        0 <= start,
        start + 4 + spec_fields_nbytes(fields, fields.len()) <= MAX_BUFFER_LEN,
        spec_all_point(f, spec_table_kids(fields, start, k)),
    ensures
        spec_children_laid_out(f, start, fields, k),
    decreases k,
{
    if k > 0 {
        let kids = spec_table_kids(fields, start, k);
        let before = spec_table_kids(fields, start, (k - 1) as nat);
        assert(spec_all_point(f, before)) by {
            assert forall|i: int| 0 <= i < before.len() implies spec_points_to(
                f,
                (#[trigger] before[i]).offset_position as int,
                before[i].component,
            ) by {
                assert(kids[i] == before[i]);
            }
        }
        lemma_children_carried(f, start, fields, alignment, (k - 1) as nat);
        match fields[k - 1].value {
            FieldValue::Scalar(_) => {},
            FieldValue::Reference(c) => {
                lemma_nbytes_grow(fields, alignment, k, fields.len());
                lemma_nbytes_not_negative(fields, alignment, (k - 1) as nat);
                lemma_fields_well_formed_index(fields, alignment, fields.len(), k - 1);
                lemma_align_is_least_multiple(
                    spec_fields_nbytes(fields, (k - 1) as nat),
                    fields[k - 1].alignment as int,
                );
                let last = kids[kids.len() - 1];
                assert(last.component == c);
                assert(last.offset_position == start + spec_entry(fields, k - 1));
                assert(spec_points_to(f, last.offset_position as int, last.component));
            },
        }
    }
}

/// What a table holds by itself lies in every buffer that holds its vtable, its header and
/// its inline fields as a buffer holds them in which the table lies as the format asks.
pub(crate) proof fn lemma_table_own_carries(
    f: Seq<u8>,
    a: Seq<u8>,
    start: int,
    position: int,
    fields: Seq<TableField>,
)
    requires
        spec_table_laid_out(a, start, position, fields),
        f.len() >= a.len(),
        f.subrange(position, position + spec_vtable_len(fields, fields.len())) == a.subrange(
            position,
            position + spec_vtable_len(fields, fields.len()),
        ),
        f.subrange(start, start + 4) == a.subrange(start, start + 4),
        forall|j: int|
            0 <= j < fields.len() && (#[trigger] fields[j]).value is Scalar ==> f.subrange(
                start + spec_entry(fields, j),
                start + 4 + spec_fields_nbytes(fields, (j + 1) as nat),
            ) == a.subrange(
                start + spec_entry(fields, j),
                start + 4 + spec_fields_nbytes(fields, (j + 1) as nat),
            ),
    ensures
        spec_table_own(f, start, position, fields),
{
    assert forall|j: int|
        0 <= j < fields.len() && (#[trigger] fields[j]).value is Scalar implies f.subrange(
        start + spec_entry(fields, j),
        start + 4 + spec_fields_nbytes(fields, (j + 1) as nat),
    ) == fields[j].value->Scalar_0@ by {
        assert(spec_field_bytes(fields[j]) == fields[j].value->Scalar_0@);
    }
}

} // verus!
