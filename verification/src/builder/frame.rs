use crate::alignment::{is_power_of_two, lemma_align_after_is_least, lemma_align_is_least_multiple};
use crate::builder::buffer::BuilderView;
use crate::builder::component::{
    spec_all_well_formed, spec_fields_nbytes, spec_fields_well_formed, Component,
    DesignatedComponent, FieldValue, TableField,
};
use crate::builder::emit::{
    lemma_all_well_formed_index, lemma_fields_well_formed_index, spec_aligned, spec_designated,
    spec_emit, spec_emit_table, spec_scratch_vtable, spec_table_fields,
};
use crate::builder::layout::{
    lemma_emit_table_in_stages, lemma_fields_stand_where_entered, lemma_headed, lemma_nbytes_grow,
    lemma_nbytes_not_negative, lemma_table_fields_extend, spec_headed,
};
use crate::builder::vtable::spec_entry;
use vstd::prelude::*;

verus! {

/// The largest length of a buffer in which every offset can be written and read.
pub const MAX_BUFFER_LEN: usize = 0x7fff_ffff;

/// The components that the first `k` fields of a table let wait: for every field that is
/// stored by reference, the component with the place of the field.
pub open spec fn spec_table_kids(fields: Seq<TableField>, start: int, k: nat) -> Seq<
    DesignatedComponent,
>
    decreases k,
{
    if k == 0 || k > fields.len() {
        Seq::empty()
    } else {
        let before = spec_table_kids(fields, start, (k - 1) as nat);
        match fields[k - 1].value {
            FieldValue::Scalar(_) => before,
            FieldValue::Reference(c) => before.push(
                DesignatedComponent {
                    offset_position: (start + spec_entry(fields, k - 1)) as usize,
                    component: c,
                },
            ),
        }
    }
}

/// The components that a component lets wait when it is emitted at `start`.
pub open spec fn spec_kids(c: Component, start: int) -> Seq<DesignatedComponent> {
    match c {
        Component::ReferencesVector(v) => spec_designated(v.references@, start),
        Component::Table(t) => spec_table_kids(t.fields@, start, t.fields@.len()),
        _ => Seq::empty(),
    }
}

/// The places of the offsets of the components that wait lie between `low` and `high`,
/// ascend, and do not overlap; and every component can be emitted.
pub open spec fn spec_slots_in_order(queue: Seq<DesignatedComponent>, low: int, high: int) -> bool {
    &&& forall|i: int|
        0 <= i < queue.len() ==> {
            &&& low <= (#[trigger] queue[i]).offset_position
            &&& queue[i].offset_position + 4 <= high
            &&& queue[i].component.spec_well_formed()
        }
    &&& forall|i: int, j: int|
        0 <= i < j < queue.len() ==> (#[trigger] queue[i]).offset_position + 4 <= (
        #[trigger] queue[j]).offset_position
}

/// The components that the fields of a table let wait have their offsets in the table,
/// one after the other.
pub(crate) proof fn lemma_table_kids_in_order(
    fields: Seq<TableField>,
    alignment: usize,
    start: int,
    k: nat,
)
    requires
        spec_fields_well_formed(fields, alignment, fields.len()),
        k <= fields.len(),
        0 <= start,
        start + 4 + spec_fields_nbytes(fields, fields.len()) <= usize::MAX,
    ensures
        spec_slots_in_order(
            spec_table_kids(fields, start, k),
            start + 4,
            start + 4 + spec_fields_nbytes(fields, k),
        ),
    decreases k,
{
    lemma_nbytes_not_negative(fields, alignment, k);
    if k > 0 {
        lemma_table_kids_in_order(fields, alignment, start, (k - 1) as nat);
        lemma_fields_well_formed_index(fields, alignment, fields.len(), k - 1);
        lemma_nbytes_not_negative(fields, alignment, (k - 1) as nat);
        lemma_nbytes_grow(fields, alignment, k, fields.len());
        lemma_align_is_least_multiple(
            spec_fields_nbytes(fields, (k - 1) as nat),
            fields[k - 1].alignment as int,
        );
        let before = spec_table_kids(fields, start, (k - 1) as nat);
        let after = spec_table_kids(fields, start, k);
        match fields[k - 1].value {
            FieldValue::Scalar(_) => {},
            FieldValue::Reference(c) => {
                assert forall|i: int| 0 <= i < after.len() implies {
                    &&& start + 4 <= (#[trigger] after[i]).offset_position
                    &&& after[i].offset_position + 4 <= start + 4 + spec_fields_nbytes(fields, k)
                    &&& after[i].component.spec_well_formed()
                } by {
                    if i < before.len() {
                        assert(after[i] == before[i]);
                    }
                }
                assert forall|i: int, j: int| 0 <= i < j < after.len() implies (
                #[trigger] after[i]).offset_position + 4 <= (
                #[trigger] after[j]).offset_position by {
                    assert(after[i] == before[i]);
                    if j < before.len() {
                        assert(after[j] == before[j]);
                    }
                }
            },
        }
    }
}

/// Emitting the fields of a table lets wait what the fields that are stored by reference
/// hold, each with the place at which the field stands.
pub(crate) proof fn lemma_table_fields_kids(
    view: BuilderView,
    fields: Seq<TableField>,
    alignment: usize,
    k: nat,
)
    requires
        is_power_of_two(alignment),
        spec_fields_well_formed(fields, alignment, fields.len()),
        view.buffer.len() >= 4,
        view.buffer.len() % (alignment as nat) == 0,
        k <= fields.len(),
    ensures
        spec_table_fields(view, fields, k).components == view.components + spec_table_kids(
            fields,
            view.buffer.len() - 4,
            k,
        ),
    decreases k,
{
    if k == 0 {
        assert(view.components + Seq::<DesignatedComponent>::empty() =~= view.components);
    } else {
        lemma_table_fields_kids(view, fields, alignment, (k - 1) as nat);
        lemma_fields_stand_where_entered(view, fields, alignment, (k - 1) as nat);
        let before = spec_table_fields(view, fields, (k - 1) as nat);
        let kids = spec_table_kids(fields, view.buffer.len() - 4, (k - 1) as nat);
        match fields[k - 1].value {
            FieldValue::Scalar(_) => {},
            FieldValue::Reference(c) => {
                let aligned = spec_aligned(before.buffer, fields[k - 1].alignment as int);
                let waiting = DesignatedComponent {
                    offset_position: aligned.len() as usize,
                    component: c,
                };
                assert(aligned.len() == view.buffer.len() - 4 + spec_entry(fields, k - 1));
                assert((view.components + kids).push(waiting) =~= view.components + kids.push(
                    waiting,
                ));
            },
        }
    }
}

/// The emission of a component in the state `view` stays within the largest length of a
/// buffer: the buffer is within it before the emission and after.
pub open spec fn spec_emit_fits(view: BuilderView, c: Component) -> bool {
    &&& view.buffer.len() <= MAX_BUFFER_LEN
    &&& spec_emit(view, c).0.buffer.len() <= MAX_BUFFER_LEN
}

/// While the vtable of a table that fits the format waits for deduplication, the buffer
/// fits the machine, where it was within the largest length of a buffer before.
pub(crate) proof fn lemma_scratch_fits(view: BuilderView, t: crate::builder::component::TableComponent)
    requires
        Component::Table(t).spec_well_formed(),
        crate::builder::tree::spec_fits_format(Component::Table(t)),
        view.buffer.len() <= MAX_BUFFER_LEN,
    ensures
        spec_scratch_vtable(view, t.fields@).buffer.len() <= usize::MAX,
{
    crate::builder::vtable::lemma_scratch_vtable(view, t.fields@, t.alignment);
    lemma_align_is_least_multiple(view.buffer.len() as int, 2);
}

/// What an emission does to the buffer and to what waits: the component starts behind what
/// was emitted, which is left as it was, and what it lets wait has its offsets inside what
/// has been emitted for it.
pub open spec fn spec_emission(
    view: BuilderView,
    c: Component,
    after: BuilderView,
    start: int,
) -> bool {
    spec_emission_with(view, after, start, spec_kids(c, start))
}

/// As `spec_emission`, of what is let wait.
pub open spec fn spec_emission_with(
    view: BuilderView,
    after: BuilderView,
    start: int,
    kids: Seq<DesignatedComponent>,
) -> bool {
    &&& view.buffer.len() <= start <= after.buffer.len()
    &&& after.buffer.subrange(0, view.buffer.len() as int) == view.buffer
    &&& after.components == view.components + kids
    &&& spec_slots_in_order(kids, start, after.buffer.len() as int)
}

/// The emission of a string leaves what was emitted and lets nothing wait.
pub(crate) proof fn lemma_emission_of_string(view: BuilderView, bytes: Seq<u8>)
    requires
        crate::builder::emit::spec_emit_string(view, bytes).0.buffer.len() <= MAX_BUFFER_LEN,
    ensures
        spec_emission_with(
            view,
            crate::builder::emit::spec_emit_string(view, bytes).0,
            crate::builder::emit::spec_emit_string(view, bytes).1 as int,
            Seq::empty(),
        ),
{
    let after = crate::builder::emit::spec_emit_string(view, bytes).0;
    lemma_align_is_least_multiple(view.buffer.len() as int, 4);
    assert(after.buffer.subrange(0, view.buffer.len() as int) =~= view.buffer);
    assert(view.components + Seq::<DesignatedComponent>::empty() =~= view.components);
}

/// The emission of a vector of inline values leaves what was emitted and lets nothing
/// wait.
pub(crate) proof fn lemma_emission_of_vector(
    view: BuilderView,
    bytes: Seq<u8>,
    count: int,
    alignment: int,
)
    requires
        alignment > 0,
        crate::builder::emit::spec_emit_vector(view, bytes, count, alignment).0.buffer.len()
            <= MAX_BUFFER_LEN,
    ensures
        spec_emission_with(
            view,
            crate::builder::emit::spec_emit_vector(view, bytes, count, alignment).0,
            crate::builder::emit::spec_emit_vector(view, bytes, count, alignment).1 as int,
            Seq::empty(),
        ),
{
    let after = crate::builder::emit::spec_emit_vector(view, bytes, count, alignment).0;
    lemma_align_after_is_least(view.buffer.len() as int, 4, alignment);
    assert(after.buffer.subrange(0, view.buffer.len() as int) =~= view.buffer);
    assert(view.components + Seq::<DesignatedComponent>::empty() =~= view.components);
}

/// The emission of a vector of references leaves what was emitted and lets the elements
/// wait, each with the place of its offset in the vector.
pub(crate) proof fn lemma_emission_of_references(view: BuilderView, references: Seq<Component>)
    requires
        spec_all_well_formed(references, references.len()),
        crate::builder::emit::spec_emit_references(view, references).0.buffer.len()
            <= MAX_BUFFER_LEN,
    ensures
        spec_emission_with(
            view,
            crate::builder::emit::spec_emit_references(view, references).0,
            crate::builder::emit::spec_emit_references(view, references).1 as int,
            spec_designated(
                references,
                crate::builder::emit::spec_emit_references(view, references).1 as int,
            ),
        ),
{
    let after = crate::builder::emit::spec_emit_references(view, references).0;
    let start = crate::builder::emit::spec_emit_references(view, references).1 as int;
    lemma_align_after_is_least(view.buffer.len() as int, 4, 4);
    let kids = spec_designated(references, start);
    assert(after.buffer.subrange(0, view.buffer.len() as int) =~= view.buffer);
    assert forall|i: int| 0 <= i < kids.len() implies {
        &&& start <= (#[trigger] kids[i]).offset_position
        &&& kids[i].offset_position + 4 <= after.buffer.len()
        &&& kids[i].component.spec_well_formed()
    } by {
        lemma_all_well_formed_index(references, references.len(), i);
    }
}

/// The emission of a table does to the buffer and to what waits what an emission does.
pub(crate) proof fn lemma_emission_of_table(
    view: BuilderView,
    t: crate::builder::component::TableComponent,
)
    requires
        Component::Table(t).spec_well_formed(),
        crate::builder::tree::spec_fits_format(Component::Table(t)),
        spec_emit_fits(view, Component::Table(t)),
    ensures
        spec_emission(
            view,
            Component::Table(t),
            spec_emit_table(view, t).0,
            spec_emit_table(view, t).1 as int,
        ),
        spec_emit_table(view, t).1 == spec_headed(view, t).buffer.len() - 4,
        spec_emit_table(view, t).0.buffer.len() == spec_headed(view, t).buffer.len()
            + spec_fields_nbytes(t.fields@, t.fields@.len()),
{
    let fields = t.fields@;
    let n = fields.len();
    let headed = spec_headed(view, t);
    lemma_scratch_fits(view, t);
    lemma_headed(view, t);
    lemma_emit_table_in_stages(view, t);
    lemma_table_fields_extend(headed, fields, n);
    lemma_fields_stand_where_entered(headed, fields, t.alignment, n);
    lemma_nbytes_not_negative(fields, t.alignment, n);
    let after = spec_table_fields(headed, fields, n);
    let start = headed.buffer.len() - 4;
    assert(after.buffer.subrange(0, view.buffer.len() as int) =~= after.buffer.subrange(
        0,
        headed.buffer.len() as int,
    ).subrange(0, view.buffer.len() as int));
    lemma_table_fields_kids(headed, fields, t.alignment, n);
    lemma_table_kids_in_order(fields, t.alignment, start, n);
    assert(headed.components == view.components);
}

proof fn lemma_emission_string_case(view: BuilderView, c: Component)
    requires
        c is String,
        spec_emit_fits(view, c),
    ensures
        spec_emission(view, c, spec_emit(view, c).0, spec_emit(view, c).1 as int),
{
    lemma_emission_of_string(view, vstd::utf8::encode_utf8(c->String_0.text@));
}

proof fn lemma_emission_vector_case(view: BuilderView, c: Component)
    requires
        c is ScalarsVector,
        c.spec_well_formed(),
        spec_emit_fits(view, c),
    ensures
        spec_emission(view, c, spec_emit(view, c).0, spec_emit(view, c).1 as int),
{
    let v = c->ScalarsVector_0;
    lemma_emission_of_vector(
        view,
        v.scalars@,
        v.len as int,
        (v.scalars@.len() / (v.len as nat)) as int,
    );
}

/// The alignment that a component that can be emitted asks for is a power of two.
pub(crate) proof fn lemma_alignment_is_power_of_two(c: Component)
    requires
        c.spec_well_formed(),
    ensures
        is_power_of_two(c.spec_alignment()),
        c.spec_alignment() > 0,
{
    crate::alignment::lemma_small_powers_of_two();
}

proof fn lemma_emission_nested_case(view: BuilderView, c: Component)
    requires
        c is NestedBuffer,
        c.spec_well_formed(),
        spec_emit_fits(view, c),
    ensures
        spec_emission(view, c, spec_emit(view, c).0, spec_emit(view, c).1 as int),
{
    let n = c->NestedBuffer_0;
    let inner = crate::builder::emit::spec_build(*n.root);
    lemma_alignment_is_power_of_two(*n.root);
    lemma_emission_of_vector(view, inner, inner.len() as int, n.root.spec_alignment() as int);
}

proof fn lemma_emission_references_case(view: BuilderView, c: Component)
    requires
        c is ReferencesVector,
        c.spec_well_formed(),
        spec_emit_fits(view, c),
    ensures
        spec_emission(view, c, spec_emit(view, c).0, spec_emit(view, c).1 as int),
{
    lemma_emission_of_references(view, c->ReferencesVector_0.references@);
}

proof fn lemma_emission_empty_case(view: BuilderView, c: Component)
    requires
        c is Empty,
        spec_emit_fits(view, c),
    ensures
        spec_emission(view, c, spec_emit(view, c).0, spec_emit(view, c).1 as int),
{
    assert(view.buffer.subrange(0, view.buffer.len() as int) =~= view.buffer);
    assert(view.components + Seq::<DesignatedComponent>::empty() =~= view.components);
}

/// Every emission does what an emission does: it leaves what was emitted, starts behind
/// it, and lets wait what the component points to, with the offsets inside what has been
/// emitted for the component.
pub proof fn lemma_emission(view: BuilderView, c: Component)
    requires
        c.spec_well_formed(),
        crate::builder::tree::spec_fits_format(c),
        spec_emit_fits(view, c),
    ensures
        spec_emission(view, c, spec_emit(view, c).0, spec_emit(view, c).1 as int),
{
    match c {
        Component::Table(t) => {
            lemma_emission_of_table(view, t);
        },
        Component::ReferencesVector(_) => {
            lemma_emission_references_case(view, c);
        },
        Component::String(_) => {
            lemma_emission_string_case(view, c);
        },
        Component::ScalarsVector(_) => {
            lemma_emission_vector_case(view, c);
        },
        Component::NestedBuffer(_) => {
            lemma_emission_nested_case(view, c);
        },
        Component::Empty => {
            lemma_emission_empty_case(view, c);
        },
    }
}

} // verus!
