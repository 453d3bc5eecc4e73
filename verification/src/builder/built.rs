use crate::builder::buffer::{spec_hash, BuilderView};
use crate::builder::component::{Component, TableComponent};
use crate::builder::emit::{spec_emit, spec_emit_table, spec_len_bytes, spec_run};
use crate::builder::frame::{
    lemma_emission_of_table, lemma_table_kids_in_order, spec_emit_fits, spec_kids, spec_table_kids,
    MAX_BUFFER_LEN,
};
use crate::builder::layout::{
    lemma_emitted_table_is_laid_out, lemma_nbytes_not_negative, spec_table_laid_out,
    spec_vtable_position,
};
use crate::builder::lift::{
    lemma_children_carried, lemma_inline_field_is_settled, lemma_own_region,
    lemma_table_own_carries,
};
use crate::builder::run::{
    lemma_inv_next, lemma_next_shape, lemma_recorded_len, lemma_write_leaves, spec_inv, spec_next,
    spec_record_frozen, spec_recorded_len, spec_rest,
};
use crate::builder::settle::{lemma_settled_region, spec_all_point, spec_settled};
use crate::builder::sharing::lemma_vtable_stays_on_record;
use crate::builder::tree::{
    lemma_vtable_of, spec_fits_format, spec_laid_out, spec_points_to, spec_table_own,
};
use crate::builder::vtable::{lemma_vtable_len_even, spec_entry, spec_vtable_len};
use vstd::prelude::*;

verus! {

/// The table at `start` starts with the distance back to `position`.
pub open spec fn spec_laid_out_header(f: Seq<u8>, start: int, position: int) -> bool {
    &&& 0 <= start - position < 0x8000_0000
    &&& f.subrange(start, start + 4) == spec_len_bytes(start - position)
}

/// The vtable that the table whose turn it is points to stands in the buffer that the
/// builder gives as the emission of the table has left it.
pub(crate) proof fn lemma_vtable_settled(view: BuilderView, f: Seq<u8>, t: TableComponent)
    requires
        spec_inv(view),
        view.components.len() > 0,
        view.components[0].component == Component::Table(t),
        spec_emit_fits(spec_rest(view), Component::Table(t)),
        spec_settled(f, spec_next(view)),
    ensures
        ({
            let emitted = spec_emit_table(spec_rest(view), t).0.buffer;
            let position = spec_vtable_position(spec_rest(view), t) as int;
            let length = spec_vtable_len(t.fields@, t.fields@.len());
            &&& position + length <= emitted.len()
            &&& f.subrange(position, position + length) == emitted.subrange(
                position,
                position + length,
            )
        }),
{
    let head = view.components[0];
    let rest = spec_rest(view);
    let next = spec_next(view);
    let fields = t.fields@;
    let n = fields.len();
    let emitted = spec_emit_table(rest, t).0;
    let position = spec_vtable_position(rest, t) as int;
    let length = spec_vtable_len(fields, n);
    let offset = spec_len_bytes(spec_emit_table(rest, t).1 - head.offset_position);
    assert(offset.len() == 4);
    assert(spec_fits_format(head.component));
    lemma_vtable_len_even(fields, t.alignment, n);
    crate::builder::frame::lemma_scratch_fits(rest, t);
    lemma_vtable_stays_on_record(rest, t);
    let vtable_start = crate::alignment::spec_align(rest.buffer.len() as int, 2);
    crate::alignment::lemma_align_is_least_multiple(rest.buffer.len() as int, 2);
    let scratch = crate::builder::emit::spec_scratch_vtable(rest, fields);
    crate::builder::vtable::lemma_scratch_vtable(rest, fields, t.alignment);
    let bytes = scratch.scratch(vtable_start);
    assert(bytes.len() == length);
    let h = spec_hash(bytes);
    lemma_next_shape(view);
    lemma_inv_next(view);
    assert(next.vtables.contains_key(h));
    assert(next.vtables[h] == position);
    assert(spec_record_frozen(next, position));
    assert(emitted.buffer.subrange(position, position + 2) =~= bytes.subrange(0, 2));
    lemma_recorded_len(emitted.buffer, position, length);
    assert(head.offset_position + 4 <= position || position + length
        <= head.offset_position) by {
        if scratch.finds(vtable_start) {
            assert(view.vtables.contains_key(h));
            assert(spec_record_frozen(view, position));
            assert(view.buffer.subrange(position, position + 2) =~= emitted.buffer.subrange(
                0,
                view.buffer.len() as int,
            ).subrange(position, position + 2));
            assert(emitted.buffer.subrange(0, view.buffer.len() as int).subrange(
                position,
                position + 2,
            ) =~= emitted.buffer.subrange(position, position + 2));
            assert(spec_recorded_len(view.buffer, position) == length);
        } else {
            assert(position == vtable_start);
        }
    }
    lemma_write_leaves(
        emitted.buffer,
        head.offset_position as int,
        offset,
        position,
        position + 2,
    );
    assert(spec_recorded_len(next.buffer, position) == length);
    lemma_settled_region(f, next, position, position + length);
    lemma_write_leaves(
        emitted.buffer,
        head.offset_position as int,
        offset,
        position,
        position + length,
    );
}

/// What the components that an emission lets wait are pointed to as, where everything
/// that waits after the emission is.
pub(crate) proof fn lemma_kids_point(view: BuilderView, f: Seq<u8>)
    requires
        view.components.len() > 0,
        view.components[0].component.spec_well_formed(),
        spec_fits_format(view.components[0].component),
        spec_emit_fits(spec_rest(view), view.components[0].component),
        spec_all_point(f, spec_next(view).components),
    ensures
        spec_all_point(
            f,
            spec_kids(
                view.components[0].component,
                spec_emit(spec_rest(view), view.components[0].component).1 as int,
            ),
        ),
{
    let head = view.components[0];
    let tail = view.components.drop_first();
    let next = spec_next(view);
    let kids = spec_kids(head.component, spec_emit(spec_rest(view), head.component).1 as int);
    lemma_next_shape(view);
    assert forall|i: int| 0 <= i < kids.len() implies spec_points_to(
        f,
        (#[trigger] kids[i]).offset_position as int,
        kids[i].component,
    ) by {
        assert(next.components[tail.len() + i] == kids[i]);
    }
}

/// What the table whose turn it is holds by itself lies in the buffer that the builder
/// gives.
pub(crate) proof fn lemma_table_head_own(view: BuilderView, f: Seq<u8>, t: TableComponent)
    requires
        spec_inv(view),
        view.components.len() > 0,
        view.components[0].component == Component::Table(t),
        spec_emit_fits(spec_rest(view), Component::Table(t)),
        spec_settled(f, spec_next(view)),
    ensures
        spec_table_own(
            f,
            spec_emit_table(spec_rest(view), t).1 as int,
            spec_vtable_position(spec_rest(view), t) as int,
            t.fields@,
        ),
        spec_laid_out_header(
            f,
            spec_emit_table(spec_rest(view), t).1 as int,
            spec_vtable_position(spec_rest(view), t) as int,
        ),
{
    let head = view.components[0];
    let tail = view.components.drop_first();
    let rest = spec_rest(view);
    let next = spec_next(view);
    let fields = t.fields@;
    let n = fields.len();
    let emitted = spec_emit_table(rest, t).0.buffer;
    let start = spec_emit_table(rest, t).1 as int;
    let position = spec_vtable_position(rest, t) as int;
    let offset = spec_len_bytes(spec_emit_table(rest, t).1 - head.offset_position);
    let kids = spec_table_kids(fields, start, n);
    assert(offset.len() == 4);
    lemma_next_shape(view);
    crate::builder::frame::lemma_scratch_fits(rest, t);
    lemma_emission_of_table(rest, t);
    lemma_emitted_table_is_laid_out(rest, t);
    lemma_nbytes_not_negative(fields, t.alignment, n);
    lemma_table_kids_in_order(fields, t.alignment, start, n);
    assert(spec_table_laid_out(emitted, start, position, fields));
    assert forall|i: int| 0 <= i < tail.len() implies (#[trigger] tail[i]).offset_position + 4
        <= view.buffer.len() by {
        assert(tail[i] == view.components[i + 1]);
    }
    lemma_vtable_settled(view, f, t);
    lemma_own_region(
        f,
        next,
        emitted,
        head.offset_position as int,
        offset,
        tail,
        kids,
        view.buffer.len() as int,
        start,
        start + 4,
    );
    assert forall|j: int|
        0 <= j < n && (#[trigger] fields[j]).value is Scalar implies f.subrange(
        start + spec_entry(fields, j),
        start + 4 + crate::builder::component::spec_fields_nbytes(fields, (j + 1) as nat),
    ) == emitted.subrange(
        start + spec_entry(fields, j),
        start + 4 + crate::builder::component::spec_fields_nbytes(fields, (j + 1) as nat),
    ) by {
        lemma_inline_field_is_settled(fields, t.alignment, start, j);
        crate::builder::lift::lemma_fields_in_table(fields, t.alignment, j);
        lemma_own_region(
            f,
            next,
            emitted,
            head.offset_position as int,
            offset,
            tail,
            kids,
            view.buffer.len() as int,
            start + spec_entry(fields, j),
            start + 4 + crate::builder::component::spec_fields_nbytes(fields, (j + 1) as nat),
        );
    }
    lemma_table_own_carries(f, emitted, start, position, fields);
}

/// The table whose turn it is lies in the buffer that the builder gives, with everything
/// that it points to.
pub(crate) proof fn lemma_head_table(view: BuilderView, f: Seq<u8>, t: TableComponent)
    requires
        spec_inv(view),
        view.components.len() > 0,
        view.components[0].component == Component::Table(t),
        spec_emit_fits(spec_rest(view), Component::Table(t)),
        spec_settled(f, spec_next(view)),
        spec_all_point(f, spec_next(view).components),
    ensures
        spec_laid_out(f, spec_emit_table(spec_rest(view), t).1 as int, Component::Table(t)),
{
    let rest = spec_rest(view);
    let start = spec_emit_table(rest, t).1 as int;
    let position = spec_vtable_position(rest, t) as int;
    lemma_table_head_own(view, f, t);
    lemma_vtable_of(f, start, position);
    lemma_kids_point(view, f);
    lemma_emission_of_table(rest, t);
    lemma_children_carried(f, start, t.fields@, t.alignment, t.fields@.len());
}

/// What the state holds behind what was emitted before the component whose turn it is,
/// where that component lets nothing wait, stands in the buffer that the builder gives as
/// the emission has left it.
pub(crate) proof fn lemma_leaf_settled(view: BuilderView, f: Seq<u8>)
    requires
        spec_inv(view),
        view.components.len() > 0,
        spec_emit_fits(spec_rest(view), view.components[0].component),
        spec_kids(
            view.components[0].component,
            spec_emit(spec_rest(view), view.components[0].component).1 as int,
        ).len() == 0,
        spec_settled(f, spec_next(view)),
    ensures
        ({
            let emitted = spec_emit(spec_rest(view), view.components[0].component);
            &&& f.len() >= emitted.0.buffer.len()
            &&& view.buffer.len() <= emitted.1 <= emitted.0.buffer.len()
            &&& f.subrange(emitted.1 as int, emitted.0.buffer.len() as int)
                == emitted.0.buffer.subrange(emitted.1 as int, emitted.0.buffer.len() as int)
        }),
{
    let head = view.components[0];
    let tail = view.components.drop_first();
    let rest = spec_rest(view);
    let next = spec_next(view);
    let emitted = spec_emit(rest, head.component);
    let offset = spec_len_bytes(emitted.1 - head.offset_position);
    assert(offset.len() == 4);
    lemma_next_shape(view);
    assert forall|i: int| 0 <= i < tail.len() implies (#[trigger] tail[i]).offset_position + 4
        <= view.buffer.len() by {
        assert(tail[i] == view.components[i + 1]);
    }
    lemma_own_region(
        f,
        next,
        emitted.0.buffer,
        head.offset_position as int,
        offset,
        tail,
        spec_kids(head.component, emitted.1 as int),
        view.buffer.len() as int,
        emitted.1 as int,
        emitted.0.buffer.len() as int,
    );
}

/// The string whose turn it is lies in the buffer that the builder gives.
pub(crate) proof fn lemma_head_string(view: BuilderView, f: Seq<u8>)
    requires
        spec_inv(view),
        view.components.len() > 0,
        view.components[0].component is String,
        spec_emit_fits(spec_rest(view), view.components[0].component),
        spec_settled(f, spec_next(view)),
    ensures
        spec_laid_out(
            f,
            spec_emit(spec_rest(view), view.components[0].component).1 as int,
            view.components[0].component,
        ),
{
    let c = view.components[0].component;
    let bytes = vstd::utf8::encode_utf8(c->String_0.text@);
    let emitted = spec_emit(spec_rest(view), c);
    lemma_leaf_settled(view, f);
    crate::builder::lift::lemma_string_emitted(spec_rest(view), bytes);
    crate::builder::lift::lemma_string_carries_over(
        f,
        emitted.0.buffer,
        emitted.1 as int,
        bytes,
    );
}

/// The vector of inline values whose turn it is lies in the buffer that the builder
/// gives.
pub(crate) proof fn lemma_head_vector(view: BuilderView, f: Seq<u8>)
    requires
        spec_inv(view),
        view.components.len() > 0,
        view.components[0].component is ScalarsVector,
        spec_emit_fits(spec_rest(view), view.components[0].component),
        spec_settled(f, spec_next(view)),
    ensures
        spec_laid_out(
            f,
            spec_emit(spec_rest(view), view.components[0].component).1 as int,
            view.components[0].component,
        ),
{
    let c = view.components[0].component;
    let v = c->ScalarsVector_0;
    let alignment = (v.scalars@.len() / (v.len as nat)) as int;
    let emitted = spec_emit(spec_rest(view), c);
    lemma_leaf_settled(view, f);
    crate::builder::lift::lemma_vector_emitted(
        spec_rest(view),
        v.scalars@,
        v.len as int,
        alignment,
    );
    crate::builder::lift::lemma_vector_carries_over(
        f,
        emitted.0.buffer,
        emitted.1 as int,
        v.scalars@,
        v.len as int,
    );
}

/// The nested buffer whose turn it is lies in the buffer that the builder gives.
pub(crate) proof fn lemma_head_nested(view: BuilderView, f: Seq<u8>)
    requires
        spec_inv(view),
        view.components.len() > 0,
        view.components[0].component is NestedBuffer,
        spec_emit_fits(spec_rest(view), view.components[0].component),
        spec_settled(f, spec_next(view)),
    ensures
        spec_laid_out(
            f,
            spec_emit(spec_rest(view), view.components[0].component).1 as int,
            view.components[0].component,
        ),
{
    let c = view.components[0].component;
    let n = c->NestedBuffer_0;
    let inner = crate::builder::emit::spec_build(*n.root);
    let emitted = spec_emit(spec_rest(view), c);
    crate::builder::frame::lemma_alignment_is_power_of_two(*n.root);
    lemma_leaf_settled(view, f);
    crate::builder::lift::lemma_vector_emitted(
        spec_rest(view),
        inner,
        inner.len() as int,
        n.root.spec_alignment() as int,
    );
    crate::builder::lift::lemma_vector_carries_over(
        f,
        emitted.0.buffer,
        emitted.1 as int,
        inner,
        inner.len() as int,
    );
}

/// The vector of references whose turn it is lies in the buffer that the builder gives,
/// with everything that it points to.
pub(crate) proof fn lemma_head_references(view: BuilderView, f: Seq<u8>)
    requires
        spec_inv(view),
        view.components.len() > 0,
        view.components[0].component is ReferencesVector,
        spec_emit_fits(spec_rest(view), view.components[0].component),
        spec_settled(f, spec_next(view)),
        spec_all_point(f, spec_next(view).components),
    ensures
        spec_laid_out(
            f,
            spec_emit(spec_rest(view), view.components[0].component).1 as int,
            view.components[0].component,
        ),
{
    let head = view.components[0];
    let tail = view.components.drop_first();
    let rest = spec_rest(view);
    let next = spec_next(view);
    let references = head.component->ReferencesVector_0.references@;
    let emitted = spec_emit(rest, head.component);
    let start = emitted.1 as int;
    let kids = crate::builder::emit::spec_designated(references, start);
    let offset = spec_len_bytes(emitted.1 - head.offset_position);
    assert(offset.len() == 4);
    lemma_next_shape(view);
    crate::alignment::lemma_align_after_is_least(rest.buffer.len() as int, 4, 4);
    assert(spec_len_bytes(references.len() as int).len() == 4);
    assert(emitted.0.buffer.len() == start + 4 + 4 * references.len());
    assert(emitted.0.buffer.subrange(start, start + 4) =~= spec_len_bytes(
        references.len() as int,
    ));
    assert forall|i: int| 0 <= i < tail.len() implies (#[trigger] tail[i]).offset_position + 4
        <= view.buffer.len() by {
        assert(tail[i] == view.components[i + 1]);
    }
    lemma_own_region(
        f,
        next,
        emitted.0.buffer,
        head.offset_position as int,
        offset,
        tail,
        kids,
        view.buffer.len() as int,
        start,
        start + 4,
    );
    lemma_kids_point(view, f);
    crate::builder::lift::lemma_elements_carried(f, start, references, references.len());
}

/// The offset that waited for the component whose turn it is points in the buffer that the
/// builder gives to where the component starts, which lies behind the offset.
pub(crate) proof fn lemma_head_offset(view: BuilderView, f: Seq<u8>)
    requires
        spec_inv(view),
        view.components.len() > 0,
        spec_emit_fits(spec_rest(view), view.components[0].component),
        spec_settled(f, spec_next(view)),
    ensures
        crate::builder::tree::spec_target(f, view.components[0].offset_position as int)
            == spec_emit(spec_rest(view), view.components[0].component).1,
        spec_emit(spec_rest(view), view.components[0].component).1
            >= view.components[0].offset_position + 4,
{
    let head = view.components[0];
    let tail = view.components.drop_first();
    let rest = spec_rest(view);
    let next = spec_next(view);
    let emitted = spec_emit(rest, head.component);
    let at = head.offset_position as int;
    let offset = spec_len_bytes(emitted.1 - head.offset_position);
    assert(offset.len() == 4);
    lemma_next_shape(view);
    let kids = spec_kids(head.component, emitted.1 as int);
    assert forall|i: int| 0 <= i < next.components.len() implies (
    #[trigger] next.components[i]).offset_position + 4 <= at || at + 4
        <= next.components[i].offset_position by {
        if i < tail.len() {
            assert(next.components[i] == view.components[i + 1]);
        } else {
            assert(next.components[i] == kids[i - tail.len()]);
        }
    }
    lemma_settled_region(f, next, at, at + 4);
    assert(next.buffer.subrange(at, at + 4) =~= offset);
    crate::builder::tree::lemma_target(f, at, emitted.1 - head.offset_position);
}

/// The offset that waited for the component whose turn it is points in the buffer that the
/// builder gives to the component, which lies there with everything that it points to.
pub(crate) proof fn lemma_head(view: BuilderView, f: Seq<u8>)
    requires
        spec_inv(view),
        view.components.len() > 0,
        spec_emit_fits(spec_rest(view), view.components[0].component),
        spec_settled(f, spec_next(view)),
        spec_all_point(f, spec_next(view).components),
    ensures
        spec_points_to(
            f,
            view.components[0].offset_position as int,
            view.components[0].component,
        ),
{
    lemma_head_offset(view, f);
    match view.components[0].component {
        Component::Table(t) => {
            lemma_head_table(view, f, t);
        },
        Component::ReferencesVector(_) => {
            lemma_head_references(view, f);
        },
        Component::String(_) => {
            lemma_head_string(view, f);
        },
        Component::ScalarsVector(_) => {
            lemma_head_vector(view, f);
        },
        Component::NestedBuffer(_) => {
            lemma_head_nested(view, f);
        },
        Component::Empty => {},
    }
}

/// What stands settled in a state stands in the buffer that the builder gives from the
/// next state, where what stands settled in the next state does.
pub(crate) proof fn lemma_settled_back(view: BuilderView, f: Seq<u8>)
    requires
        spec_inv(view),
        view.components.len() > 0,
        spec_emit_fits(spec_rest(view), view.components[0].component),
        spec_settled(f, spec_next(view)),
    ensures
        spec_settled(f, view),
{
    let head = view.components[0];
    let tail = view.components.drop_first();
    let rest = spec_rest(view);
    let next = spec_next(view);
    let emitted = spec_emit(rest, head.component);
    let kids = spec_kids(head.component, emitted.1 as int);
    let offset = spec_len_bytes(emitted.1 - head.offset_position);
    assert(offset.len() == 4);
    lemma_next_shape(view);
    assert forall|x: int|
        0 <= x < view.buffer.len() && !crate::builder::settle::spec_pending(
            view.components,
            x,
        ) implies #[trigger] f[x] == view.buffer[x] by {
        if crate::builder::settle::spec_pending(next.components, x) {
            let i = choose|i: int|
                0 <= i < next.components.len() && (#[trigger] next.components[i]).offset_position
                    <= x < next.components[i].offset_position + 4;
            if i < tail.len() {
                assert(next.components[i] == view.components[i + 1]);
                assert(view.components[i + 1].offset_position <= x < view.components[i
                    + 1].offset_position + 4);
            } else {
                assert(next.components[i] == kids[i - tail.len()]);
            }
        }
        assert(!(head.offset_position <= x < head.offset_position + 4));
        assert(next.buffer[x] == emitted.0.buffer[x]);
        assert(emitted.0.buffer[x] == emitted.0.buffer.subrange(0, view.buffer.len() as int)[x]);
    }
}

/// The buffer that the builder gives from a state holds everything that waits in the
/// state: what stands settled in the state stands in the buffer, and every offset that
/// waits to be written points in the buffer to the component that waits for it, which lies
/// there with everything that it points to.
pub proof fn lemma_run(view: BuilderView)
    requires
        spec_inv(view),
        crate::builder::run::spec_run_fits(view),
    ensures
        spec_settled(spec_run(view), view),
        spec_all_point(spec_run(view), view.components),
    decreases crate::builder::emit::spec_queue_nodes(view.components),
{
    if view.components.len() > 0 {
        let next = spec_next(view);
        crate::builder::run::lemma_run_unfolds(view);
        lemma_inv_next(view);
        lemma_run(next);
        let f = spec_run(next);
        lemma_settled_back(view, f);
        lemma_head(view, f);
        let tail = view.components.drop_first();
        lemma_next_shape(view);
        assert forall|i: int| 0 <= i < view.components.len() implies spec_points_to(
            f,
            (#[trigger] view.components[i]).offset_position as int,
            view.components[i].component,
        ) by {
            if i > 0 {
                assert(next.components[i - 1] == tail[i - 1]);
                assert(tail[i - 1] == view.components[i]);
            }
        }
    }
}

/// The buffer that the builder gives for a root holds the root with everything that it
/// points to: the offset in the first four bytes points to the root, and behind every
/// offset lies what the offset stands for. This asks that the root can be emitted and fits
/// the format, and that the buffer stays within the largest length of a buffer all the
/// way.
pub proof fn lemma_built_holds_tree(root: Component)
    requires
        root.spec_well_formed(),
        spec_fits_format(root),
        crate::builder::run::spec_run_fits(BuilderView::initial(root)),
    ensures
        spec_points_to(crate::builder::emit::spec_build(root), 0, root),
{
    let initial = BuilderView::initial(root);
    assert(initial.components[0].component == root);
    assert(spec_inv(initial));
    lemma_run(initial);
}

/// The buffer that the builder gives from a state is within the largest length of a
/// buffer where every state on the way is.
pub(crate) proof fn lemma_run_within(view: BuilderView)
    requires
        crate::builder::run::spec_run_fits(view),
    ensures
        spec_run(view).len() <= MAX_BUFFER_LEN,
    decreases crate::builder::emit::spec_queue_nodes(view.components),
{
    if view.components.len() > 0 {
        crate::builder::run::lemma_run_unfolds(view);
        lemma_run_within(spec_next(view));
    }
}

} // verus!
