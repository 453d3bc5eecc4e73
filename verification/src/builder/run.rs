use crate::builder::buffer::{spec_hash, spec_write, BuilderView};
use crate::builder::component::{Component, DesignatedComponent, FieldValue, TableField};
use crate::builder::emit::{
    lemma_queue_after_nodes, spec_designated, spec_emit, spec_emit_designated, spec_len_bytes,
    spec_queue_after, spec_queue_nodes, spec_run,
};
use crate::builder::frame::{
    lemma_emission, spec_emission, spec_emit_fits, spec_kids, spec_slots_in_order,
    spec_table_kids, MAX_BUFFER_LEN,
};
use crate::builder::tree::{
    lemma_all_fit_format_index, lemma_fields_fit_format_index, spec_fields_fit_format,
    spec_fits_format,
};
use crate::scalar::spec_u16_from_le;
use vstd::prelude::*;

verus! {

/// The length that the vtable at `p` says it has.
pub open spec fn spec_recorded_len(buffer: Seq<u8>, p: int) -> int {
    spec_u16_from_le(buffer.subrange(p, p + 2)) as int
}

/// The vtable at `p` lies in the buffer, and no offset that waits to be written lies in
/// it.
pub open spec fn spec_record_frozen(view: BuilderView, p: int) -> bool {
    &&& 0 <= p
    &&& 2 <= spec_recorded_len(view.buffer, p)
    &&& p + spec_recorded_len(view.buffer, p) <= view.buffer.len()
    &&& forall|i: int|
        0 <= i < view.components.len() ==> (#[trigger] view.components[i]).offset_position + 4
            <= p || p + spec_recorded_len(view.buffer, p) <= view.components[i].offset_position
}

/// Every vtable on record lies in the buffer, and no offset that waits to be written lies
/// in one.
pub open spec fn spec_records_frozen(view: BuilderView) -> bool {
    forall|h: u64| #[trigger]
        view.vtables.contains_key(h) ==> spec_record_frozen(view, view.vtables[h] as int)
}

/// No two offsets that wait to be written overlap.
pub open spec fn spec_slots_apart(queue: Seq<DesignatedComponent>) -> bool {
    forall|i: int, j: int|
        0 <= i < j < queue.len() ==> (#[trigger] queue[i]).offset_position + 4 <= (
        #[trigger] queue[j]).offset_position || queue[j].offset_position + 4
            <= queue[i].offset_position
}

/// Every component that waits fits the format.
pub open spec fn spec_queue_fits_format(queue: Seq<DesignatedComponent>) -> bool {
    forall|i: int| 0 <= i < queue.len() ==> spec_fits_format((#[trigger] queue[i]).component)
}

/// What holds of every state of a builder that started with one root: every component that
/// waits can be emitted, fits the format and has its offset in the buffer, no two offsets
/// overlap, and the vtables on record are out of their way.
pub open spec fn spec_inv(view: BuilderView) -> bool {
    &&& view.well_formed()
    &&& spec_slots_apart(view.components)
    &&& spec_queue_fits_format(view.components)
    &&& spec_records_frozen(view)
}

/// The state without the component whose turn it is.
pub open spec fn spec_rest(view: BuilderView) -> BuilderView {
    BuilderView {
        buffer: view.buffer,
        components: view.components.drop_first(),
        vtables: view.vtables,
    }
}

/// The state after the component whose turn it is has been emitted.
pub open spec fn spec_next(view: BuilderView) -> BuilderView {
    spec_emit_designated(spec_rest(view), view.components[0])
}

/// Every state from `view` on stays within the largest length of a buffer.
pub open spec fn spec_run_fits(view: BuilderView) -> bool
    decreases spec_queue_nodes(view.components),
{
    if view.components.len() == 0 {
        view.buffer.len() <= MAX_BUFFER_LEN
    } else {
        proof {
            lemma_queue_after_nodes(spec_rest(view), view.components[0].component);
        }
        &&& spec_emit_fits(spec_rest(view), view.components[0].component)
        &&& spec_run_fits(spec_next(view))
    }
}

/// Running from a state is emitting the component whose turn it is and running from
/// there.
pub(crate) proof fn lemma_run_unfolds(view: BuilderView)
    requires
        view.components.len() > 0,
    ensures
        spec_run(view) == spec_run(spec_next(view)),
        spec_queue_nodes(spec_next(view).components) < spec_queue_nodes(view.components),
{
    lemma_queue_after_nodes(spec_rest(view), view.components[0].component);
}

/// What the components that a component lets wait point to fits the format where the
/// component does.
pub(crate) proof fn lemma_kids_fit_format(c: Component, start: int)
    requires
        spec_fits_format(c),
    ensures
        spec_queue_fits_format(spec_kids(c, start)),
{
    match c {
        Component::ReferencesVector(v) => {
            let kids = spec_designated(v.references@, start);
            assert forall|i: int| 0 <= i < kids.len() implies spec_fits_format(
                (#[trigger] kids[i]).component,
            ) by {
                lemma_all_fit_format_index(v.references@, v.references@.len(), i);
            }
        },
        Component::Table(t) => {
            lemma_table_kids_fit_format(t.fields@, start, t.fields@.len());
        },
        _ => {},
    }
}

proof fn lemma_table_kids_fit_format(fields: Seq<TableField>, start: int, k: nat)
    requires
        spec_fields_fit_format(fields, fields.len()),
        k <= fields.len(),
    ensures
        spec_queue_fits_format(spec_table_kids(fields, start, k)),
    decreases k,
{
    if k > 0 {
        lemma_table_kids_fit_format(fields, start, (k - 1) as nat);
        lemma_fields_fit_format_index(fields, fields.len(), k - 1);
        let before = spec_table_kids(fields, start, (k - 1) as nat);
        let after = spec_table_kids(fields, start, k);
        match fields[k - 1].value {
            FieldValue::Scalar(_) => {},
            FieldValue::Reference(c) => {
                assert forall|i: int| 0 <= i < after.len() implies spec_fits_format(
                    (#[trigger] after[i]).component,
                ) by {
                    if i < before.len() {
                        assert(after[i] == before[i]);
                    }
                }
            },
        }
    }
}

/// A number that fits sixteen bits is read back from the two bytes of its vtable entry.
pub(crate) proof fn lemma_recorded_len(buffer: Seq<u8>, p: int, n: int)
    requires
        0 <= n < 0x1_0000,
        buffer.subrange(p, p + 2) == crate::builder::buffer::spec_voffset_bytes(n),
    ensures
        spec_recorded_len(buffer, p) == n,
{
    let v = n as u16;
    vstd::arithmetic::div_mod::lemma_small_mod(n as nat, 0x1_0000);
    let written = crate::scalar::spec_u16_le(v);
    assert(crate::builder::buffer::spec_voffset_bytes(n) == written);
    assert(spec_u16_from_le(written) == v) by {
        crate::scalar::lemma_u16_le_round_trip(v, Seq::empty());
        assert(written + Seq::<u8>::empty() =~= written);
    }
}

/// Every vtable that is on record after an emission was on record before, or lies between
/// what was emitted before and the start of what was emitted now.
pub open spec fn spec_records_after(view: BuilderView, after: BuilderView, start: int) -> bool {
    forall|h: u64| #[trigger]
        after.vtables.contains_key(h) ==> {
            ||| (view.vtables.contains_key(h) && after.vtables[h] == view.vtables[h])
            ||| {
                &&& view.buffer.len() <= after.vtables[h]
                &&& 2 <= spec_recorded_len(after.buffer, after.vtables[h] as int)
                &&& after.vtables[h] + spec_recorded_len(after.buffer, after.vtables[h] as int)
                    <= start
            }
        }
}

/// The emission of a table leaves the vtables on record, or puts its own on record, which
/// lies before the table.
pub(crate) proof fn lemma_table_records(view: BuilderView, t: crate::builder::component::TableComponent)
    requires
        Component::Table(t).spec_well_formed(),
        spec_fits_format(Component::Table(t)),
        spec_emit_fits(view, Component::Table(t)),
    ensures
        spec_records_after(
            view,
            crate::builder::emit::spec_emit_table(view, t).0,
            crate::builder::emit::spec_emit_table(view, t).1 as int,
        ),
{
    let fields = t.fields@;
    let n = fields.len();
    let vtable_start = crate::alignment::spec_align(view.buffer.len() as int, 2);
    let scratch = crate::builder::emit::spec_scratch_vtable(view, fields);
    crate::builder::vtable::lemma_scratch_vtable(view, fields, t.alignment);
    crate::builder::vtable::lemma_vtable_len_even(fields, t.alignment, n);
    crate::builder::frame::lemma_scratch_fits(view, t);
    let bytes = scratch.scratch(vtable_start);
    let stored = scratch.deduplicate(vtable_start as usize);
    let headed = crate::builder::layout::spec_headed(view, t);
    crate::builder::layout::lemma_headed(view, t);
    crate::builder::layout::lemma_emit_table_in_stages(view, t);
    crate::builder::layout::lemma_table_fields_extend(headed, fields, n);
    let after = crate::builder::emit::spec_emit_table(view, t).0;
    let start = headed.buffer.len() - 4;
    assert(after.vtables == stored.vtables);
    if !scratch.finds(vtable_start) {
        let h = spec_hash(bytes);
        assert(stored.vtables == view.vtables.insert(h, vtable_start as usize));
        crate::builder::buffer::lemma_deduplicated_vtable_is_stored(scratch, vtable_start as usize);
        assert(crate::builder::layout::spec_vtable_position(view, t) == vtable_start);
        let length = crate::builder::vtable::spec_vtable_len(fields, n);
        assert(after.buffer.subrange(vtable_start, vtable_start + 2) =~= headed.buffer.subrange(
            vtable_start,
            vtable_start + length,
        ).subrange(0, 2)) by {
            assert(after.buffer.subrange(0, headed.buffer.len() as int) == headed.buffer);
            assert(after.buffer.subrange(vtable_start, vtable_start + 2)
                =~= after.buffer.subrange(0, headed.buffer.len() as int).subrange(
                vtable_start,
                vtable_start + 2,
            ));
        }
        lemma_recorded_len(after.buffer, vtable_start, length);
    }
}

/// Every emission leaves the vtables on record, or puts a vtable on record that lies
/// before what was emitted.
pub(crate) proof fn lemma_records(view: BuilderView, c: Component)
    requires
        c.spec_well_formed(),
        spec_fits_format(c),
        spec_emit_fits(view, c),
    ensures
        spec_records_after(view, spec_emit(view, c).0, spec_emit(view, c).1 as int),
{
    match c {
        Component::Table(t) => {
            lemma_table_records(view, t);
        },
        _ => {
            assert(spec_emit(view, c).0.vtables == view.vtables);
        },
    }
}

/// What the state is after the component whose turn it is has been emitted: the buffer is
/// what the emission leaves, with the distance to the start of the component written at the
/// place of its offset; what waited goes on waiting, followed by what the component lets
/// wait; the vtables on record are those that the emission leaves.
pub(crate) proof fn lemma_next_shape(view: BuilderView)
    requires
        view.components.len() > 0,
        view.components[0].component.spec_well_formed(),
        spec_fits_format(view.components[0].component),
        spec_emit_fits(spec_rest(view), view.components[0].component),
    ensures
        ({
            let head = view.components[0];
            let emitted = spec_emit(spec_rest(view), head.component);
            &&& spec_emission(
                spec_rest(view),
                head.component,
                emitted.0,
                emitted.1 as int,
            )
            &&& spec_next(view).buffer == spec_write(
                emitted.0.buffer,
                head.offset_position as int,
                spec_len_bytes(emitted.1 - head.offset_position),
            )
            &&& spec_next(view).components == spec_rest(view).components + spec_kids(
                head.component,
                emitted.1 as int,
            )
            &&& spec_next(view).vtables == emitted.0.vtables
        }),
{
    let head = view.components[0];
    let rest = spec_rest(view);
    lemma_emission(rest, head.component);
    match head.component {
        Component::NestedBuffer(n) => {
            assert(spec_queue_after(rest, head.component) == rest.components);
            assert(rest.components + Seq::<DesignatedComponent>::empty() =~= rest.components);
        },
        _ => {
            assert(spec_queue_after(rest, head.component) == spec_emit(
                rest,
                head.component,
            ).0.components);
        },
    }
}

/// What waited and what an emission lets wait do not overlap, lie in the buffer, can be
/// emitted and fit the format.
pub(crate) proof fn lemma_queue_after_step(
    tail: Seq<DesignatedComponent>,
    kids: Seq<DesignatedComponent>,
    before: int,
    start: int,
    after: int,
)
    requires
        spec_slots_apart(tail),
        spec_queue_fits_format(tail),
        spec_queue_fits_format(kids),
        forall|i: int|
            0 <= i < tail.len() ==> (#[trigger] tail[i]).offset_position + 4 <= before
                && tail[i].component.spec_well_formed(),
        before <= start <= after,
        spec_slots_in_order(kids, start, after),
    ensures
        spec_slots_apart(tail + kids),
        spec_queue_fits_format(tail + kids),
        forall|i: int|
            0 <= i < (tail + kids).len() ==> (#[trigger] (tail + kids)[i]).offset_position + 4
                <= after && (tail + kids)[i].component.spec_well_formed(),
{
    let all = tail + kids;
    assert forall|i: int| 0 <= i < all.len() implies (#[trigger] all[i]).offset_position + 4
        <= after && all[i].component.spec_well_formed() && spec_fits_format(all[i].component) by {
        if i < tail.len() {
            assert(all[i] == tail[i]);
        } else {
            assert(all[i] == kids[i - tail.len()]);
        }
    }
    assert forall|i: int, j: int| 0 <= i < j < all.len() implies (
    #[trigger] all[i]).offset_position + 4 <= (#[trigger] all[j]).offset_position
        || all[j].offset_position + 4 <= all[i].offset_position by {
        if j < tail.len() {
            assert(all[i] == tail[i] && all[j] == tail[j]);
        } else if i < tail.len() {
            assert(all[i] == tail[i] && all[j] == kids[j - tail.len()]);
        } else {
            assert(all[i] == kids[i - tail.len()] && all[j] == kids[j - tail.len()]);
        }
    }
}

/// Writing over bytes leaves the bytes that lie before them and behind them.
pub(crate) proof fn lemma_write_leaves(buffer: Seq<u8>, at: int, written: Seq<u8>, from: int, to: int)
    requires
        0 <= from <= to <= buffer.len(),
        to <= at || at + written.len() <= from,
    ensures
        spec_write(buffer, at, written).subrange(from, to) == buffer.subrange(from, to),
{
    assert(spec_write(buffer, at, written).subrange(from, to) =~= buffer.subrange(from, to));
}

/// After a step no offset that waits to be written lies in a vtable that is on record.
pub(crate) proof fn lemma_records_after_step(
    view: BuilderView,
    after: BuilderView,
    start: int,
    kids: Seq<DesignatedComponent>,
    next: BuilderView,
    offset: Seq<u8>,
)
    requires
        view.components.len() > 0,
        view.well_formed(),
        spec_records_frozen(view),
        view.buffer.len() <= start <= after.buffer.len(),
        after.buffer.subrange(0, view.buffer.len() as int) == view.buffer,
        spec_records_after(view, after, start),
        spec_slots_in_order(kids, start, after.buffer.len() as int),
        offset.len() == 4,
        next.buffer == spec_write(
            after.buffer,
            view.components[0].offset_position as int,
            offset,
        ),
        next.components == view.components.drop_first() + kids,
        next.vtables == after.vtables,
    ensures
        spec_records_frozen(next),
{
    let head = view.components[0];
    let tail = view.components.drop_first();
    assert forall|h: u64| #[trigger] next.vtables.contains_key(h) implies spec_record_frozen(
        next,
        next.vtables[h] as int,
    ) by {
        let p = next.vtables[h] as int;
        assert(after.vtables.contains_key(h));
        if view.vtables.contains_key(h) && after.vtables[h] == view.vtables[h] {
            assert(spec_record_frozen(view, p));
            let length = spec_recorded_len(view.buffer, p);
            assert(head.offset_position + 4 <= p || p + length <= head.offset_position);
            lemma_write_leaves(after.buffer, head.offset_position as int, offset, p, p + 2);
            assert(after.buffer.subrange(p, p + 2) =~= after.buffer.subrange(
                0,
                view.buffer.len() as int,
            ).subrange(p, p + 2));
            assert(spec_recorded_len(next.buffer, p) == length);
            assert forall|i: int| 0 <= i < next.components.len() implies (
            #[trigger] next.components[i]).offset_position + 4 <= p || p + length
                <= next.components[i].offset_position by {
                if i < tail.len() {
                    assert(next.components[i] == view.components[i + 1]);
                } else {
                    assert(next.components[i] == kids[i - tail.len()]);
                }
            }
        } else {
            let length = spec_recorded_len(after.buffer, p);
            lemma_write_leaves(after.buffer, head.offset_position as int, offset, p, p + 2);
            assert(spec_recorded_len(next.buffer, p) == length);
            assert forall|i: int| 0 <= i < next.components.len() implies (
            #[trigger] next.components[i]).offset_position + 4 <= p || p + length
                <= next.components[i].offset_position by {
                if i < tail.len() {
                    assert(next.components[i] == view.components[i + 1]);
                } else {
                    assert(next.components[i] == kids[i - tail.len()]);
                }
            }
        }
    }
}

/// What holds of every state of a builder holds after a step.
pub proof fn lemma_inv_next(view: BuilderView)
    requires
        spec_inv(view),
        view.components.len() > 0,
        spec_emit_fits(spec_rest(view), view.components[0].component),
    ensures
        spec_inv(spec_next(view)),
        spec_next(view).buffer.len() == spec_emit(
            spec_rest(view),
            view.components[0].component,
        ).0.buffer.len(),
{
    let head = view.components[0];
    let tail = view.components.drop_first();
    let rest = spec_rest(view);
    let emitted = spec_emit(rest, head.component);
    let start = emitted.1 as int;
    let kids = spec_kids(head.component, start);
    let next = spec_next(view);
    let offset = spec_len_bytes(emitted.1 - head.offset_position);
    assert(offset.len() == 4);
    lemma_next_shape(view);
    lemma_kids_fit_format(head.component, start);
    assert forall|i: int| 0 <= i < tail.len() implies (#[trigger] tail[i]).offset_position + 4
        <= view.buffer.len() && tail[i].component.spec_well_formed() && spec_fits_format(
        tail[i].component,
    ) by {
        assert(tail[i] == view.components[i + 1]);
    }
    assert(spec_slots_apart(tail)) by {
        assert forall|i: int, j: int| 0 <= i < j < tail.len() implies (
        #[trigger] tail[i]).offset_position + 4 <= (#[trigger] tail[j]).offset_position
            || tail[j].offset_position + 4 <= tail[i].offset_position by {
            assert(tail[i] == view.components[i + 1]);
            assert(tail[j] == view.components[j + 1]);
        }
    }
    lemma_queue_after_step(
        tail,
        kids,
        view.buffer.len() as int,
        start,
        emitted.0.buffer.len() as int,
    );
    lemma_records(rest, head.component);
    lemma_records_after_step(view, emitted.0, start, kids, next, offset);
}

/// The state after a step holds as many bytes as the emission has left.
pub(crate) proof fn lemma_next_len(view: BuilderView)
    requires
        view.components.len() > 0,
    ensures
        spec_next(view).buffer.len() == spec_emit(
            spec_rest(view),
            view.components[0].component,
        ).0.buffer.len(),
{
}

/// A run stays within the largest length of a buffer where its first step does and the
/// run from the next state does.
pub(crate) proof fn lemma_run_fits_unfolds(view: BuilderView)
    requires
        view.components.len() > 0,
    ensures
        spec_run_fits(view) == (spec_emit_fits(spec_rest(view), view.components[0].component)
            && spec_run_fits(spec_next(view))),
{
}

/// What a step does to the run: the buffer that the builder gives is the one that it gives
/// from the next state, the run stays within the largest length of a buffer where the next
/// state and the run from there do, and fewer components wait, all that they hold
/// included.
pub(crate) proof fn lemma_step(view: BuilderView)
    requires
        view.components.len() > 0,
        view.buffer.len() <= MAX_BUFFER_LEN,
    ensures
        spec_run(view) == spec_run(spec_next(view)),
        spec_run_fits(view) == (spec_next(view).buffer.len() <= MAX_BUFFER_LEN && spec_run_fits(
            spec_next(view),
        )),
        spec_queue_nodes(spec_next(view).components) < spec_queue_nodes(view.components),
        spec_queue_nodes(view.components) == view.components[0].component.spec_nodes()
            + spec_queue_nodes(spec_rest(view).components),
{
    lemma_run_unfolds(view);
    lemma_run_fits_unfolds(view);
    lemma_next_len(view);
}

impl crate::builder::buffer::Builder {
    /// Emits everything that waits, and gives the buffer if it has stayed within the
    /// largest length of a buffer all the way.
    pub fn try_build(self) -> (bytes: Option<Vec<u8>>)
        requires
            self@.well_formed(),
        ensures
            bytes is Some <==> spec_run_fits(self@),
            bytes is Some ==> bytes->Some_0@ == spec_run(self@),
    {
        let ghost start = self@;
        let mut builder = self;
        if builder.tell() > MAX_BUFFER_LEN {
            return None;
        }
        loop
            invariant
                start == self@,
                builder@.well_formed(),
                builder@.buffer.len() <= MAX_BUFFER_LEN,
                spec_run(builder@) == spec_run(start),
                spec_run_fits(builder@) == spec_run_fits(start),
            ensures
                builder@.components.len() == 0,
                builder@.buffer.len() <= MAX_BUFFER_LEN,
                spec_run(builder@) == spec_run(start),
                spec_run_fits(builder@) == spec_run_fits(start),
            decreases spec_queue_nodes(builder@.components),
        {
            let ghost before = builder@;
            match builder.pop_component() {
                None => {
                    break ;
                },
                Some(component) => {
                    proof {
                        lemma_step(before);
                        assert(before.components[0] == component);
                        assert(builder@.components =~= spec_rest(before).components);
                        assert(builder@ == spec_rest(before));
                    }
                    component.build(&mut builder);
                    if builder.tell() > MAX_BUFFER_LEN {
                        return None;
                    }
                },
            }
        }
        Some(builder.into_bytes())
    }
}

} // verus!
