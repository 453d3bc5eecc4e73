use crate::alignment::{is_power_of_two, spec_align, spec_align_after};
use crate::builder::buffer::{spec_write, spec_zeros, Builder, BuilderView};
use crate::builder::component::{
    spec_all_well_formed, spec_field_nodes_upto, spec_fields_nbytes, spec_fields_well_formed,
    spec_nodes_upto, Component, DesignatedComponent, FieldValue, TableComponent, TableField,
};
use crate::scalar::{spec_u32_le, u32_to_le};
use crate::types::{SIZE_OF_LEN, SIZE_OF_SOFFSET, SIZE_OF_UOFFSET, SIZE_OF_VOFFSET};
use vstd::prelude::*;
use vstd::utf8::encode_utf8;

verus! {

/// The four bytes of a length or an offset: the low thirty-two bits of the number.
pub open spec fn spec_len_bytes(n: int) -> Seq<u8> {
    spec_u32_le((n % 0x1_0000_0000) as u32)
}

/// The buffer with zero bytes appended up to the next multiple of `alignment`.
pub open spec fn spec_aligned(buffer: Seq<u8>, alignment: int) -> Seq<u8> {
    buffer + spec_zeros(spec_align(buffer.len() as int, alignment) - buffer.len())
}

/// The buffer with zero bytes appended up to the next place from which `len` more bytes
/// end on a multiple of the larger of `len` and `alignment`.
pub open spec fn spec_aligned_after(buffer: Seq<u8>, len: int, alignment: int) -> Seq<u8> {
    buffer + spec_zeros(spec_align_after(buffer.len() as int, len, alignment) - buffer.len())
}

/// The state after a string has been emitted, and where the string starts: at a multiple
/// of four its length, then its bytes, then a zero byte.
pub open spec fn spec_emit_string(view: BuilderView, bytes: Seq<u8>) -> (BuilderView, usize) {
    let aligned = spec_aligned(view.buffer, SIZE_OF_LEN as int);
    (
        view.with_buffer(aligned + spec_len_bytes(bytes.len() as int) + bytes + seq![0u8]),
        aligned.len() as usize,
    )
}

/// The state after a vector of inline values has been emitted, and where the vector
/// starts: its length, placed so that what follows it stands at a multiple of the
/// alignment, then the bytes of the elements.
pub open spec fn spec_emit_vector(
    view: BuilderView,
    bytes: Seq<u8>,
    count: int,
    alignment: int,
) -> (BuilderView, usize) {
    let aligned = spec_aligned_after(view.buffer, SIZE_OF_LEN as int, alignment);
    (view.with_buffer(aligned + spec_len_bytes(count) + bytes), aligned.len() as usize)
}

/// The components of a vector of references as they wait: the `i`-th with the place of
/// the `i`-th offset of the vector that starts at `start`.
pub open spec fn spec_designated(references: Seq<Component>, start: int) -> Seq<
    DesignatedComponent,
> {
    Seq::new(
        references.len(),
        |i: int|
            DesignatedComponent {
                offset_position: (start + SIZE_OF_LEN + i * SIZE_OF_UOFFSET) as usize,
                component: references[i],
            },
    )
}

/// The state after a vector of references has been emitted, and where the vector starts:
/// at a multiple of four its length and room for one offset to each element; the elements
/// wait in their order.
pub open spec fn spec_emit_references(view: BuilderView, references: Seq<Component>) -> (
    BuilderView,
    usize,
) {
    let aligned = spec_aligned_after(view.buffer, SIZE_OF_LEN as int, SIZE_OF_UOFFSET as int);
    (
        BuilderView {
            buffer: aligned + spec_len_bytes(references.len() as int) + spec_zeros(
                references.len() * SIZE_OF_UOFFSET,
            ),
            components: view.components + spec_designated(references, aligned.len() as int),
            vtables: view.vtables,
        },
        aligned.len() as usize,
    )
}

/// The buffer after the first `k` fields have been entered into the vtable that starts at
/// `vtable_start`.
pub open spec fn spec_vtable_fields(
    view: BuilderView,
    vtable_start: int,
    fields: Seq<TableField>,
    k: nat,
) -> Seq<u8>
    decreases k,
{
    if k == 0 || k > fields.len() {
        view.buffer
    } else {
        view.with_buffer(spec_vtable_fields(view, vtable_start, fields, (k - 1) as nat)).add_field(
            vtable_start,
            spec_fields_nbytes(fields, (k - 1) as nat),
            fields[k - 1].slot as int,
            fields[k - 1].alignment as int,
        )
    }
}

/// The state in which the vtable of a table is complete, before deduplication: the vtable
/// starts at the next even place, holds the entry of every field, and starts with its size
/// and that of the table.
pub open spec fn spec_scratch_vtable(view: BuilderView, fields: Seq<TableField>) -> BuilderView {
    let vtable_start = spec_align(view.buffer.len() as int, SIZE_OF_VOFFSET as int);
    let started = view.with_buffer(
        spec_aligned(view.buffer, SIZE_OF_VOFFSET as int) + spec_zeros(2 * SIZE_OF_VOFFSET as int),
    );
    let entered = started.with_buffer(
        spec_vtable_fields(started, vtable_start, fields, fields.len()),
    );
    entered.with_buffer(
        entered.finish_sizes(vtable_start, spec_fields_nbytes(fields, fields.len())),
    )
}

/// The state after the first `k` fields of a table have been emitted: each stands at the
/// next multiple of its alignment; an inline value is written out, a reference gets room
/// for its offset and waits.
pub open spec fn spec_table_fields(
    view: BuilderView,
    fields: Seq<TableField>,
    k: nat,
) -> BuilderView
    decreases k,
{
    if k == 0 || k > fields.len() {
        view
    } else {
        let before = spec_table_fields(view, fields, (k - 1) as nat);
        let aligned = spec_aligned(before.buffer, fields[k - 1].alignment as int);
        match fields[k - 1].value {
            FieldValue::Scalar(bytes) => before.with_buffer(aligned + bytes@),
            FieldValue::Reference(c) => BuilderView {
                buffer: aligned + spec_zeros(SIZE_OF_UOFFSET as int),
                components: before.components.push(
                    DesignatedComponent { offset_position: aligned.len() as usize, component: c },
                ),
                vtables: before.vtables,
            },
        }
    }
}

/// The state after a table has been emitted, and where the table starts: first its vtable,
/// which goes through deduplication; then, placed so that the fields behind its header
/// stand at a multiple of the table's alignment, the distance back to the vtable; then the
/// fields.
pub open spec fn spec_emit_table(view: BuilderView, t: TableComponent) -> (BuilderView, usize) {
    let vtable_start = spec_align(view.buffer.len() as int, SIZE_OF_VOFFSET as int) as usize;
    let scratch = spec_scratch_vtable(view, t.fields@);
    let stored = scratch.deduplicate(vtable_start);
    let vtable_position = scratch.deduplicated_position(vtable_start);
    let aligned = spec_aligned_after(stored.buffer, SIZE_OF_SOFFSET as int, t.alignment as int);
    (
        spec_table_fields(
            stored.with_buffer(aligned + spec_len_bytes(aligned.len() - vtable_position)),
            t.fields@,
            t.fields@.len(),
        ),
        aligned.len() as usize,
    )
}

/// What the emission of a component does where it does not take a buffer of its own.
pub open spec fn spec_emit_plain(view: BuilderView, c: Component) -> (BuilderView, usize) {
    match c {
        Component::String(s) => spec_emit_string(view, encode_utf8(s.text@)),
        Component::ScalarsVector(v) => spec_emit_vector(
            view,
            v.scalars@,
            v.len as int,
            (v.scalars@.len() / (v.len as nat)) as int,
        ),
        Component::ReferencesVector(v) => spec_emit_references(view, v.references@),
        Component::Table(t) => spec_emit_table(view, t),
        _ => (view, view.buffer.len() as usize),
    }
}

/// The components that wait after a component has been emitted: those that waited before,
/// then those that it points to.
pub open spec fn spec_queue_after(view: BuilderView, c: Component) -> Seq<DesignatedComponent> {
    spec_emit_plain(view, c).0.components
}

/// The number of components in those that wait, all that they hold included.
pub open spec fn spec_queue_nodes(queue: Seq<DesignatedComponent>) -> nat
    decreases queue.len(),
{
    if queue.len() == 0 {
        0
    } else {
        queue[0].component.spec_nodes() + spec_queue_nodes(queue.drop_first())
    }
}

/// The state after a component has been emitted, and where what was emitted starts. A
/// nested buffer is built by itself and then emitted as a vector of bytes.
pub open spec fn spec_emit(view: BuilderView, c: Component) -> (BuilderView, usize)
    decreases c.spec_nodes(), 0nat,
{
    match c {
        Component::NestedBuffer(n) => {
            let inner = spec_build(*n.root);
            spec_emit_vector(view, inner, inner.len() as int, n.root.spec_alignment() as int)
        },
        _ => spec_emit_plain(view, c),
    }
}

/// The state after a component that waited has been emitted into the state `view`: what
/// its emission gives, with the distance from the place of its offset to its start written
/// at that place.
pub open spec fn spec_emit_designated(
    view: BuilderView,
    waiting: DesignatedComponent,
) -> BuilderView {
    let emitted = spec_emit(view, waiting.component);
    BuilderView {
        buffer: spec_write(
            emitted.0.buffer,
            waiting.offset_position as int,
            spec_len_bytes(emitted.1 - waiting.offset_position),
        ),
        components: spec_queue_after(view, waiting.component),
        vtables: emitted.0.vtables,
    }
}

/// The buffer that a builder gives for `root`.
pub open spec fn spec_build(root: Component) -> Seq<u8>
    decreases root.spec_nodes(), 3nat,
{
    proof {
        lemma_queue_nodes_single(DesignatedComponent { offset_position: 0, component: root });
    }
    spec_run(BuilderView::initial(root))
}

/// The buffer that a builder gives from a state: as long as a component waits, the one
/// that has waited longest is emitted, and the distance from the place of its offset to its
/// start is written at that place.
pub open spec fn spec_run(view: BuilderView) -> Seq<u8>
    decreases spec_queue_nodes(view.components), 2nat,
{
    if view.components.len() == 0 {
        view.buffer
    } else {
        let next = view.components[0];
        let rest = BuilderView {
            buffer: view.buffer,
            components: view.components.drop_first(),
            vtables: view.vtables,
        };
        let emitted = spec_emit(rest, next.component);
        proof {
            lemma_queue_after_nodes(rest, next.component);
        }
        spec_run(
            BuilderView {
                buffer: spec_write(
                    emitted.0.buffer,
                    next.offset_position as int,
                    spec_len_bytes(emitted.1 - next.offset_position),
                ),
                components: spec_queue_after(rest, next.component),
                vtables: emitted.0.vtables,
            },
        )
    }
}

/// A queue of one holds the components of that one.
pub proof fn lemma_queue_nodes_single(waiting: DesignatedComponent)
    ensures
        spec_queue_nodes(seq![waiting]) == waiting.component.spec_nodes(),
{
    let queue = seq![waiting];
    assert(queue[0] == waiting);
    assert(queue.drop_first() =~= Seq::<DesignatedComponent>::empty());
    assert(spec_queue_nodes(queue.drop_first()) == 0);
}

/// The number of components in two queues, one after the other, is the sum of their
/// numbers.
pub(crate) proof fn lemma_queue_nodes_concat(a: Seq<DesignatedComponent>, b: Seq<DesignatedComponent>)
    ensures
        spec_queue_nodes(a + b) == spec_queue_nodes(a) + spec_queue_nodes(b),
    decreases a.len(),
{
    if a.len() == 0 {
        assert(a + b =~= b);
    } else {
        lemma_queue_nodes_concat(a.drop_first(), b);
        assert((a + b).drop_first() =~= a.drop_first() + b);
    }
}

proof fn lemma_designated_nodes(references: Seq<Component>, start: int, n: nat)
    requires
        n <= references.len(),
    ensures
        spec_queue_nodes(spec_designated(references, start).subrange(0, n as int))
            == spec_nodes_upto(references, n),
    decreases n,
{
    let all = spec_designated(references, start);
    if n == 0 {
    } else {
        lemma_designated_nodes(references, start, (n - 1) as nat);
        let shorter = all.subrange(0, n - 1);
        assert(all.subrange(0, n as int) =~= shorter + seq![all[n - 1]]);
        lemma_queue_nodes_concat(shorter, seq![all[n - 1]]);
        lemma_queue_nodes_single(all[n - 1]);
    }
}

proof fn lemma_table_fields_nodes(view: BuilderView, fields: Seq<TableField>, k: nat)
    requires
        k <= fields.len(),
    ensures
        spec_queue_nodes(spec_table_fields(view, fields, k).components) == spec_queue_nodes(
            view.components,
        ) + spec_field_nodes_upto(fields, k),
    decreases k,
{
    if k > 0 {
        lemma_table_fields_nodes(view, fields, (k - 1) as nat);
        let before = spec_table_fields(view, fields, (k - 1) as nat);
        match fields[k - 1].value {
            FieldValue::Scalar(_) => {},
            FieldValue::Reference(c) => {
                let aligned = spec_aligned(before.buffer, fields[k - 1].alignment as int);
                let waiting = DesignatedComponent {
                    offset_position: aligned.len() as usize,
                    component: c,
                };
                assert(before.components.push(waiting) =~= before.components + seq![waiting]);
                lemma_queue_nodes_concat(before.components, seq![waiting]);
                lemma_queue_nodes_single(waiting);
            },
        }
    }
}

/// Emitting a component takes it out of what waits and puts in what it points to: the
/// number of components that wait grows by one less than the number it holds.
pub proof fn lemma_queue_after_nodes(view: BuilderView, c: Component)
    ensures
        spec_queue_nodes(spec_queue_after(view, c)) + 1 <= spec_queue_nodes(view.components)
            + c.spec_nodes(),
{
    match c {
        Component::ReferencesVector(v) => {
            let aligned = spec_aligned_after(
                view.buffer,
                SIZE_OF_LEN as int,
                SIZE_OF_UOFFSET as int,
            );
            let waiting = spec_designated(v.references@, aligned.len() as int);
            lemma_designated_nodes(v.references@, aligned.len() as int, v.references@.len());
            assert(waiting.subrange(0, waiting.len() as int) =~= waiting);
            lemma_queue_nodes_concat(view.components, waiting);
        },
        Component::Table(t) => {
            let vtable_start = spec_align(
                view.buffer.len() as int,
                SIZE_OF_VOFFSET as int,
            ) as usize;
            let scratch = spec_scratch_vtable(view, t.fields@);
            let stored = scratch.deduplicate(vtable_start);
            let vtable_position = scratch.deduplicated_position(vtable_start);
            let aligned = spec_aligned_after(
                stored.buffer,
                SIZE_OF_SOFFSET as int,
                t.alignment as int,
            );
            lemma_table_fields_nodes(
                stored.with_buffer(aligned + spec_len_bytes(aligned.len() - vtable_position)),
                t.fields@,
                t.fields@.len(),
            );
        },
        _ => {},
    }
}

/// Each component of a well-formed run is well formed.
pub(crate) proof fn lemma_all_well_formed_index(s: Seq<Component>, n: nat, i: int)
    requires
        spec_all_well_formed(s, n),
        0 <= i < n <= s.len(),
    ensures
        s[i].spec_well_formed(),
    decreases n,
{
    if i < n - 1 {
        lemma_all_well_formed_index(s, (n - 1) as nat, i);
    }
}

/// Each field of a well-formed run is well formed by itself.
pub(crate) proof fn lemma_fields_well_formed_index(s: Seq<TableField>, alignment: usize, n: nat, i: int)
    requires
        spec_fields_well_formed(s, alignment, n),
        0 <= i < n <= s.len(),
    ensures
        is_power_of_two(s[i].alignment),
        s[i].alignment <= alignment,
        s[i].slot >= 4,
        s[i].slot % 2 == 0,
        spec_fields_nbytes(s, (i + 1) as nat) + 4 <= usize::MAX,
        match s[i].value {
            FieldValue::Scalar(_) => true,
            FieldValue::Reference(c) => c.spec_well_formed(),
        },
    decreases n,
{
    if i < n - 1 {
        lemma_fields_well_formed_index(s, alignment, (n - 1) as nat, i);
    }
}

/// Encodes the low thirty-two bits of a number as a length or an offset.
pub fn len_bytes(n: usize) -> (bytes: Vec<u8>)
    ensures
        bytes@ == spec_len_bytes(n as int),
        bytes@.len() == 4,
{
    u32_to_le(((n as u64) % 0x1_0000_0000) as u32)
}

/// Turns a vector round.
pub fn reversed<T>(items: Vec<T>) -> (turned: Vec<T>)
    ensures
        turned@.len() == items@.len(),
        forall|i: int|
            0 <= i < items@.len() ==> #[trigger] turned@[i] == items@[items@.len() - 1 - i],
{
    let ghost all = items@;
    let mut items = items;
    let mut turned: Vec<T> = Vec::with_capacity(items.len());
    while items.len() > 0
        invariant
            items@.len() + turned@.len() == all.len(),
            items@ == all.subrange(0, items@.len() as int),
            forall|i: int|
                0 <= i < turned@.len() ==> #[trigger] turned@[i] == all[all.len() - 1 - i],
        decreases items@.len(),
    {
        let item = items.pop().unwrap();
        turned.push(item);
    }
    turned
}

fn build_string(text: &str, builder: &mut Builder) -> (position: usize)
    ensures
        (final(builder)@, position) == spec_emit_string(old(builder)@, encode_utf8(text@)),
        position >= old(builder)@.buffer.len(),
        final(builder)@.buffer.len() >= old(builder)@.buffer.len(),
{
    proof {
        crate::alignment::lemma_small_powers_of_two();
        crate::alignment::lemma_align_is_least_multiple(
            builder@.buffer.len() as int,
            SIZE_OF_LEN as int,
        );
    }
    let bytes = text.as_bytes();
    builder.align(SIZE_OF_LEN);
    let position = builder.tell();
    let len = len_bytes(bytes.len());
    builder.extend_from_slice(len.as_slice());
    builder.extend_from_slice(bytes);
    builder.push_scalar(0u8);
    assert(builder@.buffer =~= spec_emit_string(old(builder)@, encode_utf8(text@)).0.buffer);
    position
}

fn build_vector(bytes: &[u8], count: usize, alignment: usize, builder: &mut Builder) -> (position:
    usize)
    requires
        is_power_of_two(alignment),
    ensures
        (final(builder)@, position) == spec_emit_vector(
            old(builder)@,
            bytes@,
            count as int,
            alignment as int,
        ),
        position >= old(builder)@.buffer.len(),
        final(builder)@.buffer.len() >= old(builder)@.buffer.len(),
{
    proof {
        crate::alignment::lemma_small_powers_of_two();
        crate::alignment::lemma_align_after_is_least(
            builder@.buffer.len() as int,
            SIZE_OF_LEN as int,
            alignment as int,
        );
    }
    builder.align_after(SIZE_OF_LEN, alignment);
    let position = builder.tell();
    let len = len_bytes(count);
    builder.extend_from_slice(len.as_slice());
    builder.extend_from_slice(bytes);
    position
}

fn build_references(references: Vec<Component>, builder: &mut Builder) -> (position: usize)
    requires
        spec_all_well_formed(references@, references@.len()),
        old(builder)@.well_formed(),
    ensures
        (final(builder)@, position) == spec_emit_references(old(builder)@, references@),
        position >= old(builder)@.buffer.len(),
        final(builder)@.buffer.len() >= old(builder)@.buffer.len(),
        final(builder)@.well_formed(),
{
    proof {
        crate::alignment::lemma_small_powers_of_two();
        crate::alignment::lemma_align_after_is_least(
            builder@.buffer.len() as int,
            SIZE_OF_LEN as int,
            SIZE_OF_UOFFSET as int,
        );
    }
    let ghost all = references@;
    let n = references.len();
    builder.align_after(SIZE_OF_LEN, SIZE_OF_UOFFSET);
    let position = builder.tell();
    let len = len_bytes(n);
    builder.extend_from_slice(len.as_slice());
    let ghost head = builder@.buffer;
    let ghost waiting = spec_designated(all, position as int);
    let mut turned = reversed(references);
    let mut k: usize = 0;
    assert(head + spec_zeros(0) =~= head);
    assert(old(builder)@.components + waiting.subrange(0, 0) =~= old(builder)@.components);
    while k < n
        invariant
            k <= n,
            n == all.len(),
            turned@.len() == n - k,
            forall|i: int| 0 <= i < n - k ==> #[trigger] turned@[i] == all[n - 1 - i],
            spec_all_well_formed(all, all.len()),
            waiting == spec_designated(all, position as int),
            head.len() == position + SIZE_OF_LEN,
            builder@.buffer == head + spec_zeros(k * SIZE_OF_UOFFSET),
            builder@.components == old(builder)@.components + waiting.subrange(0, k as int),
            builder@.vtables == old(builder)@.vtables,
            builder@.well_formed(),
        decreases n - k,
    {
        let component = turned.pop().unwrap();
        proof {
            lemma_all_well_formed_index(all, all.len(), k as int);
        }
        let offset_position = builder.tell();
        builder.pad(SIZE_OF_UOFFSET);
        builder.push_component(DesignatedComponent::new(offset_position, component));
        proof {
            assert(builder@.buffer =~= head + spec_zeros((k + 1) * SIZE_OF_UOFFSET));
            assert(waiting[k as int] == DesignatedComponent {
                offset_position,
                component,
            });
            assert(waiting.subrange(0, k + 1) =~= waiting.subrange(0, k as int).push(
                waiting[k as int],
            ));
            assert(builder@.components =~= old(builder)@.components + waiting.subrange(0, k + 1));
        }
        k += 1;
    }
    assert(waiting.subrange(0, n as int) =~= waiting);
    position
}

fn build_table(t: TableComponent, builder: &mut Builder) -> (position: usize)
    requires
        Component::Table(t).spec_well_formed(),
        old(builder)@.well_formed(),
    ensures
        (final(builder)@, position) == spec_emit_table(old(builder)@, t),
        position >= old(builder)@.buffer.len(),
        final(builder)@.buffer.len() >= old(builder)@.buffer.len(),
        final(builder)@.well_formed(),
{
    let ghost fields = t.fields@;
    let ghost before = builder@;
    let n = t.fields.len();
    proof {
        crate::alignment::lemma_small_powers_of_two();
        crate::alignment::lemma_align_is_least_multiple(
            before.buffer.len() as int,
            SIZE_OF_VOFFSET as int,
        );
    }
    builder.align(SIZE_OF_VOFFSET);
    let vtable_start = builder.tell();
    builder.pad(2 * SIZE_OF_VOFFSET);
    let ghost started = builder@;
    assert(started.buffer =~= spec_aligned(before.buffer, SIZE_OF_VOFFSET as int) + spec_zeros(
        2 * SIZE_OF_VOFFSET as int,
    ));
    let mut fields_nbytes: usize = 0;
    let mut k: usize = 0;
    while k < n
        invariant
            k <= n,
            n == fields.len(),
            t.fields@ == fields,
            spec_fields_well_formed(fields, t.alignment, fields.len()),
            builder@ == started.with_buffer(
                spec_vtable_fields(started, vtable_start as int, fields, k as nat),
            ),
            fields_nbytes == spec_fields_nbytes(fields, k as nat),
            fields_nbytes + 4 <= usize::MAX,
            vtable_start + 2 * SIZE_OF_VOFFSET <= builder@.buffer.len(),
            (builder@.buffer.len() - vtable_start) % 2 == 0,
        decreases n - k,
    {
        proof {
            lemma_fields_well_formed_index(fields, t.alignment, fields.len(), k as int);
        }
        let field = &t.fields[k];
        fields_nbytes = builder.enter_field(
            vtable_start,
            fields_nbytes,
            field.slot,
            field.value.size(),
            field.alignment,
        );
        k += 1;
    }
    let ghost scratch = spec_scratch_vtable(before, fields);
    let vtable_position = builder.finish_vtable(vtable_start, fields_nbytes);
    let ghost stored = builder@;
    assert(stored == scratch.deduplicate(vtable_start));
    proof {
        crate::alignment::lemma_align_after_is_least(
            stored.buffer.len() as int,
            SIZE_OF_SOFFSET as int,
            t.alignment as int,
        );
        assert forall|i: int| 0 <= i < stored.components.len() implies {
            &&& (#[trigger] stored.components[i]).offset_position + SIZE_OF_UOFFSET
                <= stored.buffer.len()
            &&& stored.components[i].component.spec_well_formed()
        } by {
            assert(stored.components[i] == before.components[i]);
        }
    }
    builder.align_after(SIZE_OF_SOFFSET, t.alignment);
    let position = builder.tell();
    let back = len_bytes(position - vtable_position);
    builder.extend_from_slice(back.as_slice());
    let ghost headed = builder@;
    let mut turned = reversed(t.fields);
    let mut k: usize = 0;
    while k < n
        invariant
            k <= n,
            n == fields.len(),
            turned@.len() == n - k,
            forall|i: int| 0 <= i < n - k ==> #[trigger] turned@[i] == fields[n - 1 - i],
            spec_fields_well_formed(fields, t.alignment, fields.len()),
            builder@ == spec_table_fields(headed, fields, k as nat),
            builder@.buffer.len() >= headed.buffer.len(),
            builder@.well_formed(),
        decreases n - k,
    {
        let field = turned.pop().unwrap();
        proof {
            lemma_fields_well_formed_index(fields, t.alignment, fields.len(), k as int);
            crate::alignment::lemma_align_is_least_multiple(
                builder@.buffer.len() as int,
                field.alignment as int,
            );
        }
        builder.align(field.alignment);
        match field.value {
            FieldValue::Scalar(bytes) => {
                builder.extend_from_slice(bytes.as_slice());
            },
            FieldValue::Reference(component) => {
                let offset_position = builder.tell();
                builder.pad(SIZE_OF_UOFFSET);
                builder.push_component(DesignatedComponent::new(offset_position, component));
            },
        }
        k += 1;
    }
    position
}

impl Component {
    /// Emits the component and gives the place where it starts. What it points to waits
    /// behind what waited before.
    pub fn build(self, builder: &mut Builder) -> (position: usize)
        requires
            self.spec_well_formed(),
            old(builder)@.well_formed(),
        ensures
            (final(builder)@, position) == spec_emit(old(builder)@, self),
            final(builder)@.components == spec_queue_after(old(builder)@, self),
            position >= old(builder)@.buffer.len(),
            final(builder)@.buffer.len() >= old(builder)@.buffer.len(),
            final(builder)@.well_formed(),
        decreases self.spec_nodes(), 0nat,
    {
        match self {
            Component::Empty => builder.tell(),
            Component::String(s) => build_string(s.text.as_str(), builder),
            Component::ScalarsVector(v) => {
                let alignment = v.scalars.len() / v.len;
                build_vector(v.scalars.as_slice(), v.len, alignment, builder)
            },
            Component::ReferencesVector(v) => build_references(v.references, builder),
            Component::Table(t) => build_table(t, builder),
            Component::NestedBuffer(n) => {
                let alignment = match &*n.root {
                    Component::Table(t) => t.alignment,
                    _ => SIZE_OF_UOFFSET,
                };
                proof {
                    crate::alignment::lemma_small_powers_of_two();
                    lemma_queue_nodes_single(
                        DesignatedComponent { offset_position: 0, component: *n.root },
                    );
                }
                let inner = Builder::new(*n.root).build();
                build_vector(inner.as_slice(), inner.len(), alignment, builder)
            },
        }
    }
}

impl DesignatedComponent {
    /// Emits the component, and writes the distance from the place of its offset to its
    /// start at that place.
    pub fn build(self, builder: &mut Builder)
        requires
            self.component.spec_well_formed(),
            self.offset_position + SIZE_OF_UOFFSET <= old(builder)@.buffer.len(),
            old(builder)@.well_formed(),
        ensures
            final(builder)@ == spec_emit_designated(old(builder)@, self),
            final(builder)@.well_formed(),
        decreases self.component.spec_nodes(), 1nat,
    {
        let offset_position = self.offset_position;
        let position = self.component.build(builder);
        let uoffset = len_bytes(position - offset_position);
        builder.set_bytes(offset_position, uoffset.as_slice());
    }
}

impl Builder {
    /// Emits everything that waits, and gives the buffer.
    pub fn build(self) -> (bytes: Vec<u8>)
        requires
            self@.well_formed(),
        ensures
            bytes@ == spec_run(self@),
        decreases spec_queue_nodes(self@.components), 2nat,
    {
        let ghost start = self@;
        let mut builder = self;
        loop
            invariant
                start == self@,
                builder@.well_formed(),
                spec_run(builder@) == spec_run(start),
                spec_queue_nodes(builder@.components) <= spec_queue_nodes(start.components),
            ensures
                builder@.components.len() == 0,
                spec_run(builder@) == spec_run(start),
            decreases spec_queue_nodes(builder@.components),
        {
            let ghost before = builder@;
            match builder.pop_component() {
                None => {
                    break ;
                },
                Some(component) => {
                    proof {
                        lemma_queue_after_nodes(builder@, component.component);
                        assert(before.components[0] == component);
                        assert(builder@.components == before.components.drop_first());
                        assert(spec_queue_nodes(before.components)
                            == component.component.spec_nodes() + spec_queue_nodes(
                            builder@.components,
                        ));
                    }
                    component.build(&mut builder);
                },
            }
        }
        builder.into_bytes()
    }
}

} // verus!
