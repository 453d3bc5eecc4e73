use crate::alignment::{
    is_power_of_two, padding, padding_after, spec_align, spec_align_after,
};
use crate::builder::component::{Component, DesignatedComponent};
use crate::scalar::{spec_u16_le, u16_to_le, Scalar};
use crate::types::{SIZE_OF_UOFFSET, SIZE_OF_VOFFSET};
use std::collections::{HashMap, VecDeque};
use vstd::prelude::*;

verus! {

broadcast use vstd::std_specs::hash::group_hash_axioms;

/// `n` zero bytes.
pub open spec fn spec_zeros(n: int) -> Seq<u8> {
    Seq::new(
        if n >= 0 {
            n as nat
        } else {
            0
        },
        |i: int| 0u8,
    )
}

/// The buffer with `bytes` written over what stood at `position`.
pub open spec fn spec_write(buffer: Seq<u8>, position: int, bytes: Seq<u8>) -> Seq<u8> {
    Seq::new(
        buffer.len(),
        |i: int|
            if position <= i < position + bytes.len() {
                bytes[i - position]
            } else {
                buffer[i]
            },
    )
}

/// The two bytes of a vtable entry: the low sixteen bits of the number.
pub open spec fn spec_voffset_bytes(n: int) -> Seq<u8> {
    spec_u16_le((n % 0x1_0000) as u16)
}

/// The number under which the bytes of a vtable are looked up.
pub open spec fn spec_hash(bytes: Seq<u8>) -> u64
    decreases bytes.len(),
{
    if bytes.len() == 0 {
        0
    } else {
        ((spec_hash(bytes.drop_last()) * 31 + bytes.last()) % 0xffff_fffb) as u64
    }
}

/// The state of a builder.
pub struct BuilderView {
    /// The bytes that have been emitted.
    pub buffer: Seq<u8>,
    /// The components that wait to be emitted, the one that is next first.
    pub components: Seq<DesignatedComponent>,
    /// For the hash of each vtable that was stored, the place where the last such vtable
    /// starts.
    pub vtables: Map<u64, usize>,
}

impl BuilderView {
    /// The state of a builder that is about to emit `root`: the buffer holds room for the
    /// offset to the root, the root waits, and no vtable is on record.
    pub open spec fn initial(root: Component) -> BuilderView {
        BuilderView {
            buffer: spec_zeros(SIZE_OF_UOFFSET as int),
            components: seq![DesignatedComponent { offset_position: 0, component: root }],
            vtables: Map::empty(),
        }
    }

    /// The same state with another buffer.
    pub open spec fn with_buffer(self, buffer: Seq<u8>) -> BuilderView {
        BuilderView { buffer, components: self.components, vtables: self.vtables }
    }

    /// Every component that waits has the four bytes of its offset in the buffer, and can
    /// be emitted.
    pub open spec fn well_formed(self) -> bool {
        forall|i: int|
            0 <= i < self.components.len() ==> {
                &&& (#[trigger] self.components[i]).offset_position + SIZE_OF_UOFFSET
                    <= self.buffer.len()
                &&& self.components[i].component.spec_well_formed()
            }
    }

    /// The bytes from `vtable_start` on, the vtable that was written last.
    pub open spec fn scratch(self, vtable_start: int) -> Seq<u8> {
        self.buffer.subrange(vtable_start, self.buffer.len() as int)
    }

    /// An earlier vtable with the bytes of the one at `vtable_start` is on record: the
    /// place on record for their hash lies before `vtable_start` and holds the same bytes.
    pub open spec fn finds(self, vtable_start: int) -> bool {
        let bytes = self.scratch(vtable_start);
        &&& self.vtables.contains_key(spec_hash(bytes))
        &&& self.vtables[spec_hash(bytes)] + bytes.len() <= vtable_start
        &&& self.buffer.subrange(
            self.vtables[spec_hash(bytes)] as int,
            self.vtables[spec_hash(bytes)] + bytes.len(),
        ) == bytes
    }

    /// The state after the vtable at `vtable_start` has gone through deduplication: where
    /// an equal one is on record the new one is cut off, else the new one is put on record.
    pub open spec fn deduplicate(self, vtable_start: usize) -> BuilderView {
        if self.finds(vtable_start as int) {
            self.with_buffer(self.buffer.subrange(0, vtable_start as int))
        } else {
            BuilderView {
                buffer: self.buffer,
                components: self.components,
                vtables: self.vtables.insert(
                    spec_hash(self.scratch(vtable_start as int)),
                    vtable_start,
                ),
            }
        }
    }

    /// The place of the vtable that the table will point to after deduplication.
    pub open spec fn deduplicated_position(self, vtable_start: usize) -> usize {
        if self.finds(vtable_start as int) {
            self.vtables[spec_hash(self.scratch(vtable_start as int))]
        } else {
            vtable_start
        }
    }

    /// The buffer after a field has been added to the vtable that starts at `vtable_start`:
    /// its entry, the place of the field counted from the start of the table, is written
    /// into its slot, the vtable growing up to the slot where it ends before it.
    pub open spec fn add_field(
        self,
        vtable_start: int,
        fields_nbytes: int,
        slot: int,
        alignment: int,
    ) -> Seq<u8> {
        let entry = spec_voffset_bytes(spec_align(fields_nbytes, alignment) + 4);
        let length = self.buffer.len() - vtable_start;
        if slot < length {
            spec_write(self.buffer, vtable_start + slot, entry)
        } else {
            self.buffer + spec_zeros(slot - length) + entry
        }
    }

    /// The buffer with the two sizes written at the start of the vtable: that of the vtable
    /// and that of the table with its header.
    pub open spec fn finish_sizes(self, vtable_start: int, fields_nbytes: int) -> Seq<u8> {
        spec_write(
            spec_write(
                self.buffer,
                vtable_start,
                spec_voffset_bytes(self.buffer.len() - vtable_start),
            ),
            vtable_start + 2,
            spec_voffset_bytes(fields_nbytes + 4),
        )
    }
}

/// After deduplication the place that the table is to point to holds the bytes of its
/// vtable, and the place is on record under the hash of those bytes.
pub proof fn lemma_deduplicated_vtable_is_stored(view: BuilderView, vtable_start: usize)
    requires
        vtable_start <= view.buffer.len(),
    ensures
        view.deduplicated_position(vtable_start) + view.scratch(vtable_start as int).len()
            <= view.deduplicate(vtable_start).buffer.len(),
        view.deduplicate(vtable_start).buffer.subrange(
            view.deduplicated_position(vtable_start) as int,
            view.deduplicated_position(vtable_start) + view.scratch(vtable_start as int).len(),
        ) == view.scratch(vtable_start as int),
        view.deduplicate(vtable_start).vtables.contains_key(
            spec_hash(view.scratch(vtable_start as int)),
        ),
        view.deduplicate(vtable_start).vtables[spec_hash(view.scratch(vtable_start as int))]
            == view.deduplicated_position(vtable_start),
{
    let bytes = view.scratch(vtable_start as int);
    let position = view.deduplicated_position(vtable_start);
    let after = view.deduplicate(vtable_start);
    if view.finds(vtable_start as int) {
        assert(after.buffer.subrange(position as int, position + bytes.len())
            =~= view.buffer.subrange(position as int, position + bytes.len()));
    } else {
        assert(after.buffer.subrange(position as int, position + bytes.len()) =~= bytes);
    }
}

/// Two vtables with the same bytes share one place: when a vtable has gone through
/// deduplication and a vtable with the same bytes is written later, whatever was emitted
/// in between, the later one is cut off again and its table points to the place of the
/// earlier one.
pub proof fn lemma_equal_vtables_share_storage(
    view: BuilderView,
    vtable_start: usize,
    between: Seq<u8>,
)
    requires
        vtable_start <= view.buffer.len(),
        view.deduplicate(vtable_start).buffer.len() + between.len() <= usize::MAX,
    ensures
        ({
            let bytes = view.scratch(vtable_start as int);
            let first = view.deduplicate(vtable_start);
            let second_start = (first.buffer.len() + between.len()) as usize;
            let second = first.with_buffer(first.buffer + between + bytes);
            &&& second.scratch(second_start as int) == bytes
            &&& second.deduplicated_position(second_start) == view.deduplicated_position(
                vtable_start,
            )
            &&& second.deduplicate(second_start) == first.with_buffer(first.buffer + between)
        }),
{
    let bytes = view.scratch(vtable_start as int);
    let first = view.deduplicate(vtable_start);
    let position = view.deduplicated_position(vtable_start);
    let second_start = (first.buffer.len() + between.len()) as usize;
    let second = first.with_buffer(first.buffer + between + bytes);
    lemma_deduplicated_vtable_is_stored(view, vtable_start);
    assert(second.scratch(second_start as int) =~= bytes);
    assert(second.buffer.subrange(position as int, position + bytes.len())
        =~= first.buffer.subrange(position as int, position + bytes.len()));
    assert(second.finds(second_start as int));
    assert(second.buffer.subrange(0, second_start as int) =~= first.buffer + between);
}

/// Two vtables with different bytes do not share a place: what is stored at one place with
/// one length is one sequence of bytes.
pub proof fn lemma_different_vtables_differ_in_storage(
    buffer: Seq<u8>,
    first: int,
    first_bytes: Seq<u8>,
    second: int,
    second_bytes: Seq<u8>,
)
    requires
        buffer.subrange(first, first + first_bytes.len()) == first_bytes,
        buffer.subrange(second, second + second_bytes.len()) == second_bytes,
        first_bytes != second_bytes,
    ensures
        first != second || first_bytes.len() != second_bytes.len(),
{
}

/// Assembles a buffer from components.
pub struct Builder {
    buffer: Vec<u8>,
    components: VecDeque<DesignatedComponent>,
    vtables: HashMap<u64, usize>,
}

impl View for Builder {
    type V = BuilderView;

    closed spec fn view(&self) -> BuilderView {
        BuilderView {
            buffer: self.buffer@,
            components: self.components@,
            vtables: self.vtables@,
        }
    }
}

/// Computes the number under which bytes are looked up.
fn hash_range(buffer: &Vec<u8>, from: usize, to: usize) -> (h: u64)
    requires
        from <= to <= buffer@.len(),
    ensures
        h == spec_hash(buffer@.subrange(from as int, to as int)),
{
    let mut h: u64 = 0;
    let mut i: usize = from;
    while i < to
        invariant
            from <= i <= to <= buffer@.len(),
            h == spec_hash(buffer@.subrange(from as int, i as int)),
            h < 0xffff_fffb,
        decreases to - i,
    {
        proof {
            let next = buffer@.subrange(from as int, i + 1);
            assert(next.drop_last() =~= buffer@.subrange(from as int, i as int));
            assert(next.last() == buffer@[i as int]);
        }
        h = (h * 31 + (buffer[i] as u64)) % 0xffff_fffb;
        i += 1;
    }
    h
}

/// Tells whether two stretches of the buffer hold the same bytes.
fn same_bytes(buffer: &Vec<u8>, first: usize, second: usize, n: usize) -> (same: bool)
    requires
        first + n <= buffer@.len(),
        second + n <= buffer@.len(),
    ensures
        same == (buffer@.subrange(first as int, first + n) == buffer@.subrange(
            second as int,
            second + n,
        )),
{
    let total = buffer.len();
    let mut i: usize = 0;
    while i < n
        invariant
            i <= n,
            total == buffer@.len(),
            first + n <= buffer@.len(),
            second + n <= buffer@.len(),
            forall|k: int|
                0 <= k < i ==> #[trigger] buffer@.subrange(first as int, first + n)[k]
                    == buffer@.subrange(second as int, second + n)[k],
        decreases n - i,
    {
        if buffer[first + i] != buffer[second + i] {
            assert(buffer@.subrange(first as int, first + n)[i as int] != buffer@.subrange(
                second as int,
                second + n,
            )[i as int]);
            return false;
        }
        i += 1;
    }
    assert(buffer@.subrange(first as int, first + n) =~= buffer@.subrange(
        second as int,
        second + n,
    ));
    true
}

/// Encodes the low sixteen bits of a number as a vtable entry.
fn voffset_bytes(n: usize) -> (bytes: Vec<u8>)
    ensures
        bytes@ == spec_voffset_bytes(n as int),
        bytes@.len() == 2,
{
    u16_to_le((n % 0x1_0000) as u16)
}

impl Builder {
    /// A builder that will emit `root`: the buffer holds the four bytes of the offset to
    /// the root, and the root waits.
    pub fn new(root: Component) -> (builder: Builder)
        ensures
            builder@ == BuilderView::initial(root),
            root.spec_well_formed() ==> builder@.well_formed(),
    {
        Builder::with_capacity(SIZE_OF_UOFFSET, root)
    }

    /// As `new`, with room for `capacity` bytes set aside.
    pub fn with_capacity(capacity: usize, root: Component) -> (builder: Builder)
        ensures
            builder@ == BuilderView::initial(root),
            root.spec_well_formed() ==> builder@.well_formed(),
    {
        let mut buffer: Vec<u8> = Vec::with_capacity(capacity);
        buffer.push(0);
        buffer.push(0);
        buffer.push(0);
        buffer.push(0);
        assert(buffer@ =~= spec_zeros(SIZE_OF_UOFFSET as int));
        let mut components: VecDeque<DesignatedComponent> = VecDeque::new();
        components.push_back(DesignatedComponent::new(0, root));
        assert(components@ =~= seq![DesignatedComponent { offset_position: 0, component: root }]);
        let vtables: HashMap<u64, usize> = HashMap::new();
        assert(vtables@ =~= Map::<u64, usize>::empty());
        Builder { buffer, components, vtables }
    }

    /// Tells whether every component that waits can be emitted and has the four bytes of
    /// its offset in the buffer.
    pub fn well_formed(&self) -> (r: bool)
        ensures
            r == self@.well_formed(),
    {
        let mut i: usize = 0;
        while i < self.components.len()
            invariant
                i <= self.components@.len(),
                forall|k: int|
                    0 <= k < i ==> {
                        &&& (#[trigger] self@.components[k]).offset_position + SIZE_OF_UOFFSET
                            <= self@.buffer.len()
                        &&& self@.components[k].component.spec_well_formed()
                    },
            decreases self.components@.len() - i,
        {
            let waiting = &self.components[i];
            assert(*waiting == self@.components[i as int]);
            if waiting.offset_position > self.buffer.len() || self.buffer.len()
                - waiting.offset_position < SIZE_OF_UOFFSET || !waiting.component.well_formed() {
                return false;
            }
            i += 1;
        }
        true
    }

    /// The bytes emitted so far.
    pub fn as_bytes(&self) -> (bytes: &[u8])
        ensures
            bytes@ == self@.buffer,
    {
        self.buffer.as_slice()
    }

    /// The number of bytes emitted so far: the place where the next byte goes.
    pub fn tell(&self) -> (position: usize)
        ensures
            position == self@.buffer.len(),
    {
        self.buffer.len()
    }

    /// Lets a component wait for its turn. The four bytes of the offset that will point to
    /// it have to be in the buffer.
    pub fn push_component(&mut self, component: DesignatedComponent)
        requires
            component.offset_position + SIZE_OF_UOFFSET <= old(self)@.buffer.len(),
        ensures
            final(self)@.buffer == old(self)@.buffer,
            final(self)@.components == old(self)@.components.push(component),
            final(self)@.vtables == old(self)@.vtables,
            old(self)@.well_formed() && component.component.spec_well_formed()
                ==> final(self)@.well_formed(),
    {
        self.components.push_back(component);
    }

    /// Sets aside the four bytes of an offset at the end of the buffer and lets the
    /// component that the offset will point to wait for its turn.
    pub fn push_reference(&mut self, component: Component)
        ensures
            final(self)@.buffer == old(self)@.buffer + spec_zeros(SIZE_OF_UOFFSET as int),
            final(self)@.components == old(self)@.components.push(
                DesignatedComponent {
                    offset_position: old(self)@.buffer.len() as usize,
                    component,
                },
            ),
            final(self)@.vtables == old(self)@.vtables,
            old(self)@.well_formed() && component.spec_well_formed() ==> final(self)@.well_formed(),
    {
        let offset_position = self.tell();
        self.pad(SIZE_OF_UOFFSET);
        self.push_component(DesignatedComponent::new(offset_position, component));
    }

    /// Takes out the component whose turn it is.
    pub fn pop_component(&mut self) -> (component: Option<DesignatedComponent>)
        ensures
            final(self)@.buffer == old(self)@.buffer,
            final(self)@.vtables == old(self)@.vtables,
            old(self)@.components.len() == 0 ==> component is None && final(self)@.components
                == old(self)@.components,
            old(self)@.components.len() > 0 ==> component == Some(old(self)@.components[0])
                && final(self)@.components == old(self)@.components.subrange(
                1,
                old(self)@.components.len() as int,
            ),
            old(self)@.well_formed() ==> final(self)@.well_formed(),
    {
        let component = self.components.pop_front();
        proof {
            if old(self)@.well_formed() {
                assert forall|i: int| 0 <= i < self@.components.len() implies {
                    &&& (#[trigger] self@.components[i]).offset_position + SIZE_OF_UOFFSET
                        <= self@.buffer.len()
                    &&& self@.components[i].component.spec_well_formed()
                } by {
                    assert(self@.components[i] == old(self)@.components[i + 1]);
                }
            }
        }
        component
    }

    /// Appends bytes.
    pub fn extend_from_slice(&mut self, bytes: &[u8])
        ensures
            final(self)@ == old(self)@.with_buffer(old(self)@.buffer + bytes@),
    {
        self.buffer.extend_from_slice(bytes);
        assert(self.buffer@ =~= old(self).buffer@ + bytes@);
    }

    /// Appends the little-endian bytes of a scalar.
    pub fn push_scalar<T: Scalar>(&mut self, s: T)
        ensures
            final(self)@ == old(self)@.with_buffer(old(self)@.buffer + s.spec_as_bytes()),
    {
        let s = s.to_le();
        let bytes = s.as_bytes();
        self.extend_from_slice(bytes.as_slice());
    }

    /// Writes `bytes` over what stands at `position`.
    pub fn set_bytes(&mut self, position: usize, bytes: &[u8])
        requires
            position + bytes@.len() <= old(self)@.buffer.len(),
        ensures
            final(self)@ == old(self)@.with_buffer(
                spec_write(old(self)@.buffer, position as int, bytes@),
            ),
    {
        let total = self.buffer.len();
        let mut i: usize = 0;
        while i < bytes.len()
            invariant
                i <= bytes@.len(),
                total == self.buffer@.len(),
                position + bytes@.len() <= self.buffer@.len(),
                self.buffer@.len() == old(self).buffer@.len(),
                self.components == old(self).components,
                self.vtables == old(self).vtables,
                forall|k: int|
                    0 <= k < self.buffer@.len() ==> self.buffer@[k] == (if position <= k < position
                        + i {
                        bytes@[k - position]
                    } else {
                        old(self).buffer@[k]
                    }),
            decreases bytes@.len() - i,
        {
            self.buffer[position + i] = bytes[i];
            i += 1;
        }
        assert(self.buffer@ =~= spec_write(old(self).buffer@, position as int, bytes@));
    }

    /// Writes the little-endian bytes of a scalar over what stands at `position`.
    pub fn set_scalar<T: Scalar>(&mut self, position: usize, s: T)
        requires
            position + T::spec_size() <= old(self)@.buffer.len(),
        ensures
            final(self)@ == old(self)@.with_buffer(
                spec_write(old(self)@.buffer, position as int, s.spec_as_bytes()),
            ),
    {
        let s = s.to_le();
        let bytes = s.as_bytes();
        self.set_bytes(position, bytes.as_slice());
    }

    /// Appends `n` zero bytes.
    pub fn pad(&mut self, n: usize)
        ensures
            final(self)@ == old(self)@.with_buffer(old(self)@.buffer + spec_zeros(n as int)),
    {
        let mut i: usize = 0;
        while i < n
            invariant
                i <= n,
                self.components == old(self).components,
                self.vtables == old(self).vtables,
                self.buffer@ == old(self).buffer@ + spec_zeros(i as int),
            decreases n - i,
        {
            self.buffer.push(0);
            assert(self.buffer@ =~= old(self).buffer@ + spec_zeros(i + 1));
            i += 1;
        }
        assert(old(self).buffer@ + spec_zeros(0) =~= old(self).buffer@);
    }

    /// Appends zero bytes up to the next multiple of `alignment`.
    pub fn align(&mut self, alignment: usize)
        requires
            is_power_of_two(alignment),
        ensures
            final(self)@ == old(self)@.with_buffer(
                old(self)@.buffer + spec_zeros(
                    spec_align(old(self)@.buffer.len() as int, alignment as int)
                        - old(self)@.buffer.len(),
                ),
            ),
            final(self)@.buffer.len() == spec_align(
                old(self)@.buffer.len() as int,
                alignment as int,
            ),
    {
        let n = padding(self.tell(), alignment);
        self.pad(n);
    }

    /// Appends zero bytes up to the next place from which `len` more bytes end on a
    /// multiple of the larger of `len` and `alignment`.
    pub fn align_after(&mut self, len: usize, alignment: usize)
        requires
            is_power_of_two(alignment),
            len <= alignment || is_power_of_two(len),
        ensures
            final(self)@ == old(self)@.with_buffer(
                old(self)@.buffer + spec_zeros(
                    spec_align_after(
                        old(self)@.buffer.len() as int,
                        len as int,
                        alignment as int,
                    ) - old(self)@.buffer.len(),
                ),
            ),
            final(self)@.buffer.len() == spec_align_after(
                old(self)@.buffer.len() as int,
                len as int,
                alignment as int,
            ),
    {
        let n = padding_after(self.tell(), len, alignment);
        self.pad(n);
    }

    /// Hands over the buffer as it stands.
    pub fn into_bytes(self) -> (bytes: Vec<u8>)
        ensures
            bytes@ == self@.buffer,
    {
        self.buffer
    }

    /// Puts the vtable that starts at `vtable_start` and ends with the buffer through
    /// deduplication, and gives the place of the vtable that the table is to point to.
    fn deduplicate_vtable(&mut self, vtable_start: usize) -> (position: usize)
        requires
            vtable_start <= old(self)@.buffer.len(),
        ensures
            final(self)@ == old(self)@.deduplicate(vtable_start),
            position == old(self)@.deduplicated_position(vtable_start),
    {
        let vtable_end = self.tell();
        let n = vtable_end - vtable_start;
        let h = hash_range(&self.buffer, vtable_start, vtable_end);
        let found = match self.vtables.get(&h) {
            Some(position) => {
                let position = *position;
                if position <= vtable_start && n <= vtable_start - position && same_bytes(
                    &self.buffer,
                    position,
                    vtable_start,
                    n,
                ) {
                    Some(position)
                } else {
                    None
                }
            },
            None => None,
        };
        match found {
            Some(position) => {
                self.buffer.truncate(vtable_start);
                position
            },
            None => {
                self.vtables.insert(h, vtable_start);
                vtable_start
            },
        }
    }
}

/// Writes the vtable of a table into the buffer of a builder.
pub struct VTableBuilder<'b> {
    pub builder: &'b mut Builder,
    /// Where the vtable starts.
    pub vtable_start: usize,
    /// The number of bytes that the fields added so far take behind the header of the table.
    pub fields_nbytes: usize,
}

impl<'b> VTableBuilder<'b> {
    /// The vtable holds its two sizes, its length is even, the table fits the numbers of the
    /// machine, and every component that waits has its offset before the vtable.
    pub open spec fn well_formed(&self) -> bool {
        &&& self.vtable_start + 2 * SIZE_OF_VOFFSET <= (*self.builder)@.buffer.len()
        &&& ((*self.builder)@.buffer.len() - self.vtable_start) % 2 == 0
        &&& self.fields_nbytes + 4 <= usize::MAX
        &&& forall|i: int|
            0 <= i < (*self.builder)@.components.len() ==> {
                &&& (#[trigger] (*self.builder)@.components[i]).offset_position + SIZE_OF_UOFFSET
                    <= self.vtable_start
                &&& (*self.builder)@.components[i].component.spec_well_formed()
            }
    }

    /// Enters a field: `offset_in_vtable` is where its entry starts in the vtable, `size`
    /// and `alignment` are those of its value. The entry says where the value will stand,
    /// counted from the start of the table.
    pub fn add_field(&mut self, offset_in_vtable: usize, size: usize, alignment: usize)
        requires
            old(self).vtable_start <= (*old(self).builder)@.buffer.len(),
            is_power_of_two(alignment),
            spec_align(old(self).fields_nbytes as int, alignment as int) + size + 4 <= usize::MAX,
            offset_in_vtable < (*old(self).builder)@.buffer.len() - old(self).vtable_start
                ==> offset_in_vtable + SIZE_OF_VOFFSET <= (*old(self).builder)@.buffer.len()
                - old(self).vtable_start,
        ensures
            (*final(self).builder)@ == (*old(self).builder)@.with_buffer(
                (*old(self).builder)@.add_field(
                    old(self).vtable_start as int,
                    old(self).fields_nbytes as int,
                    offset_in_vtable as int,
                    alignment as int,
                ),
            ),
            final(self).vtable_start == old(self).vtable_start,
            final(self).fields_nbytes == spec_align(
                old(self).fields_nbytes as int,
                alignment as int,
            ) + size,
            *final(final(self).builder) == *final(old(self).builder),
            old(self).well_formed() && offset_in_vtable % 2 == 0 ==> final(self).well_formed(),
    {
        self.fields_nbytes = self.builder.enter_field(
            self.vtable_start,
            self.fields_nbytes,
            offset_in_vtable,
            size,
            alignment,
        );
    }

    /// Completes the vtable: writes its two sizes, puts it through deduplication, and gives
    /// the place of the vtable that the table is to point to.
    pub fn finish(self) -> (position: usize)
        requires
            self.vtable_start + 2 * SIZE_OF_VOFFSET <= (*old(self.builder))@.buffer.len(),
            self.fields_nbytes + 4 <= usize::MAX,
        ensures
            (*final(self.builder))@ == (*old(self.builder))@.with_buffer(
                (*old(self.builder))@.finish_sizes(
                    self.vtable_start as int,
                    self.fields_nbytes as int,
                ),
            ).deduplicate(self.vtable_start),
            position == (*old(self.builder))@.with_buffer(
                (*old(self.builder))@.finish_sizes(
                    self.vtable_start as int,
                    self.fields_nbytes as int,
                ),
            ).deduplicated_position(self.vtable_start),
            self.well_formed() ==> (*final(self.builder))@.well_formed(),
    {
        self.builder.finish_vtable(self.vtable_start, self.fields_nbytes)
    }
}

impl Builder {
    /// Enters a field into the vtable that starts at `vtable_start` and ends with the
    /// buffer, the fields entered before taking `fields_nbytes` bytes, and gives the number
    /// of bytes that the fields take with this one.
    pub fn enter_field(
        &mut self,
        vtable_start: usize,
        fields_nbytes: usize,
        offset_in_vtable: usize,
        size: usize,
        alignment: usize,
    ) -> (nbytes: usize)
        requires
            vtable_start <= old(self)@.buffer.len(),
            is_power_of_two(alignment),
            spec_align(fields_nbytes as int, alignment as int) + size + 4 <= usize::MAX,
            offset_in_vtable < old(self)@.buffer.len() - vtable_start ==> offset_in_vtable
                + SIZE_OF_VOFFSET <= old(self)@.buffer.len() - vtable_start,
        ensures
            final(self)@ == old(self)@.with_buffer(
                old(self)@.add_field(
                    vtable_start as int,
                    fields_nbytes as int,
                    offset_in_vtable as int,
                    alignment as int,
                ),
            ),
            nbytes == spec_align(fields_nbytes as int, alignment as int) + size,
            final(self)@.buffer.len() >= old(self)@.buffer.len(),
            offset_in_vtable % 2 == 0 && (old(self)@.buffer.len() - vtable_start) % 2 == 0 ==> (
            final(self)@.buffer.len() - vtable_start) % 2 == 0,
    {
        proof {
            crate::alignment::lemma_align_is_least_multiple(
                fields_nbytes as int,
                alignment as int,
            );
        }
        let offset_in_fields = fields_nbytes + padding(fields_nbytes, alignment);
        let entry = voffset_bytes(offset_in_fields + 4);
        let length = self.tell() - vtable_start;
        if offset_in_vtable < length {
            self.set_bytes(vtable_start + offset_in_vtable, entry.as_slice());
        } else {
            self.pad(offset_in_vtable - length);
            self.extend_from_slice(entry.as_slice());
        }
        offset_in_fields + size
    }

    /// Completes the vtable that starts at `vtable_start` and ends with the buffer: writes
    /// its two sizes, puts it through deduplication, and gives the place of the vtable that
    /// the table is to point to.
    pub fn finish_vtable(&mut self, vtable_start: usize, fields_nbytes: usize) -> (position: usize)
        requires
            vtable_start + 2 * SIZE_OF_VOFFSET <= old(self)@.buffer.len(),
            fields_nbytes + 4 <= usize::MAX,
        ensures
            final(self)@ == old(self)@.with_buffer(
                old(self)@.finish_sizes(vtable_start as int, fields_nbytes as int),
            ).deduplicate(vtable_start),
            position == old(self)@.with_buffer(
                old(self)@.finish_sizes(vtable_start as int, fields_nbytes as int),
            ).deduplicated_position(vtable_start),
            position <= vtable_start,
            vtable_start <= final(self)@.buffer.len(),
    {
        let size = voffset_bytes(self.tell() - vtable_start);
        self.set_bytes(vtable_start, size.as_slice());
        let inline_size = voffset_bytes(fields_nbytes + 4);
        self.set_bytes(vtable_start + SIZE_OF_VOFFSET, inline_size.as_slice());
        self.deduplicate_vtable(vtable_start)
    }

    /// Starts the vtable of a table at the next even place, with room for its two sizes.
    pub fn start_vtable<'b>(&'b mut self) -> (vtable: VTableBuilder<'b>)
        ensures
            (*vtable.builder)@ == old(self)@.with_buffer(
                old(self)@.buffer + spec_zeros(
                    spec_align(old(self)@.buffer.len() as int, SIZE_OF_VOFFSET as int)
                        - old(self)@.buffer.len(),
                ) + spec_zeros(2 * SIZE_OF_VOFFSET as int),
            ),
            vtable.vtable_start == spec_align(
                old(self)@.buffer.len() as int,
                SIZE_OF_VOFFSET as int,
            ),
            vtable.fields_nbytes == 0,
            *final(self) == *final(vtable.builder),
            old(self)@.well_formed() ==> vtable.well_formed(),
    {
        proof {
            crate::alignment::lemma_small_powers_of_two();
            crate::alignment::lemma_align_is_least_multiple(
                self@.buffer.len() as int,
                SIZE_OF_VOFFSET as int,
            );
        }
        self.align(SIZE_OF_VOFFSET);
        let vtable_start = self.tell();
        self.pad(2 * SIZE_OF_VOFFSET);
        VTableBuilder { builder: self, vtable_start, fields_nbytes: 0 }
    }
}

} // verus!
