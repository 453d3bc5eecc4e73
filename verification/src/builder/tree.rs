use crate::builder::component::{spec_fields_nbytes, Component, FieldValue, TableField};
use crate::builder::emit::{spec_build, spec_len_bytes};
use crate::builder::vtable::{spec_entry, spec_is_vtable_of, spec_vtable_len};
use crate::scalar::{spec_i32_of_bits, spec_u32_from_le};
use vstd::prelude::*;
use vstd::utf8::encode_utf8;

verus! {

/// The place that the offset at `pos` points to.
pub open spec fn spec_target(f: Seq<u8>, pos: int) -> int {
    pos + spec_u32_from_le(f.subrange(pos, pos + 4))
}

/// The place of the vtable that the table at `start` points to.
pub open spec fn spec_vtable_of(f: Seq<u8>, start: int) -> int {
    start - spec_i32_of_bits(spec_u32_from_le(f.subrange(start, start + 4)))
}

/// A string lies at `loc`: its length, its bytes and a zero byte.
pub open spec fn spec_string_laid_out(f: Seq<u8>, loc: int, bytes: Seq<u8>) -> bool {
    &&& 0 <= loc
    &&& loc + 4 + bytes.len() + 1 <= f.len()
    &&& f.subrange(loc, loc + 4) == spec_len_bytes(bytes.len() as int)
    &&& f.subrange(loc + 4, loc + 4 + bytes.len()) == bytes
    &&& f[loc + 4 + bytes.len()] == 0
}

/// A vector of inline values lies at `loc`: the number of its elements and their bytes.
pub open spec fn spec_vector_laid_out(f: Seq<u8>, loc: int, bytes: Seq<u8>, count: int) -> bool {
    &&& 0 <= loc
    &&& loc + 4 + bytes.len() <= f.len()
    &&& f.subrange(loc, loc + 4) == spec_len_bytes(count)
    &&& f.subrange(loc + 4, loc + 4 + bytes.len()) == bytes
}

/// What a table holds by itself lies at `start`: its vtable stands at `position` before it
/// and is the vtable of its fields, the table starts with the distance back to the vtable,
/// lies in the buffer, and every inline field stands with its bytes at the place that the
/// vtable enters for it.
pub open spec fn spec_table_own(
    f: Seq<u8>,
    start: int,
    position: int,
    fields: Seq<TableField>,
) -> bool {
    &&& 0 <= position
    &&& position + spec_vtable_len(fields, fields.len()) <= start
    &&& start + 4 + spec_fields_nbytes(fields, fields.len()) <= f.len()
    &&& spec_is_vtable_of(
        f.subrange(position, position + spec_vtable_len(fields, fields.len())),
        fields,
    )
    &&& f.subrange(start, start + 4) == spec_len_bytes(start - position)
    &&& forall|j: int|
        0 <= j < fields.len() && (#[trigger] fields[j]).value is Scalar ==> f.subrange(
            start + spec_entry(fields, j),
            start + 4 + spec_fields_nbytes(fields, (j + 1) as nat),
        ) == fields[j].value->Scalar_0@
}

/// The component lies at `loc` with everything that it points to: a string and a vector
/// of inline values with their bytes, a nested buffer as the vector of the bytes that the
/// builder gives for its root, a table with its vtable and its inline fields, and behind
/// every offset of a table or of a vector of references what the offset points to.
pub open spec fn spec_laid_out(f: Seq<u8>, loc: int, c: Component) -> bool
    decreases c, 0nat,
{
    match c {
        Component::Empty => true,
        Component::String(s) => spec_string_laid_out(f, loc, encode_utf8(s.text@)),
        Component::ScalarsVector(v) => spec_vector_laid_out(f, loc, v.scalars@, v.len as int),
        Component::NestedBuffer(n) => spec_vector_laid_out(
            f,
            loc,
            spec_build(*n.root),
            spec_build(*n.root).len() as int,
        ),
        Component::ReferencesVector(v) => {
            &&& 0 <= loc
            &&& loc + 4 + 4 * v.references@.len() <= f.len()
            &&& f.subrange(loc, loc + 4) == spec_len_bytes(v.references@.len() as int)
            &&& spec_elements_laid_out(f, loc, v.references@, v.references@.len())
        },
        Component::Table(t) => {
            &&& spec_table_own(f, loc, spec_vtable_of(f, loc), t.fields@)
            &&& spec_children_laid_out(f, loc, t.fields@, t.fields@.len())
        },
    }
}

/// Each of the first `k` elements of the vector of references at `loc` lies where its
/// offset points to, which is behind the offset.
pub open spec fn spec_elements_laid_out(f: Seq<u8>, loc: int, s: Seq<Component>, k: nat) -> bool
    decreases s, k,
{
    if k == 0 || k > s.len() {
        true
    } else {
        &&& spec_elements_laid_out(f, loc, s, (k - 1) as nat)
        &&& spec_target(f, loc + 4 + 4 * (k - 1)) >= loc + 4 + 4 * (k - 1) + 4
        &&& spec_laid_out(f, spec_target(f, loc + 4 + 4 * (k - 1)), s[k - 1])
    }
}

/// What each of the first `k` fields of the table at `start` points to lies where the
/// offset in the field points to, which is behind the offset.
pub open spec fn spec_children_laid_out(
    f: Seq<u8>,
    start: int,
    fields: Seq<TableField>,
    k: nat,
) -> bool
    decreases fields, k,
{
    if k == 0 || k > fields.len() {
        true
    } else {
        &&& spec_children_laid_out(f, start, fields, (k - 1) as nat)
        &&& match fields[k - 1].value {
            FieldValue::Scalar(_) => true,
            FieldValue::Reference(c) => {
                &&& spec_target(f, start + spec_entry(fields, k - 1)) >= start + spec_entry(
                    fields,
                    k - 1,
                ) + 4
                &&& spec_laid_out(f, spec_target(f, start + spec_entry(fields, k - 1)), c)
            },
        }
    }
}

/// What the offset at `pos` points to lies behind the offset, and is the component with
/// everything that it points to.
pub open spec fn spec_points_to(f: Seq<u8>, pos: int, c: Component) -> bool {
    &&& spec_target(f, pos) >= pos + 4
    &&& spec_laid_out(f, spec_target(f, pos), c)
}

/// The component fits the format with everything that it points to: the vtable of every
/// table and every table with its header fit sixteen bits, and every field takes room.
pub open spec fn spec_fits_format(c: Component) -> bool
    decreases c, 0nat,
{
    match c {
        Component::ReferencesVector(v) => spec_all_fit_format(
            v.references@,
            v.references@.len(),
        ),
        Component::Table(t) => {
            &&& spec_vtable_len(t.fields@, t.fields@.len()) < 0x1_0000
            &&& spec_fields_nbytes(t.fields@, t.fields@.len()) + 4 < 0x1_0000
            &&& spec_fields_fit_format(t.fields@, t.fields@.len())
        },
        _ => true,
    }
}

/// Each of the first `k` components fits the format.
pub open spec fn spec_all_fit_format(s: Seq<Component>, k: nat) -> bool
    decreases s, k,
{
    if k == 0 || k > s.len() {
        true
    } else {
        spec_all_fit_format(s, (k - 1) as nat) && spec_fits_format(s[k - 1])
    }
}

/// Each of the first `k` fields takes room, and what it points to fits the format.
pub open spec fn spec_fields_fit_format(fields: Seq<TableField>, k: nat) -> bool
    decreases fields, k,
{
    if k == 0 || k > fields.len() {
        true
    } else {
        &&& spec_fields_fit_format(fields, (k - 1) as nat)
        &&& fields[k - 1].value.spec_size() > 0
        &&& match fields[k - 1].value {
            FieldValue::Scalar(_) => true,
            FieldValue::Reference(c) => spec_fits_format(c),
        }
    }
}

/// Each component of a run that fits the format fits the format.
pub(crate) proof fn lemma_all_fit_format_index(s: Seq<Component>, k: nat, i: int)
    requires
        spec_all_fit_format(s, k),
        0 <= i < k <= s.len(),
    ensures
        spec_fits_format(s[i]),
    decreases k,
{
    if i < k - 1 {
        lemma_all_fit_format_index(s, (k - 1) as nat, i);
    }
}

/// Each field of a run that fits the format takes room, and what it points to fits the
/// format.
pub(crate) proof fn lemma_fields_fit_format_index(fields: Seq<TableField>, k: nat, i: int)
    requires
        spec_fields_fit_format(fields, k),
        0 <= i < k <= fields.len(),
    ensures
        fields[i].value.spec_size() > 0,
        match fields[i].value {
            FieldValue::Scalar(_) => true,
            FieldValue::Reference(c) => spec_fits_format(c),
        },
    decreases k,
{
    if i < k - 1 {
        lemma_fields_fit_format_index(fields, (k - 1) as nat, i);
    }
}

/// The offset that has been written for a distance that fits thirty-two bits points that
/// far.
pub(crate) proof fn lemma_target(f: Seq<u8>, pos: int, distance: int)
    requires
        0 <= distance < 0x1_0000_0000,
        f.subrange(pos, pos + 4) == spec_len_bytes(distance),
    ensures
        spec_target(f, pos) == pos + distance,
{
    let v = distance as u32;
    vstd::arithmetic::div_mod::lemma_small_mod(distance as nat, 0x1_0000_0000);
    let written = crate::scalar::spec_u32_le(v);
    assert(spec_len_bytes(distance) == written);
    assert(spec_u32_from_le(written) == v) by {
        crate::scalar::lemma_u32_le_round_trip(v, Seq::empty());
        assert(written + Seq::<u8>::empty() =~= written);
    }
}

/// The distance back to its vtable that has been written at the start of a table leads to
/// the vtable, where it fits thirty-one bits.
pub(crate) proof fn lemma_vtable_of(f: Seq<u8>, start: int, position: int)
    requires
        0 <= start - position < 0x8000_0000,
        f.subrange(start, start + 4) == spec_len_bytes(start - position),
    ensures
        spec_vtable_of(f, start) == position,
{
    lemma_target(f, start, start - position);
}

/// Each element of a vector of references whose elements lie where their offsets point to
/// lies where its offset points to.
pub(crate) proof fn lemma_element_laid_out(f: Seq<u8>, loc: int, s: Seq<Component>, k: nat, j: int)
    requires
        spec_elements_laid_out(f, loc, s, k),
        0 <= j < k <= s.len(),
    ensures
        spec_points_to(f, loc + 4 + 4 * j, s[j]),
    decreases k,
{
    if j < k - 1 {
        lemma_element_laid_out(f, loc, s, (k - 1) as nat, j);
    }
}

/// What a field of a table points to lies where the offset in the field points to, where
/// that holds of all fields of the table.
pub(crate) proof fn lemma_child_laid_out(
    f: Seq<u8>,
    start: int,
    fields: Seq<TableField>,
    k: nat,
    j: int,
)
    requires
        spec_children_laid_out(f, start, fields, k),
        0 <= j < k <= fields.len(),
        fields[j].value is Reference,
    ensures
        spec_points_to(f, start + spec_entry(fields, j), fields[j].value->Reference_0),
    decreases k,
{
    if j < k - 1 {
        lemma_child_laid_out(f, start, fields, (k - 1) as nat, j);
    }
}

impl Component {
    /// Tells whether the component fits the format with everything that it points to.
    pub fn fits_format(&self) -> (r: bool)
        requires
            self.spec_well_formed(),
        ensures
            r == spec_fits_format(*self),
        decreases self, 1nat,
    {
        match self {
            Component::ReferencesVector(v) => all_fit_format(&v.references),
            Component::Table(t) => table_fits_format(&t.fields, t.alignment),
            _ => true,
        }
    }
}

fn all_fit_format(components: &Vec<Component>) -> (r: bool)
    requires
        crate::builder::component::spec_all_well_formed(components@, components@.len()),
    ensures
        r == spec_all_fit_format(components@, components@.len()),
    decreases components, 0nat,
{
    let mut fit = true;
    let mut k: usize = 0;
    while k < components.len()
        invariant
            k <= components@.len(),
            crate::builder::component::spec_all_well_formed(components@, components@.len()),
            fit == spec_all_fit_format(components@, k as nat),
        decreases components@.len() - k,
    {
        proof {
            crate::builder::emit::lemma_all_well_formed_index(
                components@,
                components@.len(),
                k as int,
            );
        }
        let this = components[k].fits_format();
        fit = fit && this;
        k += 1;
    }
    fit
}

fn table_fits_format(fields: &Vec<TableField>, alignment: usize) -> (r: bool)
    requires
        crate::builder::component::spec_fields_well_formed(fields@, alignment, fields@.len()),
    ensures
        r == {
            &&& spec_vtable_len(fields@, fields@.len()) < 0x1_0000
            &&& spec_fields_nbytes(fields@, fields@.len()) + 4 < 0x1_0000
            &&& spec_fields_fit_format(fields@, fields@.len())
        },
    decreases fields, 0nat,
{
    let mut fit = true;
    let mut too_long = false;
    let mut length: usize = 4;
    let mut nbytes: usize = 0;
    let mut k: usize = 0;
    while k < fields.len()
        invariant
            k <= fields@.len(),
            crate::builder::component::spec_fields_well_formed(fields@, alignment, fields@.len()),
            fit == spec_fields_fit_format(fields@, k as nat),
            too_long ==> spec_vtable_len(fields@, k as nat) >= 0x1_0000,
            !too_long ==> length == spec_vtable_len(fields@, k as nat) && length < 0x1_0000,
            nbytes == spec_fields_nbytes(fields@, k as nat),
            nbytes + 4 <= usize::MAX,
        decreases fields@.len() - k,
    {
        proof {
            crate::builder::emit::lemma_fields_well_formed_index(
                fields@,
                alignment,
                fields@.len(),
                k as int,
            );
            crate::alignment::lemma_align_is_least_multiple(
                nbytes as int,
                fields@[k as int].alignment as int,
            );
        }
        let field = &fields[k];
        if field.slot > 0xfffd {
            too_long = true;
        } else if !too_long && field.slot + 2 > length {
            length = field.slot + 2;
        }
        let this = field.value.size() > 0 && (match &field.value {
            FieldValue::Scalar(_) => true,
            FieldValue::Reference(c) => c.fits_format(),
        });
        fit = fit && this;
        nbytes = nbytes + crate::alignment::padding(nbytes, field.alignment) + field.value.size();
        k += 1;
    }
    fit && !too_long && nbytes < 0xfffc
}

} // verus!
