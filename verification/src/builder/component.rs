use crate::alignment::{check_power_of_two, is_power_of_two};
use crate::types::SIZE_OF_UOFFSET;
use vstd::prelude::*;

verus! {

/// A string: its length, its bytes and a closing zero byte.
#[derive(Debug)]
pub struct StringComponent {
    pub text: String,
}

/// A vector of inline values: its length and the bytes of its elements.
#[derive(Debug)]
pub struct ScalarsVectorComponent {
    /// The elements, each already encoded, one after the other.
    pub scalars: Vec<u8>,
    /// The number of elements.
    pub len: usize,
}

/// A vector of references: its length and one offset to each element, which is emitted
/// after it.
#[derive(Debug)]
pub struct ReferencesVectorComponent {
    pub references: Vec<Component>,
}

/// What a field of a table holds.
#[derive(Debug)]
pub enum FieldValue {
    /// An inline value, already encoded.
    Scalar(Vec<u8>),
    /// A value that is emitted after the table; the table holds the offset to it.
    Reference(Component),
}

/// A field that is present in a table.
#[derive(Debug)]
pub struct TableField {
    /// Where the field's entry starts in the vtable, counted in bytes from the vtable's start.
    pub slot: usize,
    pub alignment: usize,
    pub value: FieldValue,
}

/// A table: the fields that are present, in the order in which they are emitted.
#[derive(Debug)]
pub struct TableComponent {
    pub alignment: usize,
    pub fields: Vec<TableField>,
}

/// A buffer of its own, stored as a vector of bytes.
#[derive(Debug)]
pub struct NestedBufferComponent {
    pub root: Box<Component>,
}

/// Something that a builder emits.
#[derive(Debug)]
pub enum Component {
    /// Emits nothing and starts where the buffer ends.
    Empty,
    String(StringComponent),
    ScalarsVector(ScalarsVectorComponent),
    ReferencesVector(ReferencesVectorComponent),
    Table(TableComponent),
    NestedBuffer(NestedBufferComponent),
}

/// A component that waits to be emitted, and the place of the offset that will point to it.
#[derive(Debug)]
pub struct DesignatedComponent {
    pub offset_position: usize,
    pub component: Component,
}

impl FieldValue {
    /// The number of bytes that the value takes inside the table.
    pub open spec fn spec_size(&self) -> nat {
        match self {
            FieldValue::Scalar(bytes) => bytes@.len(),
            FieldValue::Reference(_) => SIZE_OF_UOFFSET as nat,
        }
    }

    /// The number of bytes that the value takes inside the table.
    pub fn size(&self) -> (size: usize)
        ensures
            size == self.spec_size(),
    {
        match self {
            FieldValue::Scalar(bytes) => bytes.len(),
            FieldValue::Reference(_) => SIZE_OF_UOFFSET,
        }
    }
}

/// The number of bytes that the first `n` fields take behind the header of a table, each
/// field standing at the next multiple of its alignment.
pub open spec fn spec_fields_nbytes(fields: Seq<TableField>, n: nat) -> int
    decreases n,
{
    if n == 0 || n > fields.len() {
        0
    } else {
        crate::alignment::spec_align(
            spec_fields_nbytes(fields, (n - 1) as nat),
            fields[n - 1].alignment as int,
        ) + fields[n - 1].value.spec_size()
    }
}

impl Component {
    /// The number of components in this one, itself included.
    pub open spec fn spec_nodes(self) -> nat
        decreases self, 0nat,
    {
        match self {
            Component::ReferencesVector(v) => 1 + spec_nodes_upto(
                v.references@,
                v.references@.len(),
            ),
            Component::Table(t) => 1 + spec_field_nodes_upto(t.fields@, t.fields@.len()),
            Component::NestedBuffer(n) => 1 + n.root.spec_nodes(),
            _ => 1,
        }
    }

    /// The component can be emitted: every alignment in it is a power of two, no field
    /// needs more alignment than its table, the slots of a table lie behind the two sizes
    /// that a vtable starts with and at even places, the fields of a table fit the numbers of
    /// the machine, and a vector of inline values has elements of one size.
    pub open spec fn spec_well_formed(self) -> bool
        decreases self, 0nat,
    {
        match self {
            Component::ScalarsVector(v) => v.len > 0 && is_power_of_two(
                (v.scalars@.len() / (v.len as nat)) as usize,
            ),
            Component::ReferencesVector(v) => spec_all_well_formed(
                v.references@,
                v.references@.len(),
            ),
            Component::Table(t) => {
                &&& is_power_of_two(t.alignment)
                &&& spec_fields_well_formed(t.fields@, t.alignment, t.fields@.len())
            },
            Component::NestedBuffer(n) => n.root.spec_well_formed(),
            _ => true,
        }
    }

    /// The alignment that the component asks for where it is the root of a buffer.
    pub open spec fn spec_alignment(self) -> usize {
        match self {
            Component::Table(t) => t.alignment,
            _ => SIZE_OF_UOFFSET,
        }
    }
}

/// The number of components in the first `n` of `s`.
pub open spec fn spec_nodes_upto(s: Seq<Component>, n: nat) -> nat
    decreases s, n,
{
    if n == 0 || n > s.len() {
        0
    } else {
        s[n - 1].spec_nodes() + spec_nodes_upto(s, (n - 1) as nat)
    }
}

/// The number of components in the first `n` fields.
pub open spec fn spec_field_nodes_upto(s: Seq<TableField>, n: nat) -> nat
    decreases s, n,
{
    if n == 0 || n > s.len() {
        0
    } else {
        (match s[n - 1].value {
            FieldValue::Scalar(_) => 0nat,
            FieldValue::Reference(c) => c.spec_nodes(),
        }) + spec_field_nodes_upto(s, (n - 1) as nat)
    }
}

/// Each of the first `n` components can be emitted.
pub open spec fn spec_all_well_formed(s: Seq<Component>, n: nat) -> bool
    decreases s, n,
{
    if n == 0 || n > s.len() {
        true
    } else {
        s[n - 1].spec_well_formed() && spec_all_well_formed(s, (n - 1) as nat)
    }
}

/// Each of the first `n` fields can be emitted into a table of the given alignment.
pub open spec fn spec_fields_well_formed(s: Seq<TableField>, alignment: usize, n: nat) -> bool
    decreases s, n,
{
    if n == 0 || n > s.len() {
        true
    } else {
        &&& is_power_of_two(s[n - 1].alignment)
        &&& s[n - 1].alignment <= alignment
        &&& s[n - 1].slot >= 4
        &&& s[n - 1].slot % 2 == 0
        &&& spec_fields_nbytes(s, n) + 4 <= usize::MAX
        &&& (match s[n - 1].value {
            FieldValue::Scalar(_) => true,
            FieldValue::Reference(c) => c.spec_well_formed(),
        })
        &&& spec_fields_well_formed(s, alignment, (n - 1) as nat)
    }
}

impl StringComponent {
    /// A string with the given text.
    pub fn new(s: &str) -> (r: Self)
        ensures
            r.text@ == s@,
    {
        StringComponent { text: s.to_owned() }
    }
}

impl ScalarsVectorComponent {
    /// A vector of `len` elements whose encodings `scalars` holds one after the other.
    pub fn new(scalars: Vec<u8>, len: usize) -> (r: Self)
        ensures
            r.scalars == scalars,
            r.len == len,
    {
        ScalarsVectorComponent { scalars, len }
    }
}

impl ReferencesVectorComponent {
    /// A vector of references to the given components, in their order.
    pub fn new(references: Vec<Component>) -> (r: Self)
        ensures
            r.references == references,
    {
        ReferencesVectorComponent { references }
    }
}

impl TableComponent {
    /// A table of the given alignment with the given fields, in the order of emission.
    pub fn new(alignment: usize, fields: Vec<TableField>) -> (r: Self)
        ensures
            r.alignment == alignment,
            r.fields == fields,
    {
        TableComponent { alignment, fields }
    }
}

impl NestedBufferComponent {
    /// A buffer of its own for the given root.
    pub fn new(root: Component) -> (r: Self)
        ensures
            *r.root == root,
    {
        NestedBufferComponent { root: Box::new(root) }
    }
}

impl DesignatedComponent {
    /// A component that waits for the offset at `offset_position`.
    pub fn new(offset_position: usize, component: Component) -> (r: Self)
        ensures
            r.offset_position == offset_position,
            r.component == component,
    {
        DesignatedComponent { offset_position, component }
    }
}

/// The two fields that hold a union in a table, in the order of emission: the offset to
/// the table of the variant, and the discriminant that names the variant. Where there is no
/// value there is neither. The discriminant of a value is not 0, which stands for no value.
pub fn union_fields(
    tag_slot: usize,
    value_slot: usize,
    variant: Option<(u8, TableComponent)>,
) -> (fields: Vec<TableField>)
    requires
        variant is Some ==> variant->Some_0.0 != 0,
    ensures
        variant is None ==> fields@.len() == 0,
        variant is Some ==> {
            &&& fields@.len() == 2
            &&& fields@[0].slot == value_slot
            &&& fields@[0].alignment == SIZE_OF_UOFFSET
            &&& fields@[0].value == FieldValue::Reference(Component::Table(variant->Some_0.1))
            &&& fields@[1].slot == tag_slot
            &&& fields@[1].alignment == 1
            &&& fields@[1].value is Scalar
            &&& fields@[1].value->Scalar_0@ == seq![variant->Some_0.0]
        },
{
    let mut fields: Vec<TableField> = Vec::new();
    match variant {
        None => {},
        Some((tag, table)) => {
            fields.push(
                TableField {
                    slot: value_slot,
                    alignment: SIZE_OF_UOFFSET,
                    value: FieldValue::Reference(Component::Table(table)),
                },
            );
            let mut bytes: Vec<u8> = Vec::with_capacity(1);
            bytes.push(tag);
            fields.push(
                TableField { slot: tag_slot, alignment: 1, value: FieldValue::Scalar(bytes) },
            );
        },
    }
    fields
}

impl Component {
    /// Tells whether the component can be emitted.
    pub fn well_formed(&self) -> (r: bool)
        ensures
            r == self.spec_well_formed(),
        decreases self, 1nat,
    {
        match self {
            Component::ScalarsVector(v) => v.len > 0 && check_power_of_two(
                v.scalars.len() / v.len,
            ),
            Component::ReferencesVector(v) => all_well_formed(&v.references),
            Component::Table(t) => check_power_of_two(t.alignment) && fields_well_formed(
                &t.fields,
                t.alignment,
            ),
            Component::NestedBuffer(n) => n.root.well_formed(),
            _ => true,
        }
    }
}

fn all_well_formed(components: &Vec<Component>) -> (r: bool)
    ensures
        r == spec_all_well_formed(components@, components@.len()),
    decreases components, 0nat,
{
    let mut k: usize = 0;
    while k < components.len()
        invariant
            k <= components@.len(),
            spec_all_well_formed(components@, k as nat),
        decreases components@.len() - k,
    {
        if !components[k].well_formed() {
            proof {
                lemma_not_all_well_formed(components@, components@.len(), k as int);
            }
            return false;
        }
        k += 1;
    }
    true
}

fn fields_well_formed(fields: &Vec<TableField>, alignment: usize) -> (r: bool)
    ensures
        r == spec_fields_well_formed(fields@, alignment, fields@.len()),
    decreases fields, 0nat,
{
    let mut nbytes: usize = 0;
    let mut k: usize = 0;
    while k < fields.len()
        invariant
            k <= fields@.len(),
            spec_fields_well_formed(fields@, alignment, k as nat),
            nbytes == spec_fields_nbytes(fields@, k as nat),
            nbytes + 4 <= usize::MAX || k == 0,
        decreases fields@.len() - k,
    {
        let field = &fields[k];
        let ok = check_power_of_two(field.alignment) && field.alignment <= alignment && field.slot
            >= 4 && field.slot % 2 == 0 && (match &field.value {
            FieldValue::Scalar(_) => true,
            FieldValue::Reference(c) => c.well_formed(),
        });
        if !ok {
            proof {
                lemma_not_fields_well_formed(fields@, alignment, fields@.len(), k as int);
            }
            return false;
        }
        proof {
            crate::alignment::lemma_align_is_least_multiple(nbytes as int, field.alignment as int);
        }
        let room = usize::MAX - 4 - nbytes;
        let pad = crate::alignment::padding(nbytes, field.alignment);
        let size = field.value.size();
        if pad > room || size > room - pad {
            proof {
                lemma_not_fields_well_formed(fields@, alignment, fields@.len(), k as int);
            }
            return false;
        }
        nbytes = nbytes + pad + size;
        k += 1;
    }
    true
}

proof fn lemma_not_all_well_formed(s: Seq<Component>, n: nat, i: int)
    requires
        0 <= i < n <= s.len(),
        !s[i].spec_well_formed(),
    ensures
        !spec_all_well_formed(s, n),
    decreases n,
{
    if i < n - 1 {
        lemma_not_all_well_formed(s, (n - 1) as nat, i);
    }
}

proof fn lemma_not_fields_well_formed(s: Seq<TableField>, alignment: usize, n: nat, i: int)
    requires
        0 <= i < n <= s.len(),
        !spec_fields_well_formed(s, alignment, (i + 1) as nat),
    ensures
        !spec_fields_well_formed(s, alignment, n),
    decreases n,
{
    if i < n - 1 {
        lemma_not_fields_well_formed(s, alignment, (n - 1) as nat, i);
    }
}

} // verus!
