use crate::builder::component::{FieldValue, TableComponent, TableField};
use crate::builder::emit::reversed;
use crate::schema::load::{emission_keys, spec_emission_keys};
use crate::schema::model::{FieldView, Object};
use crate::schema::sort::{lemma_sorted_order_is_sorted, spec_sorted_order, stable_sort_by_key};
use vstd::prelude::*;

verus! {

/// The fields that are present among the first `k` places of `order`: the field at each
/// place with its slot, its alignment and its value, where it has a value.
pub open spec fn spec_present_fields(
    fields: Seq<FieldView>,
    values: Seq<Option<FieldValue>>,
    order: Seq<int>,
    k: nat,
) -> Seq<TableField>
    decreases k,
{
    if k == 0 || k > order.len() {
        Seq::empty()
    } else {
        let before = spec_present_fields(fields, values, order, (k - 1) as nat);
        let j = order[k - 1];
        match values[j] {
            Some(value) => before.push(
                TableField {
                    slot: fields[j].offset as usize,
                    alignment: fields[j].alignment,
                    value,
                },
            ),
            None => before,
        }
    }
}

/// The fields of a table of an object in the order of emission: those that have a value,
/// the larger alignment first, of two equal alignments the larger size first, and of two
/// equal sizes the one that is declared first.
pub open spec fn spec_emission_fields(
    fields: Seq<FieldView>,
    values: Seq<Option<FieldValue>>,
) -> Seq<TableField> {
    let order = spec_sorted_order(spec_emission_keys(fields), 0);
    spec_present_fields(fields, values, order, order.len())
}

impl TableComponent {
    /// The table of an object with the given values, `values[j]` being the value of the
    /// `j`-th field of the object, or nothing where the field is absent.
    pub fn for_object(object: &Object, values: Vec<Option<FieldValue>>) -> (table: TableComponent)
        requires
            values@.len() == object.fields@.len(),
        ensures
            table.alignment == object.alignment,
            table.fields@ == spec_emission_fields(object.fields.deep_view(), values@),
    {
        let ghost fields = object.fields.deep_view();
        let ghost all = values@;
        let n = values.len();
        let keys = emission_keys(&object.fields);
        let ghost order = spec_sorted_order(keys@, 0);
        proof {
            lemma_sorted_order_is_sorted(keys@, 0);
        }
        let mut turned = reversed(values);
        let mut numbered: Vec<(usize, Option<FieldValue>)> = Vec::with_capacity(n);
        let mut j: usize = 0;
        while j < n
            invariant
                j <= n,
                n == all.len(),
                turned@.len() == n - j,
                forall|i: int| 0 <= i < n - j ==> #[trigger] turned@[i] == all[n - 1 - i],
                numbered@.len() == j,
                forall|i: int| 0 <= i < j ==> #[trigger] numbered@[i] == (i as usize, all[i]),
            decreases n - j,
        {
            let value = turned.pop().unwrap();
            numbered.push((j, value));
            j += 1;
        }
        let ghost unsorted = numbered@;
        let sorted = stable_sort_by_key(numbered, &keys);
        let mut turned = reversed(sorted);
        let mut present: Vec<TableField> = Vec::with_capacity(n);
        let mut k: usize = 0;
        while k < n
            invariant
                k <= n,
                n == all.len(),
                n == order.len(),
                n == object.fields@.len(),
                fields == object.fields.deep_view(),
                order == spec_sorted_order(keys@, 0),
                keys@ == spec_emission_keys(fields),
                crate::schema::sort::spec_is_sorted_order(keys@, 0, order),
                turned@.len() == n - k,
                forall|i: int|
                    0 <= i < n - k ==> #[trigger] turned@[i] == (
                        order[n - 1 - i] as usize,
                        all[order[n - 1 - i]],
                    ),
                present@ == spec_present_fields(fields, all, order, k as nat),
            decreases n - k,
        {
            let (index, value) = turned.pop().unwrap();
            assert(index == order[k as int]);
            assert(fields[index as int] == object.fields@[index as int].deep_view());
            match value {
                Some(value) => {
                    let field = &object.fields[index];
                    present.push(
                        TableField {
                            slot: field.offset as usize,
                            alignment: field.alignment,
                            value,
                        },
                    );
                },
                None => {},
            }
            k += 1;
        }
        TableComponent { alignment: object.alignment, fields: present }
    }
}

} // verus!
