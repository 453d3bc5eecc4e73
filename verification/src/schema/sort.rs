use vstd::prelude::*;

verus! {

/// The key by which items are ordered: first by the first number, then by the second.
pub type SortKey = (u64, u64);

/// `a` stands strictly before `b`.
pub open spec fn spec_key_lt(a: SortKey, b: SortKey) -> bool {
    a.0 < b.0 || (a.0 == b.0 && a.1 < b.1)
}

/// The number of leading keys of `keys` that stand strictly before `key`.
pub open spec fn spec_insert_position(keys: Seq<SortKey>, key: SortKey) -> int
    decreases keys.len(),
{
    if keys.len() == 0 || !spec_key_lt(keys[0], key) {
        0
    } else {
        1 + spec_insert_position(keys.drop_first(), key)
    }
}

/// The keys that stand at the given places.
pub open spec fn spec_keys_at(keys: Seq<SortKey>, order: Seq<int>) -> Seq<SortKey> {
    Seq::new(order.len(), |k: int| keys[order[k]])
}

/// The places `from..keys.len()` in ascending order of their keys, places with equal keys in
/// ascending order of the places themselves.
pub open spec fn spec_sorted_order(keys: Seq<SortKey>, from: int) -> Seq<int>
    decreases keys.len() - from,
{
    if from < 0 || from >= keys.len() {
        Seq::empty()
    } else {
        let rest = spec_sorted_order(keys, from + 1);
        rest.insert(spec_insert_position(spec_keys_at(keys, rest), keys[from]), from)
    }
}

/// The items in ascending order of their keys; items with equal keys keep the order in which
/// they came.
pub open spec fn spec_stable_sort<T>(items: Seq<T>, keys: Seq<SortKey>) -> Seq<T> {
    let order = spec_sorted_order(keys, 0);
    Seq::new(order.len(), |k: int| items[order[k]])
}

/// `order` lists each of the places `from..n` once, and the pairs of key and place along it
/// ascend strictly.
pub open spec fn spec_is_sorted_order(keys: Seq<SortKey>, from: int, order: Seq<int>) -> bool {
    &&& order.len() == keys.len() - from
    &&& forall|k: int| 0 <= k < order.len() ==> from <= #[trigger] order[k] < keys.len()
    &&& forall|a: int, b: int|
        0 <= a < b < order.len() ==> {
            ||| spec_key_lt(keys[#[trigger] order[a]], keys[#[trigger] order[b]])
            ||| (keys[order[a]] == keys[order[b]] && order[a] < order[b])
        }
}

proof fn lemma_insert_position(keys: Seq<SortKey>, key: SortKey)
    ensures
        0 <= spec_insert_position(keys, key) <= keys.len(),
        forall|k: int|
            0 <= k < spec_insert_position(keys, key) ==> spec_key_lt(#[trigger] keys[k], key),
        spec_insert_position(keys, key) < keys.len() ==> !spec_key_lt(
            keys[spec_insert_position(keys, key)],
            key,
        ),
    decreases keys.len(),
{
    if keys.len() == 0 || !spec_key_lt(keys[0], key) {
    } else {
        let rest = keys.drop_first();
        lemma_insert_position(rest, key);
        let p = spec_insert_position(rest, key);
        assert forall|k: int| 0 <= k < p + 1 implies spec_key_lt(#[trigger] keys[k], key) by {
            if k > 0 {
                assert(keys[k] == rest[k - 1]);
            }
        }
        if p + 1 < keys.len() {
            assert(keys[p + 1] == rest[p]);
        }
    }
}

/// The order that `spec_sorted_order` names is sorted and stable: it holds each place once,
/// its keys never descend, and of two places with equal keys the earlier one comes first.
pub proof fn lemma_sorted_order_is_sorted(keys: Seq<SortKey>, from: int)
    requires
        0 <= from <= keys.len(),
    ensures
        spec_is_sorted_order(keys, from, spec_sorted_order(keys, from)),
    decreases keys.len() - from,
{
    if from < keys.len() {
        lemma_sorted_order_is_sorted(keys, from + 1);
        let rest = spec_sorted_order(keys, from + 1);
        let rest_keys = spec_keys_at(keys, rest);
        let key = keys[from];
        lemma_insert_position(rest_keys, key);
        let p = spec_insert_position(rest_keys, key);
        let order = rest.insert(p, from);
        assert forall|a: int, b: int| 0 <= a < b < order.len() implies {
            ||| spec_key_lt(keys[#[trigger] order[a]], keys[#[trigger] order[b]])
            ||| (keys[order[a]] == keys[order[b]] && order[a] < order[b])
        } by {
            if b < p {
                assert(order[a] == rest[a] && order[b] == rest[b]);
            } else if a < p && b == p {
                assert(order[a] == rest[a]);
                assert(rest_keys[a] == keys[rest[a]]);
            } else if a < p && b > p {
                assert(order[a] == rest[a] && order[b] == rest[b - 1]);
            } else if a == p {
                assert(order[b] == rest[b - 1]);
                assert(rest_keys[p] == keys[rest[p]]);
                if b - 1 > p {
                    assert(spec_key_lt(keys[rest[p]], keys[rest[b - 1]]) || keys[rest[p]]
                        == keys[rest[b - 1]]);
                }
            } else {
                assert(order[a] == rest[a - 1] && order[b] == rest[b - 1]);
            }
        }
    }
}

/// Compares two keys.
pub fn key_lt(a: SortKey, b: SortKey) -> (r: bool)
    ensures
        r == spec_key_lt(a, b),
{
    a.0 < b.0 || (a.0 == b.0 && a.1 < b.1)
}

/// Finds where an item with the given key goes into a run of keys.
fn insert_position(keys: &Vec<SortKey>, key: SortKey) -> (position: usize)
    ensures
        position == spec_insert_position(keys@, key),
{
    let mut j: usize = 0;
    assert(keys@.subrange(0, keys@.len() as int) =~= keys@);
    while j < keys.len() && key_lt(keys[j], key)
        invariant
            j <= keys@.len(),
            spec_insert_position(keys@, key) == j + spec_insert_position(
                keys@.subrange(j as int, keys@.len() as int),
                key,
            ),
        decreases keys@.len() - j,
    {
        proof {
            let tail = keys@.subrange(j as int, keys@.len() as int);
            assert(tail[0] == keys@[j as int]);
            assert(tail.drop_first() =~= keys@.subrange(j + 1, keys@.len() as int));
        }
        j += 1;
    }
    proof {
        let tail = keys@.subrange(j as int, keys@.len() as int);
        if j < keys@.len() {
            assert(tail[0] == keys@[j as int]);
        }
    }
    j
}

/// Orders `items` by `keys`, the key of an item being the one at the item's place. Items
/// with equal keys keep their order.
pub fn stable_sort_by_key<T>(items: Vec<T>, keys: &Vec<SortKey>) -> (sorted: Vec<T>)
    requires
        items@.len() == keys@.len(),
    ensures
        sorted@ == spec_stable_sort(items@, keys@),
{
    let ghost all = items@;
    let mut items = items;
    let mut sorted: Vec<T> = Vec::with_capacity(items.len());
    let mut sorted_keys: Vec<SortKey> = Vec::with_capacity(items.len());
    let ghost mut order: Seq<int> = Seq::empty();
    let mut i: usize = items.len();
    while i > 0
        invariant
            i <= keys@.len(),
            all.len() == keys@.len(),
            items@ == all.subrange(0, i as int),
            order == spec_sorted_order(keys@, i as int),
            spec_is_sorted_order(keys@, i as int, order),
            sorted@.len() == order.len(),
            sorted_keys@ == spec_keys_at(keys@, order),
            forall|k: int| 0 <= k < order.len() ==> #[trigger] sorted@[k] == all[order[k]],
        decreases i,
    {
        i -= 1;
        let key = keys[i];
        let position = insert_position(&sorted_keys, key);
        proof {
            lemma_insert_position(sorted_keys@, key);
            lemma_sorted_order_is_sorted(keys@, i as int);
        }
        let item = items.pop().unwrap();
        sorted.insert(position, item);
        sorted_keys.insert(position, key);
        proof {
            let next = order.insert(position as int, i as int);
            assert(sorted_keys@ =~= spec_keys_at(keys@, next));
            order = next;
        }
    }
    proof {
        lemma_sorted_order_is_sorted(keys@, 0);
        assert(sorted@ =~= spec_stable_sort(all, keys@));
    }
    sorted
}

/// Ordering items and then looking at what they hold gives the same as ordering what they
/// hold.
pub proof fn lemma_stable_sort_deep_view<T: DeepView>(
    items: Vec<T>,
    sorted: Vec<T>,
    keys: Seq<SortKey>,
)
    requires
        items@.len() == keys.len(),
        sorted@ == spec_stable_sort(items@, keys),
    ensures
        sorted.deep_view() == spec_stable_sort(items.deep_view(), keys),
{
    lemma_sorted_order_is_sorted(keys, 0);
    assert(sorted.deep_view() =~= spec_stable_sort(items.deep_view(), keys));
}

} // verus!
