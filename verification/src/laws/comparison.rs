//! Laws of comparing a declared value with a live one.

use vstd::prelude::*;

use crate::compare::{
    canonical, canonical_entries, canonical_items, covered, item_before, key_of, sorted, with_item,
};
use crate::json::{JsonView, NumberView};
use crate::keymap::{in_order, lookup};
use crate::order::{items_before, lemma_value_total, lemma_value_transitive, value_before};
use crate::rulesets::{below, differences, field_differences};
use crate::text::{lemma_before_total, lemma_before_transitive, text_before};

verus! {

// --- Coverage ---------------------------------------------------------------

/// In a map with its keys in order, each entry is found by its key.
pub proof fn lemma_lookup_in_order<V>(entries: Seq<(Seq<char>, V)>, index: int)
    requires
        in_order(entries),
        0 <= index < entries.len(),
    ensures
        lookup(entries, entries[index].0) == Some(entries[index].1),
    decreases entries.len(),
{
    if index > 0 {
        lemma_before_total(entries[0].0, entries[index].0);
        assert(text_before(entries[0].0, entries[index].0));
        let rest = entries.drop_first();
        assert forall|i: int, j: int| 0 <= i < j < rest.len() implies text_before(
            #[trigger] rest[i].0,
            #[trigger] rest[j].0,
        ) by {
            assert(rest[i] == entries[i + 1] && rest[j] == entries[j + 1]);
        }
        assert(rest[index - 1] == entries[index]);
        lemma_lookup_in_order(rest, index - 1);
    }
}

/// A value covers itself.
pub proof fn law_covered_by_itself(value: JsonView)
    requires
        value.wf(),
    ensures
        covered(value, value),
    decreases value,
{
    match value {
        JsonView::Object(entries) => {
            assert forall|i: int| 0 <= i < entries.len() implies {
                &&& lookup(entries, (#[trigger] entries[i]).0) is Some
                &&& covered(entries[i].1, lookup(entries, entries[i].0)->0)
            } by {
                lemma_lookup_in_order(entries, i);
                law_covered_by_itself(entries[i].1);
            }
        },
        JsonView::Array(items) => {
            assert forall|i: int| 0 <= i < items.len() implies covered(
                #[trigger] items[i],
                items[i],
            ) by {
                law_covered_by_itself(items[i]);
            }
        },
        _ => {},
    }
}

/// Live fields that were not declared do not matter: two live objects that
/// agree on the declared keys are covered alike.
pub proof fn law_extra_live_fields_do_not_matter(
    wanted: Seq<(Seq<char>, JsonView)>,
    found: Seq<(Seq<char>, JsonView)>,
    more: Seq<(Seq<char>, JsonView)>,
)
    requires
        forall|i: int|
            0 <= i < wanted.len() ==> lookup(more, (#[trigger] wanted[i]).0) == lookup(
                found,
                wanted[i].0,
            ),
    ensures
        covered(JsonView::Object(wanted), JsonView::Object(found)) == covered(
            JsonView::Object(wanted),
            JsonView::Object(more),
        ),
{
    assert(covered(JsonView::Object(wanted), JsonView::Object(found)) == forall|i: int|
        0 <= i < wanted.len() ==> {
            &&& lookup(found, (#[trigger] wanted[i]).0) is Some
            &&& covered(wanted[i].1, lookup(found, wanted[i].0)->0)
        });
    assert(covered(JsonView::Object(wanted), JsonView::Object(more)) == forall|i: int|
        0 <= i < wanted.len() ==> {
            &&& lookup(more, (#[trigger] wanted[i]).0) is Some
            &&& covered(wanted[i].1, lookup(more, wanted[i].0)->0)
        });
}

/// A difference is shown exactly where the live value does not cover the
/// declared one.
pub proof fn law_differences_where_not_covered(
    scope: Seq<char>,
    path: Seq<char>,
    desired: JsonView,
    live: JsonView,
)
    ensures
        differences(scope, path, desired, live).len() == 0 <==> covered(desired, live),
    decreases desired, 0nat,
{
    match (desired, live) {
        (JsonView::Object(wanted), JsonView::Object(found)) => {
            lemma_field_differences(scope, path, wanted, found, wanted.len());
        },
        _ => {},
    }
}

proof fn lemma_field_differences(
    scope: Seq<char>,
    path: Seq<char>,
    wanted: Seq<(Seq<char>, JsonView)>,
    found: Seq<(Seq<char>, JsonView)>,
    n: nat,
)
    requires
        n <= wanted.len(),
    ensures
        field_differences(scope, path, wanted, found, n).len() == 0 <==> forall|i: int|
            0 <= i < n ==> {
                &&& lookup(found, (#[trigger] wanted[i]).0) is Some
                &&& covered(wanted[i].1, lookup(found, wanted[i].0)->0)
            },
    decreases wanted, n,
{
    if n > 0 {
        let (key, value) = wanted[n - 1];
        lemma_field_differences(scope, path, wanted, found, (n - 1) as nat);
        if let Some(live) = lookup(found, key) {
            assert(decreases_to!(wanted => wanted[n - 1].1));
            law_differences_where_not_covered(scope, below(path, key), value, live);
        }
        let before = field_differences(scope, path, wanted, found, (n - 1) as nat);
        assert(wanted[n - 1] == (key, value));
    }
}

// --- Order --------------------------------------------------------------------

/// Whether no item stands behind one that comes after it.
pub open spec fn ordered(items: Seq<JsonView>) -> bool {
    forall|i: int, j: int|
        0 <= i < j < items.len() ==> !item_before(#[trigger] items[j], #[trigger] items[i])
}

/// No item comes before itself, and of two different items one comes before
/// the other, not both.
pub proof fn lemma_item_total(a: JsonView, b: JsonView)
    ensures
        a == b ==> !item_before(a, b),
        a != b ==> (item_before(a, b) <==> !item_before(b, a)),
{
    lemma_before_total(key_of(a), key_of(b));
    lemma_value_total(a, b);
}

proof fn lemma_item_transitive(a: JsonView, b: JsonView, c: JsonView)
    requires
        item_before(a, b),
        item_before(b, c),
    ensures
        item_before(a, c),
{
    let (x, y, z) = (key_of(a), key_of(b), key_of(c));
    if x != y && y != z {
        lemma_before_transitive(x, y, z);
    } else if x == y && y == z {
        lemma_before_total(x, x);
        lemma_value_transitive(a, b, c);
    }
}

/// Of three items, the order carries over also where two are the same.
proof fn lemma_not_before_transitive(a: JsonView, b: JsonView, c: JsonView)
    requires
        !item_before(b, a),
        !item_before(c, b),
    ensures
        !item_before(c, a),
{
    lemma_item_total(a, b);
    lemma_item_total(b, c);
    if item_before(c, a) {
        if a != b {
            lemma_item_transitive(c, a, b);
        }
    }
}

proof fn lemma_with_item(items: Seq<JsonView>, item: JsonView)
    requires
        ordered(items),
    ensures
        ordered(with_item(items, item)),
        with_item(items, item).to_multiset() == items.to_multiset().insert(item),
        with_item(items, item).len() == items.len() + 1,
    decreases items.len(),
{
    broadcast use vstd::seq_lib::group_to_multiset_ensures;

    let put = with_item(items, item);
    if items.len() > 0 && item_before(item, items.last()) {
        let rest = items.drop_last();
        let last = items.last();
        lemma_with_item(rest, item);
        let before = with_item(rest, item);
        assert(items =~= rest.push(last));
        assert(put.to_multiset() =~= items.to_multiset().insert(item));
        assert forall|j: int| 0 <= j < before.len() implies !item_before(
            last,
            #[trigger] before[j],
        ) by {
            assert(before.to_multiset().contains(before[j])) by {
                assert(before.contains(before[j]));
            }
            if before[j] == item {
                lemma_item_total(item, last);
            } else {
                assert(rest.to_multiset().contains(before[j]));
                assert(rest.contains(before[j]));
                let k = choose|k: int| 0 <= k < rest.len() && rest[k] == before[j];
                assert(items[k] == rest[k]);
                assert(items[items.len() - 1] == last);
            }
        }
        assert forall|i: int, j: int| 0 <= i < j < put.len() implies !item_before(
            #[trigger] put[j],
            #[trigger] put[i],
        ) by {
            assert(put[i] == before[i]);
            if j < before.len() {
                assert(put[j] == before[j]);
            }
        }
    } else {
        assert forall|i: int, j: int| 0 <= i < j < put.len() implies !item_before(
            #[trigger] put[j],
            #[trigger] put[i],
        ) by {
            assert(put[i] == items[i]);
            if j < items.len() {
                assert(put[j] == items[j]);
            } else {
                let last = items[items.len() - 1];
                lemma_item_total(items[i], last);
                lemma_not_before_transitive(items[i], last, item);
            }
        }
    }
}

/// Sorting puts the items of an array in order and neither adds nor drops one.
pub proof fn law_sorting_orders_the_items(items: Seq<JsonView>)
    ensures
        ordered(sorted(items)),
        sorted(items).to_multiset() == items.to_multiset(),
    decreases items.len(),
{
    broadcast use vstd::seq_lib::group_to_multiset_ensures;

    if items.len() > 0 {
        let rest = items.drop_last();
        law_sorting_orders_the_items(rest);
        lemma_with_item(sorted(rest), items.last());
        assert(items =~= rest.push(items.last()));
    }
}

/// In a sorted array the keys never decrease, and items with one key stand in
/// the order of values.
pub proof fn law_sorted_items_follow_their_keys(items: Seq<JsonView>, i: int, j: int)
    requires
        0 <= i < j < sorted(items).len(),
    ensures
        ({
            let (a, b) = (sorted(items)[i], sorted(items)[j]);
            a == b || text_before(key_of(a), key_of(b)) || key_of(a) == key_of(b) && value_before(
                a,
                b,
            )
        }),
{
    law_sorting_orders_the_items(items);
    let (a, b) = (sorted(items)[i], sorted(items)[j]);
    lemma_item_total(a, b);
}

/// Values are ordered by their kind, and those of one kind by what they hold:
/// `false` before `true`, numbers by size, texts by their characters.
pub proof fn law_values_are_ordered(
    m: int,
    n: int,
    a: Seq<char>,
    b: Seq<char>,
    items: Seq<JsonView>,
    entries: Seq<(Seq<char>, JsonView)>,
)
    ensures
        value_before(JsonView::Null, JsonView::Bool(false)),
        value_before(JsonView::Bool(false), JsonView::Bool(true)),
        value_before(JsonView::Bool(true), JsonView::Number(NumberView::Int(m))),
        value_before(
            JsonView::Number(NumberView::Int(m)),
            JsonView::Number(NumberView::Int(n)),
        ) <==> m < n,
        value_before(
            JsonView::Number(NumberView::Int(m)),
            JsonView::Number(NumberView::Float(a)),
        ),
        value_before(
            JsonView::Number(NumberView::Float(a)),
            JsonView::Number(NumberView::Float(b)),
        ) <==> text_before(a, b),
        value_before(JsonView::Number(NumberView::Float(a)), JsonView::String(b)),
        value_before(JsonView::String(a), JsonView::String(b)) <==> text_before(a, b),
        value_before(JsonView::String(a), JsonView::Array(items)),
        value_before(JsonView::Array(items), JsonView::Object(entries)),
{
}

/// Whether two arrays agree on their first items and the first then ends, or
/// has the earlier item.
pub open spec fn items_split_at(a: Seq<JsonView>, b: Seq<JsonView>, place: int) -> bool {
    &&& 0 <= place < b.len()
    &&& place <= a.len()
    &&& forall|i: int| 0 <= i < place ==> #[trigger] a[i] == b[i]
    &&& place == a.len() || value_before(a[place], b[place])
}

/// An array comes before another where the two agree up to some place, and
/// there the first ends or has the earlier item.
pub proof fn law_arrays_are_ordered_by_the_first_difference(a: Seq<JsonView>, b: Seq<JsonView>)
    ensures
        value_before(JsonView::Array(a), JsonView::Array(b)) <==> exists|place: int|
            items_split_at(a, b, place),
{
    lemma_items_split(a, b, 0);
}

proof fn lemma_items_split(a: Seq<JsonView>, b: Seq<JsonView>, n: nat)
    requires
        n <= a.len(),
        n <= b.len(),
        forall|i: int| 0 <= i < n ==> #[trigger] a[i] == b[i],
    ensures
        items_before(a, b, n) <==> exists|place: int| items_split_at(a, b, place),
    decreases a.len() - n,
{
    if n < b.len() {
        if n == a.len() {
            assert(items_split_at(a, b, n as int));
        } else if a[n as int] == b[n as int] {
            lemma_items_split(a, b, n + 1);
        } else {
            if value_before(a[n as int], b[n as int]) {
                assert(items_split_at(a, b, n as int));
            }
            assert forall|place: int| items_split_at(a, b, place) implies place == n by {
                if place > n {
                    assert(a[n as int] == b[n as int]);
                } else if place < n {
                    assert(a[place] == b[place]);
                    lemma_value_total(a[place], b[place]);
                }
            }
        }
    } else {
        assert forall|place: int| items_split_at(a, b, place) implies false by {
            assert(a[place] == b[place]);
            lemma_value_total(a[place], b[place]);
        }
    }
}

/// Two ordered sequences of the same items are the same.
proof fn lemma_ordered_once(a: Seq<JsonView>, b: Seq<JsonView>)
    requires
        ordered(a),
        ordered(b),
        a.to_multiset() == b.to_multiset(),
    ensures
        a == b,
    decreases a.len(),
{
    broadcast use vstd::seq_lib::group_to_multiset_ensures;

    assert(a.len() == a.to_multiset().len() && b.len() == b.to_multiset().len());
    if a.len() > 0 {
        assert(b.contains(a[0])) by {
            assert(a.contains(a[0]));
            assert(b.to_multiset().contains(a[0]));
        }
        assert(a.contains(b[0])) by {
            assert(b.contains(b[0]));
            assert(a.to_multiset().contains(b[0]));
        }
        let i = choose|i: int| 0 <= i < b.len() && b[i] == a[0];
        let j = choose|j: int| 0 <= j < a.len() && a[j] == b[0];
        lemma_item_total(a[0], b[0]);
        assert(!item_before(a[0], b[0])) by {
            if i > 0 {
                assert(!item_before(b[i], b[0]));
            }
        }
        assert(!item_before(b[0], a[0])) by {
            if j > 0 {
                assert(!item_before(a[j], a[0]));
            }
        }
        let c = a.drop_first();
        let d = b.drop_first();
        assert(a =~= seq![a[0]] + c);
        assert(b =~= seq![b[0]] + d);
        assert(c.to_multiset() =~= a.to_multiset().remove(a[0])) by {
            assert(a.remove(0) =~= c);
        }
        assert(d.to_multiset() =~= b.to_multiset().remove(b[0])) by {
            assert(b.remove(0) =~= d);
        }
        assert forall|x: int, y: int| 0 <= x < y < c.len() implies !item_before(
            #[trigger] c[y],
            #[trigger] c[x],
        ) by {
            assert(c[x] == a[x + 1] && c[y] == a[y + 1]);
        }
        assert forall|x: int, y: int| 0 <= x < y < d.len() implies !item_before(
            #[trigger] d[y],
            #[trigger] d[x],
        ) by {
            assert(d[x] == b[x + 1] && d[y] == b[y + 1]);
        }
        lemma_ordered_once(c, d);
    } else {
        assert(a =~= b);
    }
}

/// The same items, each as often, are the same items after each was put in
/// order.
proof fn lemma_canonical_multiset(items: Seq<JsonView>, others: Seq<JsonView>)
    requires
        items.to_multiset() == others.to_multiset(),
    ensures
        canonical_items(items).to_multiset() == canonical_items(others).to_multiset(),
    decreases items.len(),
{
    broadcast use vstd::seq_lib::group_to_multiset_ensures;

    assert(items.len() == items.to_multiset().len() && others.len() == others.to_multiset().len());
    if items.len() > 0 {
        let last = items.last();
        assert(others.contains(last)) by {
            assert(items.contains(last));
            assert(others.to_multiset().contains(last));
        }
        let k = choose|k: int| 0 <= k < others.len() && others[k] == last;
        let rest = items.drop_last();
        let more = others.remove(k);
        assert(items =~= rest.push(last));
        assert(rest.to_multiset() =~= more.to_multiset());
        lemma_canonical_multiset(rest, more);
        assert(canonical_items(items) =~= canonical_items(rest).push(canonical(last)));
        assert(canonical_items(more) =~= canonical_items(others).remove(k));
        assert(canonical_items(others)[k] == canonical(last));
        assert(canonical_items(others).to_multiset().contains(canonical(last))) by {
            assert(canonical_items(others).contains(canonical(last)));
        }
        assert(canonical_items(items).to_multiset() =~= canonical_items(others).to_multiset());
    } else {
        assert(items =~= others);
    }
}

/// The order of an array does not matter: two arrays with the same items, each
/// as often, come out the same.
pub proof fn law_array_order_does_not_matter(items: Seq<JsonView>, others: Seq<JsonView>)
    requires
        items.to_multiset() == others.to_multiset(),
    ensures
        canonical(JsonView::Array(items)) == canonical(JsonView::Array(others)),
{
    lemma_canonical_multiset(items, others);
    law_nested_order_does_not_matter(items, others);
}

/// The order of an array does not matter at any depth: two arrays whose items
/// are the same, each as often, once their own arrays are in order, come out
/// the same.
pub proof fn law_nested_order_does_not_matter(items: Seq<JsonView>, others: Seq<JsonView>)
    requires
        canonical_items(items).to_multiset() == canonical_items(others).to_multiset(),
    ensures
        canonical(JsonView::Array(items)) == canonical(JsonView::Array(others)),
{
    law_sorting_orders_the_items(canonical_items(items));
    law_sorting_orders_the_items(canonical_items(others));
    lemma_ordered_once(sorted(canonical_items(items)), sorted(canonical_items(others)));
}

/// Each item of a sorted array is one of the items that were sorted.
pub proof fn lemma_sorted_member(items: Seq<JsonView>, index: int)
    requires
        0 <= index < sorted(items).len(),
    ensures
        exists|k: int| 0 <= k < items.len() && #[trigger] items[k] == sorted(items)[index],
{
    broadcast use vstd::seq_lib::group_to_multiset_ensures;

    law_sorting_orders_the_items(items);
    let item = sorted(items)[index];
    assert(sorted(items).contains(item));
    assert(items.to_multiset().contains(item));
    assert(items.contains(item));
}

/// An array that is in order stays as it is.
proof fn lemma_sorted_ordered(items: Seq<JsonView>)
    requires
        ordered(items),
    ensures
        sorted(items) == items,
    decreases items.len(),
{
    if items.len() > 0 {
        let rest = items.drop_last();
        assert forall|i: int, j: int| 0 <= i < j < rest.len() implies !item_before(
            #[trigger] rest[j],
            #[trigger] rest[i],
        ) by {
            assert(rest[i] == items[i] && rest[j] == items[j]);
        }
        lemma_sorted_ordered(rest);
        if rest.len() > 0 {
            assert(rest.last() == items[items.len() - 2]);
            assert(items.last() == items[items.len() - 1]);
        }
        assert(items =~= rest.push(items.last()));
    }
}

/// Putting a value in order once is enough.
pub proof fn law_ordering_is_idempotent(value: JsonView)
    ensures
        canonical(canonical(value)) == canonical(value),
    decreases value,
{
    match value {
        JsonView::Array(items) => {
            let once = canonical_items(items);
            let result = sorted(once);
            law_sorting_orders_the_items(once);
            assert forall|i: int| 0 <= i < result.len() implies canonical(#[trigger] result[i])
                == result[i] by {
                lemma_sorted_member(once, i);
                let k = choose|k: int| 0 <= k < once.len() && #[trigger] once[k] == result[i];
                assert(once[k] == canonical(items[k]));
                law_ordering_is_idempotent(items[k]);
            }
            assert(canonical_items(result) =~= result);
            lemma_sorted_ordered(result);
        },
        JsonView::Object(entries) => {
            let once = canonical_entries(entries);
            assert forall|i: int| 0 <= i < once.len() implies canonical((#[trigger] once[i]).1)
                == once[i].1 by {
                law_ordering_is_idempotent(entries[i].1);
            }
            assert(canonical_entries(once) =~= once);
        },
        _ => {},
    }
}

/// Putting a value in order keeps it well-formed.
pub proof fn lemma_canonical_wf(value: JsonView)
    requires
        value.wf(),
    ensures
        canonical(value).wf(),
    decreases value,
{
    match value {
        JsonView::Array(items) => {
            let once = canonical_items(items);
            let result = sorted(once);
            assert forall|i: int| 0 <= i < result.len() implies (#[trigger] result[i]).wf() by {
                lemma_sorted_member(once, i);
                let k = choose|k: int| 0 <= k < once.len() && #[trigger] once[k] == result[i];
                assert(once[k] == canonical(items[k]));
                lemma_canonical_wf(items[k]);
            }
        },
        JsonView::Object(entries) => {
            let once = canonical_entries(entries);
            assert forall|i: int| 0 <= i < once.len() implies (#[trigger] once[i]).1.wf() by {
                assert(entries[i].1.wf());
                lemma_canonical_wf(entries[i].1);
            }
            assert forall|i: int, j: int| 0 <= i < j < once.len() implies text_before(
                #[trigger] once[i].0,
                #[trigger] once[j].0,
            ) by {
                assert(once[i].0 == entries[i].0 && once[j].0 == entries[j].0);
            }
        },
        _ => {},
    }
}

/// Looking a key up and putting the value in order can change places.
pub proof fn lemma_canonical_lookup(entries: Seq<(Seq<char>, JsonView)>, key: Seq<char>)
    ensures
        lookup(canonical_entries(entries), key) == (match lookup(entries, key) {
            Some(value) => Some(canonical(value)),
            None => None,
        }),
    decreases entries.len(),
{
    if entries.len() > 0 {
        lemma_canonical_lookup(entries.drop_first(), key);
        assert(canonical_entries(entries).drop_first() =~= canonical_entries(
            entries.drop_first(),
        ));
    }
}

} // verus!
