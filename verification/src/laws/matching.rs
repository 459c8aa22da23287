//! Laws of matching a live value with a declared one, whatever the order of
//! its arrays.

use vstd::prelude::*;

use crate::compare::{
    aligned, aligned_entries, canonical, canonical_entries, canonical_items, covered, matched,
    same_scalar, sorted,
};
use crate::json::JsonView;
use crate::keymap::lookup;
use crate::laws::comparison::{
    law_covered_by_itself, law_sorting_orders_the_items, lemma_canonical_lookup,
    lemma_lookup_in_order,
};
use crate::pairing::is_pairing;

verus! {

// --- Pairings -------------------------------------------------------------------

/// Whether the pairing leads from each item to a live item that matches it.
pub open spec fn pairs_matches(
    pairing: Seq<int>,
    wanted: Seq<JsonView>,
    found: Seq<JsonView>,
) -> bool {
    forall|i: int| 0 <= i < wanted.len() ==> matched(#[trigger] wanted[i], found[pairing[i]])
}

/// A pairing by which the items match.
pub proof fn lemma_pairing(wanted: Seq<JsonView>, found: Seq<JsonView>) -> (pairing: Seq<int>)
    requires
        matched(JsonView::Array(wanted), JsonView::Array(found)),
    ensures
        wanted.len() == found.len(),
        is_pairing(pairing, wanted.len()),
        pairs_matches(pairing, wanted, found),
{
    choose|pairing: Seq<int>| #[trigger]
        is_pairing(pairing, wanted.len()) && pairs_matches(pairing, wanted, found)
}

/// Items that match by a pairing match.
pub proof fn lemma_matched_by(pairing: Seq<int>, wanted: Seq<JsonView>, found: Seq<JsonView>)
    requires
        wanted.len() == found.len(),
        is_pairing(pairing, wanted.len()),
        pairs_matches(pairing, wanted, found),
    ensures
        matched(JsonView::Array(wanted), JsonView::Array(found)),
{
    assert forall|i: int| 0 <= i < wanted.len() implies matched(
        #[trigger] wanted[i],
        found[pairing[i]],
    ) by {}
}

/// Following one pairing after another is a pairing.
proof fn lemma_followed(first: Seq<int>, second: Seq<int>, n: nat)
    requires
        is_pairing(first, n),
        is_pairing(second, n),
    ensures
        is_pairing(Seq::new(n, |i: int| second[first[i]]), n),
{
    let both = Seq::new(n, |i: int| second[first[i]]);
    assert forall|i: int, j: int| 0 <= i < j < n implies #[trigger] both[i] != #[trigger] both[j] by {
        assert(first[i] != first[j]);
        if first[i] < first[j] {
            assert(second[first[i]] != second[first[j]]);
        } else {
            assert(second[first[j]] != second[first[i]]);
        }
    }
}

/// Whether the pairing leads from each item to one that is the same.
spec fn pairs_same(pairing: Seq<int>, items: Seq<JsonView>, others: Seq<JsonView>) -> bool {
    forall|i: int| 0 <= i < items.len() ==> #[trigger] items[i] == others[pairing[i]]
}

/// The same items, each as often, can be paired.
proof fn lemma_rearranged(items: Seq<JsonView>, others: Seq<JsonView>) -> (pairing: Seq<int>)
    requires
        items.to_multiset() == others.to_multiset(),
    ensures
        items.len() == others.len(),
        is_pairing(pairing, items.len()),
        pairs_same(pairing, items, others),
    decreases items.len(),
{
    broadcast use vstd::seq_lib::group_to_multiset_ensures;

    assert(items.len() == items.to_multiset().len() && others.len() == others.to_multiset().len());
    if items.len() == 0 {
        Seq::empty()
    } else {
        let last = items.last();
        assert(others.contains(last)) by {
            assert(items.contains(last));
            assert(others.to_multiset().contains(last));
        }
        let k = choose|k: int| 0 <= k < others.len() && others[k] == last;
        let rest = items.drop_last();
        let more = others.remove(k);
        assert(items =~= rest.push(last));
        assert(rest.to_multiset() =~= more.to_multiset());
        let shorter = lemma_rearranged(rest, more);
        let pairing = Seq::new(
            items.len(),
            |i: int|
                if i == items.len() - 1 {
                    k
                } else if shorter[i] < k {
                    shorter[i]
                } else {
                    shorter[i] + 1
                },
        );
        assert forall|i: int, j: int| 0 <= i < j < items.len() implies #[trigger] pairing[i]
            != #[trigger] pairing[j] by {
            if j < rest.len() {
                assert(shorter[i] != shorter[j]);
            }
        }
        assert forall|i: int| 0 <= i < items.len() implies #[trigger] items[i]
            == others[pairing[i]] by {
            if i < rest.len() {
                assert(rest[i] == more[shorter[i]]);
            }
        }
        pairing
    }
}

// --- Coverage and matching ----------------------------------------------------

/// What a key leads to is the value of an entry with that key.
proof fn lemma_lookup_member(entries: Seq<(Seq<char>, JsonView)>, key: Seq<char>) -> (index: int)
    requires
        lookup(entries, key) is Some,
    ensures
        0 <= index < entries.len(),
        entries[index] == (key, lookup(entries, key)->0),
    decreases entries.len(),
{
    if entries[0].0 == key {
        0
    } else {
        let index = lemma_lookup_member(entries.drop_first(), key);
        index + 1
    }
}

/// Coverage carries over: what is covered by a value is covered by whatever
/// covers that value.
pub proof fn law_covered_is_transitive(a: JsonView, b: JsonView, c: JsonView)
    requires
        covered(a, b),
        covered(b, c),
    ensures
        covered(a, c),
    decreases a,
{
    match (a, b, c) {
        (JsonView::Object(x), JsonView::Object(y), JsonView::Object(z)) => {
            assert forall|i: int| 0 <= i < x.len() implies {
                &&& lookup(z, (#[trigger] x[i]).0) is Some
                &&& covered(x[i].1, lookup(z, x[i].0)->0)
            } by {
                let m = lemma_lookup_member(y, x[i].0);
                assert(y[m].0 == x[i].0);
                law_covered_is_transitive(x[i].1, y[m].1, lookup(z, x[i].0)->0);
            }
        },
        (JsonView::Array(x), JsonView::Array(y), JsonView::Array(z)) => {
            assert forall|i: int| 0 <= i < x.len() implies covered(#[trigger] x[i], z[i]) by {
                assert(covered(y[i], z[i]));
                law_covered_is_transitive(x[i], y[i], z[i]);
            }
        },
        _ => {
            assert(same_scalar(a, b));
        },
    }
}

/// Matching carries over.
pub proof fn law_matched_is_transitive(a: JsonView, b: JsonView, c: JsonView)
    requires
        matched(a, b),
        matched(b, c),
    ensures
        matched(a, c),
    decreases a,
{
    match (a, b, c) {
        (JsonView::Object(x), JsonView::Object(y), JsonView::Object(z)) => {
            assert forall|i: int| 0 <= i < x.len() implies {
                &&& lookup(z, (#[trigger] x[i]).0) is Some
                &&& matched(x[i].1, lookup(z, x[i].0)->0)
            } by {
                let m = lemma_lookup_member(y, x[i].0);
                assert(y[m].0 == x[i].0);
                law_matched_is_transitive(x[i].1, y[m].1, lookup(z, x[i].0)->0);
            }
        },
        (JsonView::Array(x), JsonView::Array(y), JsonView::Array(z)) => {
            let first = lemma_pairing(x, y);
            let second = lemma_pairing(y, z);
            let both = Seq::new(x.len(), |i: int| second[first[i]]);
            lemma_followed(first, second, x.len());
            assert forall|i: int| 0 <= i < x.len() implies matched(#[trigger] x[i], z[both[i]]) by {
                assert(matched(y[first[i]], z[second[first[i]]]));
                law_matched_is_transitive(x[i], y[first[i]], z[both[i]]);
            }
            assert(is_pairing(both, x.len()));
        },
        _ => {
            assert(same_scalar(a, b));
        },
    }
}

/// What is covered item by item is matched.
pub proof fn law_covered_is_matched(desired: JsonView, live: JsonView)
    requires
        covered(desired, live),
    ensures
        matched(desired, live),
    decreases desired,
{
    match (desired, live) {
        (JsonView::Object(wanted), JsonView::Object(found)) => {
            assert forall|i: int| 0 <= i < wanted.len() implies {
                &&& lookup(found, (#[trigger] wanted[i]).0) is Some
                &&& matched(wanted[i].1, lookup(found, wanted[i].0)->0)
            } by {
                law_covered_is_matched(wanted[i].1, lookup(found, wanted[i].0)->0);
            }
        },
        (JsonView::Array(wanted), JsonView::Array(found)) => {
            let pairing = Seq::new(wanted.len(), |i: int| i);
            assert forall|i: int| 0 <= i < wanted.len() implies matched(
                #[trigger] wanted[i],
                found[pairing[i]],
            ) by {
                law_covered_is_matched(wanted[i], found[i]);
            }
            assert(is_pairing(pairing, wanted.len()));
        },
        _ => {},
    }
}

/// The order of arrays, at any depth, does not matter to a match: neither that
/// of the declared ones nor that of the live ones.
pub proof fn law_order_does_not_matter_to_a_match(desired: JsonView, live: JsonView)
    ensures
        matched(canonical(desired), canonical(live)) == matched(desired, live),
    decreases desired,
{
    match (desired, live) {
        (JsonView::Object(wanted), JsonView::Object(found)) => {
            let (a, b) = (canonical_entries(wanted), canonical_entries(found));
            assert forall|i: int| 0 <= i < wanted.len() implies ({
                &&& lookup(b, (#[trigger] a[i]).0) is Some
                &&& matched(a[i].1, lookup(b, a[i].0)->0)
            }) == ({
                &&& lookup(found, wanted[i].0) is Some
                &&& matched(wanted[i].1, lookup(found, wanted[i].0)->0)
            }) by {
                lemma_canonical_lookup(found, wanted[i].0);
                if lookup(found, wanted[i].0) is Some {
                    law_order_does_not_matter_to_a_match(
                        wanted[i].1,
                        lookup(found, wanted[i].0)->0,
                    );
                }
            }
            if matched(desired, live) {
                assert forall|i: int| 0 <= i < a.len() implies {
                    &&& lookup(b, (#[trigger] a[i]).0) is Some
                    &&& matched(a[i].1, lookup(b, a[i].0)->0)
                } by {
                    assert(lookup(found, wanted[i].0) is Some);
                }
            }
            if matched(canonical(desired), canonical(live)) {
                assert forall|i: int| 0 <= i < wanted.len() implies {
                    &&& lookup(found, (#[trigger] wanted[i]).0) is Some
                    &&& matched(wanted[i].1, lookup(found, wanted[i].0)->0)
                } by {
                    assert(lookup(b, a[i].0) is Some);
                }
            }
        },
        (JsonView::Array(wanted), JsonView::Array(found)) => {
            let (a, b) = (canonical_items(wanted), canonical_items(found));
            law_sorting_orders_the_items(a);
            law_sorting_orders_the_items(b);
            if matched(desired, live) {
                let middle = lemma_pairing(wanted, found);
                assert forall|i: int| 0 <= i < a.len() implies matched(
                    #[trigger] a[i],
                    b[middle[i]],
                ) by {
                    assert(matched(wanted[i], found[middle[i]]));
                    law_order_does_not_matter_to_a_match(wanted[i], found[middle[i]]);
                }
                lemma_carried(sorted(a), a, b, sorted(b), middle);
            }
            if matched(canonical(desired), canonical(live)) {
                let middle = lemma_pairing(sorted(a), sorted(b));
                let pairing = lemma_carried(a, sorted(a), sorted(b), b, middle);
                assert forall|i: int| 0 <= i < wanted.len() implies matched(
                    #[trigger] wanted[i],
                    found[pairing[i]],
                ) by {
                    assert(matched(a[i], b[pairing[i]]));
                    law_order_does_not_matter_to_a_match(wanted[i], found[pairing[i]]);
                }
                assert(is_pairing(pairing, wanted.len()));
            }
        },
        _ => {},
    }
}

/// A match of two lists is a match of the same lists in other orders.
proof fn lemma_carried(
    items: Seq<JsonView>,
    wanted: Seq<JsonView>,
    found: Seq<JsonView>,
    others: Seq<JsonView>,
    middle: Seq<int>,
) -> (pairing: Seq<int>)
    requires
        items.to_multiset() == wanted.to_multiset(),
        found.to_multiset() == others.to_multiset(),
        wanted.len() == found.len(),
        is_pairing(middle, wanted.len()),
        pairs_matches(middle, wanted, found),
    ensures
        is_pairing(pairing, items.len()),
        pairs_matches(pairing, items, others),
        matched(JsonView::Array(items), JsonView::Array(others)),
{
    let n = items.len();
    let first = lemma_rearranged(items, wanted);
    let third = lemma_rearranged(found, others);
    let begun = Seq::new(n, |i: int| middle[first[i]]);
    let pairing = Seq::new(n, |i: int| third[begun[i]]);
    lemma_followed(first, middle, n);
    lemma_followed(begun, third, n);
    assert forall|i: int| 0 <= i < n implies matched(#[trigger] items[i], others[pairing[i]]) by {
        assert(items[i] == wanted[first[i]]);
        assert(matched(wanted[first[i]], found[middle[first[i]]]));
        assert(found[begun[i]] == others[third[begun[i]]]);
    }
    lemma_matched_by(pairing, items, others);
    pairing
}

// --- What is compared ---------------------------------------------------------

/// Looking a key up in the entries that are compared.
proof fn lemma_aligned_lookup(
    wanted: Seq<(Seq<char>, JsonView)>,
    found: Seq<(Seq<char>, JsonView)>,
    key: Seq<char>,
)
    ensures
        lookup(aligned_entries(wanted, found), key) == (match (
            lookup(found, key),
            lookup(wanted, key),
        ) {
            (Some(live), Some(value)) => Some(aligned(value, live)),
            (Some(live), None) => Some(live),
            (None, _) => None,
        }),
    decreases found.len(),
{
    if found.len() > 0 {
        lemma_aligned_lookup(wanted, found.drop_first(), key);
        assert(aligned_entries(wanted, found).drop_first() =~= aligned_entries(
            wanted,
            found.drop_first(),
        ));
    }
}

/// As it is compared, a live value covers the declared one exactly where it
/// matches it.
pub proof fn law_covered_where_matched(desired: JsonView, live: JsonView)
    requires
        desired.wf(),
    ensures
        covered(desired, aligned(desired, live)) <==> matched(desired, live),
    decreases desired,
{
    match (desired, live) {
        (JsonView::Object(wanted), JsonView::Object(found)) => {
            let now = aligned_entries(wanted, found);
            assert forall|i: int| 0 <= i < wanted.len() implies ({
                &&& lookup(now, (#[trigger] wanted[i]).0) is Some
                &&& covered(wanted[i].1, lookup(now, wanted[i].0)->0)
            }) == ({
                &&& lookup(found, wanted[i].0) is Some
                &&& matched(wanted[i].1, lookup(found, wanted[i].0)->0)
            }) by {
                lemma_aligned_lookup(wanted, found, wanted[i].0);
                lemma_lookup_in_order(wanted, i);
                if lookup(found, wanted[i].0) is Some {
                    law_covered_where_matched(wanted[i].1, lookup(found, wanted[i].0)->0);
                }
            }
            assert(aligned(desired, live) == JsonView::Object(now));
        },
        (JsonView::Array(_), JsonView::Array(_)) => {
            if matched(desired, live) {
                law_covered_by_itself(desired);
            } else if covered(desired, live) {
                law_covered_is_matched(desired, live);
            }
        },
        _ => {},
    }
}

} // verus!
