//! Laws of when a live value has what was declared: scalars must be equal,
//! objects must have every declared field, arrays every declared item.

use vstd::prelude::*;

use crate::compare::{aligned, canonical, canonical_items, covered, matched};
use crate::json::{string_array, JsonView, NumberView};
use crate::keymap::{in_order, lookup};
use crate::laws::comparison::{law_sorting_orders_the_items, lemma_lookup_in_order};
use crate::laws::matching::{lemma_matched_by, lemma_pairing, pairs_matches};
use crate::pairing::is_pairing;

verus! {

/// Whether a value holds no other values.
pub open spec fn is_scalar(value: JsonView) -> bool {
    !(value is Array || value is Object)
}

/// Whether a number is a floating-point zero of either sign.
pub open spec fn is_zero(number: NumberView) -> bool {
    number == NumberView::Float("0.0"@) || number == NumberView::Float("-0.0"@)
}

/// Whether two scalars are the same value. The two floating-point zeros are.
pub open spec fn same_value(a: JsonView, b: JsonView) -> bool {
    a == b || (a is Number && b is Number && is_zero(a->Number_0) && is_zero(b->Number_0))
}

/// A declared scalar is covered, and matched, by a live value that is equal to
/// it and by no other.
pub proof fn law_scalars_cover_where_equal(desired: JsonView, live: JsonView)
    requires
        is_scalar(desired),
    ensures
        covered(desired, live) <==> same_value(desired, live),
        matched(desired, live) <==> same_value(desired, live),
{
}

/// A declared array is covered only by an array, a declared object only by an
/// object.
pub proof fn law_kinds_do_not_mix(desired: JsonView, live: JsonView)
    requires
        covered(desired, live) || matched(desired, live),
    ensures
        desired is Array <==> live is Array,
        desired is Object <==> live is Object,
        desired is Null <==> live is Null,
        desired is Bool <==> live is Bool,
        desired is Number <==> live is Number,
        desired is String <==> live is String,
{
}

/// A key leads to the value of the first entry that has it, and to nothing
/// where no entry has it.
pub proof fn law_lookup_finds_the_first(entries: Seq<(Seq<char>, JsonView)>, key: Seq<char>)
    ensures
        match lookup(entries, key) {
            Some(value) => exists|i: int|
                0 <= i < entries.len() && #[trigger] entries[i] == (key, value) && forall|j: int|
                    0 <= j < i ==> (#[trigger] entries[j]).0 != key,
            None => forall|i: int| 0 <= i < entries.len() ==> (#[trigger] entries[i]).0 != key,
        },
    decreases entries.len(),
{
    if entries.len() > 0 {
        let rest = entries.drop_first();
        law_lookup_finds_the_first(rest, key);
        if entries[0].0 == key {
            assert(entries[0] == (key, lookup(entries, key)->0));
        } else if let Some(value) = lookup(rest, key) {
            let i = choose|i: int|
                0 <= i < rest.len() && #[trigger] rest[i] == (key, value) && forall|j: int|
                    0 <= j < i ==> (#[trigger] rest[j]).0 != key;
            assert(entries[i + 1] == (key, value));
            assert forall|j: int| 0 <= j < i + 1 implies (#[trigger] entries[j]).0 != key by {
                if j > 0 {
                    assert(rest[j - 1].0 != key);
                }
            }
        } else {
            assert forall|i: int| 0 <= i < entries.len() implies (#[trigger] entries[i]).0
                != key by {
                if i > 0 {
                    assert(rest[i - 1].0 != key);
                }
            }
        }
    }
}

/// A declared object is covered exactly where each of its fields is there and
/// covered; likewise for a match.
pub proof fn law_objects_need_every_field(
    wanted: Seq<(Seq<char>, JsonView)>,
    found: Seq<(Seq<char>, JsonView)>,
)
    requires
        in_order(found),
    ensures
        covered(JsonView::Object(wanted), JsonView::Object(found)) <==> forall|i: int|
            0 <= i < wanted.len() ==> has_covered(#[trigger] wanted[i], found),
        matched(JsonView::Object(wanted), JsonView::Object(found)) <==> forall|i: int|
            0 <= i < wanted.len() ==> has_matched(#[trigger] wanted[i], found),
{
    assert forall|i: int| 0 <= i < wanted.len() implies has_covered(#[trigger] wanted[i], found)
        == (lookup(found, wanted[i].0) is Some && covered(
        wanted[i].1,
        lookup(found, wanted[i].0)->0,
    )) && has_matched(wanted[i], found) == (lookup(found, wanted[i].0) is Some && matched(
        wanted[i].1,
        lookup(found, wanted[i].0)->0,
    )) by {
        lemma_has(wanted[i], found);
    }
}

/// Whether the field is among some entries, with a value that covers it.
pub open spec fn has_covered(
    field: (Seq<char>, JsonView),
    entries: Seq<(Seq<char>, JsonView)>,
) -> bool {
    exists|k: int|
        0 <= k < entries.len() && (#[trigger] entries[k]).0 == field.0 && covered(
            field.1,
            entries[k].1,
        )
}

/// Whether the field is among some entries, with a value that matches it.
pub open spec fn has_matched(
    field: (Seq<char>, JsonView),
    entries: Seq<(Seq<char>, JsonView)>,
) -> bool {
    exists|k: int|
        0 <= k < entries.len() && (#[trigger] entries[k]).0 == field.0 && matched(
            field.1,
            entries[k].1,
        )
}

proof fn lemma_has(field: (Seq<char>, JsonView), entries: Seq<(Seq<char>, JsonView)>)
    requires
        in_order(entries),
    ensures
        has_covered(field, entries) == (lookup(entries, field.0) is Some && covered(
            field.1,
            lookup(entries, field.0)->0,
        )),
        has_matched(field, entries) == (lookup(entries, field.0) is Some && matched(
            field.1,
            lookup(entries, field.0)->0,
        )),
{
    law_lookup_finds_the_first(entries, field.0);
    if has_covered(field, entries) {
        let k = choose|k: int|
            0 <= k < entries.len() && (#[trigger] entries[k]).0 == field.0 && covered(
                field.1,
                entries[k].1,
            );
        lemma_lookup_in_order(entries, k);
    }
    if has_matched(field, entries) {
        let k = choose|k: int|
            0 <= k < entries.len() && (#[trigger] entries[k]).0 == field.0 && matched(
                field.1,
                entries[k].1,
            );
        lemma_lookup_in_order(entries, k);
    }
}

/// A declared object is never covered, and never matched, by one that lacks a
/// declared field or has another scalar in it.
pub proof fn law_a_differing_scalar_is_not_covered(
    wanted: Seq<(Seq<char>, JsonView)>,
    found: Seq<(Seq<char>, JsonView)>,
    index: int,
)
    requires
        0 <= index < wanted.len(),
        match lookup(found, wanted[index].0) {
            Some(live) => is_scalar(wanted[index].1) && !same_value(wanted[index].1, live),
            None => true,
        },
    ensures
        !covered(JsonView::Object(wanted), JsonView::Object(found)),
        !matched(JsonView::Object(wanted), JsonView::Object(found)),
{
    let (key, value) = wanted[index];
    if let Some(live) = lookup(found, key) {
        law_scalars_cover_where_equal(value, live);
    }
    if covered(JsonView::Object(wanted), JsonView::Object(found)) {
        assert(lookup(found, wanted[index].0) is Some);
    }
    if matched(JsonView::Object(wanted), JsonView::Object(found)) {
        assert(lookup(found, wanted[index].0) is Some);
    }
}

/// A declared array is covered exactly where the live one has as many items and
/// each covers the one at its place.
pub proof fn law_arrays_need_every_item(wanted: Seq<JsonView>, found: Seq<JsonView>)
    ensures
        covered(JsonView::Array(wanted), JsonView::Array(found)) <==> wanted.len() == found.len()
            && forall|i: int| 0 <= i < wanted.len() ==> covered(#[trigger] wanted[i], found[i]),
        matched(JsonView::Array(wanted), JsonView::Array(found)) ==> wanted.len() == found.len()
            && forall|i: int|
            0 <= i < wanted.len() ==> is_matched_by_one(#[trigger] wanted[i], found),
{
    if matched(JsonView::Array(wanted), JsonView::Array(found)) {
        let pairing = lemma_pairing(wanted, found);
        assert forall|i: int| 0 <= i < wanted.len() implies is_matched_by_one(
            #[trigger] wanted[i],
            found,
        ) by {
            assert(matched(wanted[i], found[pairing[i]]));
        }
    }
}

/// Whether some item matches the declared one.
pub open spec fn is_matched_by_one(item: JsonView, found: Seq<JsonView>) -> bool {
    exists|k: int| 0 <= k < found.len() && matched(item, #[trigger] found[k])
}

/// Lists of strings match exactly where they hold the same strings, each as
/// often.
pub proof fn law_string_lists_match_as_multisets(wanted: Seq<Seq<char>>, found: Seq<Seq<char>>)
    ensures
        matched(string_array(wanted), string_array(found)) <==> wanted.to_multiset()
            == found.to_multiset(),
{
    let a = string_array(wanted)->Array_0;
    let b = string_array(found)->Array_0;
    assert(string_array(wanted) == JsonView::Array(a) && string_array(found) == JsonView::Array(b));
    if matched(JsonView::Array(a), JsonView::Array(b)) {
        let pairing = lemma_pairing(a, b);
        assert forall|i: int| 0 <= i < wanted.len() implies #[trigger] wanted[i]
            == found[pairing[i]] by {
            assert(a[i] == JsonView::String(wanted[i]));
            assert(b[pairing[i]] == JsonView::String(found[pairing[i]]));
            assert(matched(a[i], b[pairing[i]]));
        }
        lemma_paired_multisets(wanted, found, pairing);
    }
    if wanted.to_multiset() == found.to_multiset() {
        let pairing = lemma_arranged(wanted, found);
        assert forall|i: int| 0 <= i < a.len() implies matched(#[trigger] a[i], b[pairing[i]]) by {
            assert(a[i] == JsonView::String(wanted[i]));
            assert(wanted[i] == found[pairing[i]]);
            assert(b[pairing[i]] == JsonView::String(found[pairing[i]]));
        }
        assert(pairs_matches(pairing, a, b));
        lemma_matched_by(pairing, a, b);
    }
}

/// Texts that are paired with equal ones are the same texts, each as often.
proof fn lemma_paired_multisets(a: Seq<Seq<char>>, b: Seq<Seq<char>>, pairing: Seq<int>)
    requires
        a.len() == b.len(),
        is_pairing(pairing, a.len()),
        forall|i: int| 0 <= i < a.len() ==> #[trigger] a[i] == b[pairing[i]],
    ensures
        a.to_multiset() == b.to_multiset(),
    decreases a.len(),
{
    broadcast use vstd::seq_lib::group_to_multiset_ensures;

    if a.len() == 0 {
        assert(a =~= b);
    } else {
        let n = a.len() - 1;
        let k = pairing[n];
        let rest = a.drop_last();
        let more = b.remove(k);
        let shorter = Seq::new(
            n as nat,
            |i: int|
                if pairing[i] < k {
                    pairing[i]
                } else {
                    pairing[i] - 1
                },
        );
        assert forall|i: int| 0 <= i < n implies 0 <= #[trigger] shorter[i] < n by {
            assert(pairing[i] != pairing[n]);
        }
        assert forall|i: int, j: int| 0 <= i < j < n implies #[trigger] shorter[i]
            != #[trigger] shorter[j] by {
            assert(pairing[i] != pairing[j]);
            assert(pairing[i] != pairing[n] && pairing[j] != pairing[n]);
        }
        assert forall|i: int| 0 <= i < n implies #[trigger] rest[i] == more[shorter[i]] by {
            assert(a[i] == b[pairing[i]]);
            assert(pairing[i] != pairing[n]);
        }
        lemma_paired_multisets(rest, more, shorter);
        assert(a[n] == b[k]);
        assert(a =~= rest.push(a[n]));
        assert(b.to_multiset().contains(b[k])) by {
            assert(b.contains(b[k]));
        }
        assert(a.to_multiset() =~= b.to_multiset());
    }
}

/// The same texts, each as often, can be paired.
proof fn lemma_arranged(a: Seq<Seq<char>>, b: Seq<Seq<char>>) -> (pairing: Seq<int>)
    requires
        a.to_multiset() == b.to_multiset(),
    ensures
        a.len() == b.len(),
        is_pairing(pairing, a.len()),
        forall|i: int| 0 <= i < a.len() ==> #[trigger] a[i] == b[pairing[i]],
    decreases a.len(),
{
    broadcast use vstd::seq_lib::group_to_multiset_ensures;

    assert(a.len() == a.to_multiset().len() && b.len() == b.to_multiset().len());
    if a.len() == 0 {
        Seq::empty()
    } else {
        let last = a.last();
        assert(b.contains(last)) by {
            assert(a.contains(last));
            assert(b.to_multiset().contains(last));
        }
        let k = choose|k: int| 0 <= k < b.len() && b[k] == last;
        let rest = a.drop_last();
        let more = b.remove(k);
        assert(a =~= rest.push(last));
        assert(rest.to_multiset() =~= more.to_multiset());
        let shorter = lemma_arranged(rest, more);
        let pairing = Seq::new(
            a.len(),
            |i: int|
                if i == a.len() - 1 {
                    k
                } else if shorter[i] < k {
                    shorter[i]
                } else {
                    shorter[i] + 1
                },
        );
        assert forall|i: int, j: int| 0 <= i < j < a.len() implies #[trigger] pairing[i]
            != #[trigger] pairing[j] by {
            if j < rest.len() {
                assert(shorter[i] != shorter[j]);
            }
        }
        assert forall|i: int| 0 <= i < a.len() implies #[trigger] a[i] == b[pairing[i]] by {
            if i < rest.len() {
                assert(rest[i] == more[shorter[i]]);
            }
        }
        pairing
    }
}

/// Putting a value in order changes nothing but the order of arrays: scalars
/// stay, objects keep their keys with the values put in order, and arrays keep
/// their items, each put in order.
pub proof fn law_ordering_only_moves_items(value: JsonView)
    ensures
        is_scalar(value) ==> canonical(value) == value,
        match value {
            JsonView::Object(entries) => match canonical(value) {
                JsonView::Object(ordered) => ordered.len() == entries.len() && forall|i: int|
                    0 <= i < entries.len() ==> #[trigger] ordered[i] == (
                        entries[i].0,
                        canonical(entries[i].1),
                    ),
                _ => false,
            },
            JsonView::Array(items) => match canonical(value) {
                JsonView::Array(ordered) => ordered.to_multiset() == Seq::new(
                    items.len(),
                    |i: int| canonical(items[i]),
                ).to_multiset(),
                _ => false,
            },
            _ => true,
        },
{
    if let JsonView::Array(items) = value {
        law_sorting_orders_the_items(canonical_items(items));
        assert(canonical_items(items) =~= Seq::new(items.len(), |i: int| canonical(items[i])));
    }
}

/// What is compared with a declared value differs from the live value in
/// nothing but arrays that match the declared ones.
pub proof fn law_only_matching_arrays_are_aligned(desired: JsonView, live: JsonView)
    ensures
        !(desired is Object && live is Object) && !matched(desired, live) ==> aligned(desired, live)
            == live,
        is_scalar(live) ==> aligned(desired, live) == live,
        match (desired, live, aligned(desired, live)) {
            (JsonView::Object(wanted), JsonView::Object(found), JsonView::Object(now)) => {
                &&& now.len() == found.len()
                &&& forall|i: int|
                    0 <= i < now.len() ==> (#[trigger] now[i]).0 == found[i].0 && (lookup(
                        wanted,
                        found[i].0,
                    ) is None ==> now[i].1 == found[i].1)
            },
            (JsonView::Object(_), JsonView::Object(_), _) => false,
            _ => true,
        },
{
}

} // verus!
