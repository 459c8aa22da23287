//! Comparing a declared JSON value with a live one: order-insensitive, and
//! blind to live fields that were not declared.

use vstd::prelude::*;
use vstd::string::*;

use crate::json::{
    compact, float_zero, item_views, lemma_array_view, lemma_lookup_views, lemma_object_view,
    object_view, same_number, Json, JsonView, Number, NumberView,
};
use crate::keymap::{lookup, KeyMap};
use crate::order::{lemma_value_total, value_before, value_standing, Standing};
use crate::pairing::{can_pair, fits, is_pairing, pairs_up};
use crate::text::{before, decimal, lemma_before_total, number_text, same, text_before};

verus! {

// --- Models -------------------------------------------------------------

/// The text of a string field.
pub open spec fn text_field(value: JsonView, key: Seq<char>) -> Option<Seq<char>> {
    match value.field(key) {
        Some(JsonView::String(text)) => Some(text),
        _ => None,
    }
}

/// The natural number in a field, or zero.
pub open spec fn number_field(value: JsonView, key: Seq<char>) -> nat {
    match value.field(key) {
        Some(JsonView::Number(NumberView::Int(n))) => if n >= 0 {
            n as nat
        } else {
            0
        },
        _ => 0,
    }
}

/// The text by which the items of an array are ordered first: rules by their
/// type, status checks by their context, bypass actors by type and ID, strings
/// by themselves and everything else by its notation.
pub open spec fn key_of(value: JsonView) -> Seq<char> {
    if text_field(value, "type"@) is Some {
        "0:"@ + text_field(value, "type"@)->0
    } else if text_field(value, "context"@) is Some {
        "1:"@ + text_field(value, "context"@)->0
    } else if text_field(value, "actor_type"@) is Some {
        "2:"@ + text_field(value, "actor_type"@)->0 + ":"@ + decimal(
            number_field(value, "actor_id"@),
        )
    } else if value is String {
        "3:"@ + value->String_0
    } else {
        compact(value)
    }
}

/// The order of the items of an array: by their keys, and items with one key
/// by what else they hold.
pub open spec fn item_before(a: JsonView, b: JsonView) -> bool {
    text_before(key_of(a), key_of(b)) || key_of(a) == key_of(b) && value_before(a, b)
}

/// The items with one more, which stands behind every item that does not come
/// after it.
pub open spec fn with_item(items: Seq<JsonView>, item: JsonView) -> Seq<JsonView>
    decreases items.len(),
{
    if items.len() > 0 && item_before(item, items.last()) {
        with_item(items.drop_last(), item).push(items.last())
    } else {
        items.push(item)
    }
}

/// The items in order, whatever order they had.
pub open spec fn sorted(items: Seq<JsonView>) -> Seq<JsonView>
    decreases items.len(),
{
    if items.len() == 0 {
        items
    } else {
        with_item(sorted(items.drop_last()), items.last())
    }
}

/// The value with the items of every array in order.
pub open spec fn canonical(value: JsonView) -> JsonView
    decreases value,
{
    match value {
        JsonView::Array(items) => JsonView::Array(sorted(canonical_items(items))),
        JsonView::Object(entries) => JsonView::Object(canonical_entries(entries)),
        _ => value,
    }
}

/// The items, each with its arrays in order.
pub open spec fn canonical_items(items: Seq<JsonView>) -> Seq<JsonView>
    decreases items,
{
    Seq::new(
        items.len(),
        |i: int|
            if 0 <= i < items.len() {
                canonical(items[i])
            } else {
                JsonView::Null
            },
    )
}

/// The entries, each with its arrays in order.
pub open spec fn canonical_entries(entries: Seq<(Seq<char>, JsonView)>) -> Seq<
    (Seq<char>, JsonView),
>
    decreases entries,
{
    Seq::new(
        entries.len(),
        |i: int|
            if 0 <= i < entries.len() {
                (entries[i].0, canonical(entries[i].1))
            } else {
                (Seq::empty(), JsonView::Null)
            },
    )
}

/// Whether two values that are neither two objects nor two arrays are equal.
pub open spec fn same_scalar(a: JsonView, b: JsonView) -> bool {
    match (a, b) {
        (JsonView::Null, JsonView::Null) => true,
        (JsonView::Bool(x), JsonView::Bool(y)) => x == y,
        (JsonView::Number(x), JsonView::Number(y)) => same_number(x, y),
        (JsonView::String(x), JsonView::String(y)) => x == y,
        _ => false,
    }
}

/// Whether every declared value is present and equal in the live one. Live
/// fields that were not declared do not matter. Arrays are compared item by
/// item.
pub open spec fn covered(desired: JsonView, live: JsonView) -> bool
    decreases desired,
{
    match (desired, live) {
        (JsonView::Object(wanted), JsonView::Object(found)) => forall|i: int|
            0 <= i < wanted.len() ==> {
                &&& lookup(found, (#[trigger] wanted[i]).0) is Some
                &&& covered(wanted[i].1, lookup(found, wanted[i].0)->0)
            },
        (JsonView::Array(wanted), JsonView::Array(found)) => {
            &&& wanted.len() == found.len()
            &&& forall|i: int| 0 <= i < wanted.len() ==> covered(#[trigger] wanted[i], found[i])
        },
        _ => same_scalar(desired, live),
    }
}

/// Whether every declared value is present and equal in the live one, where the
/// items of an array may stand in any order: each declared item is matched by a
/// live item of its own, and no live item is left over. Live fields that were
/// not declared do not matter.
pub open spec fn matched(desired: JsonView, live: JsonView) -> bool
    decreases desired,
{
    match (desired, live) {
        (JsonView::Object(wanted), JsonView::Object(found)) => forall|i: int|
            0 <= i < wanted.len() ==> {
                &&& lookup(found, (#[trigger] wanted[i]).0) is Some
                &&& matched(wanted[i].1, lookup(found, wanted[i].0)->0)
            },
        (JsonView::Array(wanted), JsonView::Array(found)) => {
            &&& wanted.len() == found.len()
            &&& exists|pairing: Seq<int>| #[trigger]
                is_pairing(pairing, wanted.len()) && forall|i: int|
                    0 <= i < wanted.len() ==> matched(#[trigger] wanted[i], found[pairing[i]])
        },
        _ => same_scalar(desired, live),
    }
}

/// The live value as it is compared with the declared one: an array that
/// matches the declared one in whatever order reads as it was declared.
pub open spec fn aligned(desired: JsonView, live: JsonView) -> JsonView
    decreases live,
{
    match (desired, live) {
        (JsonView::Object(wanted), JsonView::Object(found)) => JsonView::Object(
            aligned_entries(wanted, found),
        ),
        (JsonView::Array(_), JsonView::Array(_)) => if matched(desired, live) {
            desired
        } else {
            live
        },
        _ => live,
    }
}

/// The live entries, those that were declared as they are compared with the
/// declared ones.
pub open spec fn aligned_entries(
    wanted: Seq<(Seq<char>, JsonView)>,
    found: Seq<(Seq<char>, JsonView)>,
) -> Seq<(Seq<char>, JsonView)>
    decreases found,
{
    Seq::new(
        found.len(),
        |i: int|
            if 0 <= i < found.len() {
                (
                    found[i].0,
                    match lookup(wanted, found[i].0) {
                        Some(value) => aligned(value, found[i].1),
                        None => found[i].1,
                    },
                )
            } else {
                (Seq::empty(), JsonView::Null)
            },
    )
}

// --- Operations ----------------------------------------------------------

/// The text by which the value is ordered among the items of an array.
pub fn sort_key(value: &Json) -> (key: String)
    ensures
        key@ == key_of(value@),
{
    if let Some(field) = value.get("type") {
        if let Some(text) = field.as_str() {
            return "0:".to_owned().concat(text);
        }
    }
    if let Some(field) = value.get("context") {
        if let Some(text) = field.as_str() {
            return "1:".to_owned().concat(text);
        }
    }
    if let Some(field) = value.get("actor_type") {
        if let Some(text) = field.as_str() {
            let id: u64 = match value.get("actor_id") {
                Some(actor) => match actor.as_u64() {
                    Some(n) => n,
                    None => 0,
                },
                None => 0,
            };
            return "2:".to_owned().concat(text).concat(":").concat(number_text(id).as_str());
        }
    }
    if let Some(text) = value.as_str() {
        return "3:".to_owned().concat(text);
    }
    value.to_text()
}

/// Whether an item comes before another, given the keys of both.
fn comes_before(key: &str, item: &Json, other_key: &str, other: &Json) -> (earlier: bool)
    requires
        key@ == key_of(item@),
        other_key@ == key_of(other@),
    ensures
        earlier == item_before(item@, other@),
{
    proof {
        lemma_before_total(key@, other_key@);
        lemma_value_total(item@, other@);
    }
    if same(key, other_key) {
        value_standing(item, other) == Standing::Before
    } else {
        before(key, other_key)
    }
}

/// Sorts the items by their keys, and items with one key by what else they
/// hold.
pub fn sort_items(items: Vec<Json>) -> (ordered: Vec<Json>)
    ensures
        item_views(ordered@) == sorted(item_views(items@)),
{
    let ghost views = item_views(items@);
    let mut ordered: Vec<Json> = Vec::new();
    let mut keys: Vec<String> = Vec::new();
    let mut rest = items;
    let mut i: usize = 0;
    let n: usize = rest.len();
    assert(item_views(ordered@) =~= sorted(views.take(0)));
    while i < n
        invariant
            i <= n,
            n == views.len(),
            item_views(rest@) == views.skip(i as int),
            item_views(ordered@) == sorted(views.take(i as int)),
            keys@.len() == ordered@.len(),
            forall|j: int|
                0 <= j < keys@.len() ==> (#[trigger] keys@[j])@ == key_of(ordered@[j]@),
        decreases n - i,
    {
        assert(rest@.len() == item_views(rest@).len());
        let ghost rest_before = rest@;
        let item = rest.remove(0);
        assert(item@ == item_views(rest_before)[0]);
        assert(item_views(rest@) =~= item_views(rest_before).drop_first());
        assert(views.skip(i as int).drop_first() =~= views.skip(i + 1));
        proof {
            assert(views.take(i + 1).drop_last() =~= views.take(i as int));
            assert(views.take(i + 1).last() == item@);
        }
        insert_item(&mut ordered, &mut keys, item);
        i = i + 1;
    }
    assert(views.take(n as int) =~= views);
    ordered
}

/// Puts an item behind every item that does not come after it.
fn insert_item(ordered: &mut Vec<Json>, keys: &mut Vec<String>, item: Json)
    requires
        old(keys)@.len() == old(ordered)@.len(),
        forall|j: int|
            0 <= j < old(keys)@.len() ==> (#[trigger] old(keys)@[j])@ == key_of(old(ordered)@[j]@),
    ensures
        item_views(final(ordered)@) == with_item(item_views(old(ordered)@), item@),
        final(keys)@.len() == final(ordered)@.len(),
        forall|j: int|
            0 <= j < final(keys)@.len() ==> (#[trigger] final(keys)@[j])@ == key_of(
                final(ordered)@[j]@,
            ),
{
    let key = sort_key(&item);
    let ghost views = item_views(ordered@);
    let mut at: usize = ordered.len();
    assert(views.take(at as int) =~= views);
    assert(views.skip(at as int) =~= Seq::empty());
    assert(with_item(views, item@) =~= with_item(views.take(at as int), item@) + views.skip(
        at as int,
    ));
    while at > 0 && comes_before(key.as_str(), &item, keys[at - 1].as_str(), &ordered[at - 1])
        invariant
            at <= ordered@.len(),
            keys@.len() == ordered@.len(),
            views == item_views(ordered@),
            key@ == key_of(item@),
            forall|j: int| 0 <= j < keys@.len() ==> (#[trigger] keys@[j])@ == key_of(ordered@[j]@),
            with_item(views, item@) == with_item(views.take(at as int), item@) + views.skip(
                at as int,
            ),
        decreases at,
    {
        proof {
            let head = views.take(at as int);
            assert(head.last() == ordered@[at - 1]@);
            assert(head.drop_last() =~= views.take(at - 1));
            assert(with_item(head, item@) == with_item(views.take(at - 1), item@).push(
                head.last(),
            ));
            assert(with_item(views.take(at - 1), item@).push(head.last()) + views.skip(at as int)
                =~= with_item(views.take(at - 1), item@) + views.skip(at - 1));
        }
        at = at - 1;
    }
    proof {
        let head = views.take(at as int);
        if at > 0 {
            assert(head.last() == ordered@[at - 1]@);
        }
        assert(with_item(head, item@) == head.push(item@));
    }
    ordered.insert(at, item);
    keys.insert(at, key);
    assert(item_views(ordered@) =~= views.take(at as int).push(item@) + views.skip(at as int));
}

/// The value with the items of every array in order, so that comparisons do
/// not depend on how the arrays were ordered.
pub fn canonicalize(value: &Json) -> (ordered: Json)
    ensures
        ordered@ == canonical(value@),
    decreases value,
{
    match value {
        Json::Array(items) => {
            let inner = canonicalize_items(items);
            let ordered = sort_items(inner);
            proof {
                lemma_array_view(*items);
                lemma_array_view(ordered);
            }
            Json::Array(ordered)
        },
        Json::Object(map) => {
            let ordered = canonicalize_entries(map);
            proof {
                lemma_object_view(*map);
                lemma_object_view(ordered);
            }
            Json::Object(ordered)
        },
        _ => value.copied(),
    }
}

fn canonicalize_items(items: &Vec<Json>) -> (ordered: Vec<Json>)
    ensures
        item_views(ordered@) == canonical_items(item_views(items@)),
    decreases items,
{
    let mut ordered: Vec<Json> = Vec::new();
    let mut i: usize = 0;
    while i < items.len()
        invariant
            i <= items@.len(),
            ordered@.len() == i,
            forall|j: int| 0 <= j < i ==> (#[trigger] ordered@[j])@ == canonical(items@[j]@),
        decreases items@.len() - i,
    {
        assert(decreases_to!(items => items@[i as int]));
        ordered.push(canonicalize(&items[i]));
        i = i + 1;
    }
    assert(item_views(ordered@) =~= canonical_items(item_views(items@)));
    ordered
}

fn canonicalize_entries(map: &KeyMap<Json>) -> (ordered: KeyMap<Json>)
    ensures
        object_view(ordered) == canonical_entries(object_view(*map)),
    decreases map,
{
    let mut entries: Vec<(String, Json)> = Vec::new();
    let mut i: usize = 0;
    while i < map.entries.len()
        invariant
            i <= map.entries@.len(),
            entries@.len() == i,
            forall|j: int|
                0 <= j < i ==> (#[trigger] entries@[j]).0@ == map.entries@[j].0@ && entries@[j].1@
                    == canonical(map.entries@[j].1@),
        decreases map.entries@.len() - i,
    {
        assert(decreases_to!(map => map.entries@[i as int].1));
        entries.push((map.entries[i].0.clone(), canonicalize(&map.entries[i].1)));
        i = i + 1;
    }
    let ordered = KeyMap { entries: entries };
    assert(object_view(ordered) =~= canonical_entries(object_view(*map)));
    ordered
}

/// Whether every declared value is present and equal in the live one. Live
/// fields that were not declared do not matter.
pub fn covers(desired: &Json, live: &Json) -> (r: bool)
    ensures
        r == covered(desired@, live@),
    decreases desired,
{
    match (desired, live) {
        (Json::Object(wanted), Json::Object(found)) => {
            proof {
                lemma_object_view(*wanted);
                lemma_object_view(*found);
            }
            covers_entries(wanted, found)
        },
        (Json::Array(wanted), Json::Array(found)) => {
            proof {
                lemma_array_view(*wanted);
                lemma_array_view(*found);
            }
            covers_items(wanted, found)
        },
        (Json::Null, Json::Null) => true,
        (Json::Bool(a), Json::Bool(b)) => *a == *b,
        (Json::Number(a), Json::Number(b)) => numbers_equal(a, b),
        (Json::String(a), Json::String(b)) => same(a.as_str(), b.as_str()),
        _ => false,
    }
}

fn covers_entries(wanted: &KeyMap<Json>, found: &KeyMap<Json>) -> (r: bool)
    ensures
        r == covered(JsonView::Object(object_view(*wanted)), JsonView::Object(object_view(*found))),
    decreases wanted,
{
    let mut i: usize = 0;
    while i < wanted.entries.len()
        invariant
            i <= wanted.entries@.len(),
            forall|j: int|
                0 <= j < i ==> {
                    &&& lookup(object_view(*found), (#[trigger] object_view(*wanted)[j]).0) is Some
                    &&& covered(
                        object_view(*wanted)[j].1,
                        lookup(object_view(*found), object_view(*wanted)[j].0)->0,
                    )
                },
        decreases wanted.entries@.len() - i,
    {
        assert(decreases_to!(wanted => wanted.entries@[i as int].1));
        proof {
            lemma_lookup_views(found@, wanted.entries@[i as int].0@);
            assert(object_view(*wanted)[i as int] == (
                wanted.entries@[i as int].0@,
                wanted.entries@[i as int].1@,
            ));
        }
        match found.get(wanted.entries[i].0.as_str()) {
            Some(value) => {
                if !covers(&wanted.entries[i].1, value) {
                    return false;
                }
            },
            None => {
                return false;
            },
        }
        i = i + 1;
    }
    true
}

fn covers_items(wanted: &Vec<Json>, found: &Vec<Json>) -> (r: bool)
    ensures
        r == covered(
            JsonView::Array(item_views(wanted@)),
            JsonView::Array(item_views(found@)),
        ),
    decreases wanted,
{
    if wanted.len() != found.len() {
        return false;
    }
    let mut i: usize = 0;
    while i < wanted.len()
        invariant
            i <= wanted@.len(),
            wanted@.len() == found@.len(),
            forall|j: int|
                0 <= j < i ==> covered(
                    #[trigger] item_views(wanted@)[j],
                    item_views(found@)[j],
                ),
        decreases wanted@.len() - i,
    {
        assert(decreases_to!(wanted => wanted@[i as int]));
        assert(item_views(wanted@)[i as int] == wanted@[i as int]@);
        if !covers(&wanted[i], &found[i]) {
            return false;
        }
        i = i + 1;
    }
    true
}

/// Whether every declared value is present and equal in the live one, where the
/// items of an array may stand in any order.
pub fn is_matched(desired: &Json, live: &Json) -> (r: bool)
    ensures
        r == matched(desired@, live@),
    decreases desired,
{
    match (desired, live) {
        (Json::Object(wanted), Json::Object(found)) => {
            proof {
                lemma_object_view(*wanted);
                lemma_object_view(*found);
            }
            entries_matched(wanted, found)
        },
        (Json::Array(wanted), Json::Array(found)) => {
            proof {
                lemma_array_view(*wanted);
                lemma_array_view(*found);
            }
            items_matched(wanted, found)
        },
        (Json::Null, Json::Null) => true,
        (Json::Bool(a), Json::Bool(b)) => *a == *b,
        (Json::Number(a), Json::Number(b)) => numbers_equal(a, b),
        (Json::String(a), Json::String(b)) => same(a.as_str(), b.as_str()),
        _ => false,
    }
}

fn entries_matched(wanted: &KeyMap<Json>, found: &KeyMap<Json>) -> (r: bool)
    ensures
        r == matched(JsonView::Object(object_view(*wanted)), JsonView::Object(object_view(*found))),
    decreases wanted,
{
    let mut i: usize = 0;
    while i < wanted.entries.len()
        invariant
            i <= wanted.entries@.len(),
            forall|j: int|
                0 <= j < i ==> {
                    &&& lookup(object_view(*found), (#[trigger] object_view(*wanted)[j]).0) is Some
                    &&& matched(
                        object_view(*wanted)[j].1,
                        lookup(object_view(*found), object_view(*wanted)[j].0)->0,
                    )
                },
        decreases wanted.entries@.len() - i,
    {
        assert(decreases_to!(wanted => wanted.entries@[i as int].1));
        proof {
            lemma_lookup_views(found@, wanted.entries@[i as int].0@);
            assert(object_view(*wanted)[i as int] == (
                wanted.entries@[i as int].0@,
                wanted.entries@[i as int].1@,
            ));
        }
        match found.get(wanted.entries[i].0.as_str()) {
            Some(value) => {
                if !is_matched(&wanted.entries[i].1, value) {
                    return false;
                }
            },
            None => {
                return false;
            },
        }
        i = i + 1;
    }
    true
}

fn items_matched(wanted: &Vec<Json>, found: &Vec<Json>) -> (r: bool)
    ensures
        r == matched(
            JsonView::Array(item_views(wanted@)),
            JsonView::Array(item_views(found@)),
        ),
    decreases wanted,
{
    let ghost items = item_views(wanted@);
    let ghost others = item_views(found@);
    assert(items.len() == wanted@.len() && others.len() == found@.len());
    if wanted.len() != found.len() {
        return false;
    }
    let mut table: Vec<Vec<bool>> = Vec::new();
    let mut i: usize = 0;
    while i < wanted.len()
        invariant
            i <= wanted@.len(),
            wanted@.len() == found@.len(),
            items == item_views(wanted@),
            others == item_views(found@),
            table@.len() == i,
            forall|k: int| 0 <= k < i ==> (#[trigger] table@[k])@.len() == wanted@.len(),
            forall|k: int, m: int|
                0 <= k < i && 0 <= m < found@.len() ==> #[trigger] fits(table@, k, m) == matched(
                    items[k],
                    others[m],
                ),
        decreases wanted@.len() - i,
    {
        assert(decreases_to!(wanted => wanted@[i as int]));
        let mut line: Vec<bool> = Vec::new();
        let mut j: usize = 0;
        while j < found.len()
            invariant
                j <= found@.len(),
                i < wanted@.len(),
                items == item_views(wanted@),
                others == item_views(found@),
                decreases_to!(wanted => wanted@[i as int]),
                line@.len() == j,
                forall|m: int|
                    0 <= m < j ==> #[trigger] line@[m] == matched(items[i as int], others[m]),
            decreases found@.len() - j,
        {
            line.push(is_matched(&wanted[i], &found[j]));
            j = j + 1;
        }
        let ghost before = table@;
        table.push(line);
        assert forall|k: int, m: int|
            0 <= k < i + 1 && 0 <= m < found@.len() implies #[trigger] fits(table@, k, m)
            == matched(items[k], others[m]) by {
            if k < i {
                assert(fits(before, k, m) == matched(items[k], others[m]));
            }
        }
        i = i + 1;
    }
    proof {
        lemma_can_pair(table@, items, others);
    }
    pairs_up(&table)
}

/// The items match where the table of which item matches which can be paired.
proof fn lemma_can_pair(table: Seq<Vec<bool>>, items: Seq<JsonView>, others: Seq<JsonView>)
    requires
        table.len() == items.len(),
        items.len() == others.len(),
        forall|k: int, m: int|
            0 <= k < items.len() && 0 <= m < others.len() ==> #[trigger] fits(table, k, m)
                == matched(items[k], others[m]),
    ensures
        can_pair(table) == matched(JsonView::Array(items), JsonView::Array(others)),
{
    let n = items.len();
    if can_pair(table) {
        let pairing = choose|pairing: Seq<int>| #[trigger]
            is_pairing(pairing, n) && forall|i: int|
                0 <= i < n ==> #[trigger] fits(table, i, pairing[i]);
        assert forall|i: int| 0 <= i < n implies matched(#[trigger] items[i], others[pairing[i]]) by {
            assert(fits(table, i, pairing[i]));
        }
        assert(is_pairing(pairing, n));
    }
    if matched(JsonView::Array(items), JsonView::Array(others)) {
        let pairing = choose|pairing: Seq<int>| #[trigger]
            is_pairing(pairing, n) && forall|i: int|
                0 <= i < n ==> matched(#[trigger] items[i], others[pairing[i]]);
        assert forall|i: int| 0 <= i < n implies #[trigger] fits(table, i, pairing[i]) by {
            assert(matched(items[i], others[pairing[i]]));
        }
        assert(is_pairing(pairing, n));
    }
}

/// The live value as it is compared with the declared one: an array that
/// matches the declared one in whatever order reads as it was declared.
pub fn align(desired: &Json, live: &Json) -> (value: Json)
    ensures
        value@ == aligned(desired@, live@),
    decreases live,
{
    match (desired, live) {
        (Json::Object(wanted), Json::Object(found)) => {
            let map = align_entries(wanted, found);
            proof {
                lemma_object_view(*wanted);
                lemma_object_view(*found);
                lemma_object_view(map);
            }
            Json::Object(map)
        },
        (Json::Array(wanted), Json::Array(found)) => {
            proof {
                lemma_array_view(*wanted);
                lemma_array_view(*found);
            }
            if is_matched(desired, live) {
                desired.copied()
            } else {
                live.copied()
            }
        },
        _ => live.copied(),
    }
}

fn align_entries(wanted: &KeyMap<Json>, found: &KeyMap<Json>) -> (map: KeyMap<Json>)
    ensures
        object_view(map) == aligned_entries(object_view(*wanted), object_view(*found)),
    decreases found,
{
    let mut entries: Vec<(String, Json)> = Vec::new();
    let mut i: usize = 0;
    while i < found.entries.len()
        invariant
            i <= found.entries@.len(),
            entries@.len() == i,
            forall|j: int|
                0 <= j < i ==> ((#[trigger] entries@[j]).0@, entries@[j].1@) == aligned_entries(
                    object_view(*wanted),
                    object_view(*found),
                )[j],
        decreases found.entries@.len() - i,
    {
        assert(decreases_to!(found => found.entries@[i as int].1));
        let entry = &found.entries[i];
        proof {
            lemma_lookup_views(wanted@, entry.0@);
            assert(object_view(*found)[i as int] == (entry.0@, entry.1@));
        }
        let value = match wanted.get(entry.0.as_str()) {
            Some(declared) => align(declared, &entry.1),
            None => entry.1.copied(),
        };
        entries.push((entry.0.clone(), value));
        i = i + 1;
    }
    let map = KeyMap { entries: entries };
    assert(object_view(map) =~= aligned_entries(object_view(*wanted), object_view(*found)));
    map
}

fn numbers_equal(a: &Number, b: &Number) -> (r: bool)
    ensures
        r == same_number(a@, b@),
{
    match (a, b) {
        (Number::Float(x), Number::Float(y)) => {
            let s = x.notation();
            let t = y.notation();
            same(s, t) || (is_float_zero(s) && is_float_zero(t))
        },
        (Number::PosInt(m), Number::PosInt(n)) => *m == *n,
        (Number::NegInt(m), Number::NegInt(n)) => *m == *n,
        (Number::PosInt(m), Number::NegInt(n)) => *n >= 0 && *m == *n as u64,
        (Number::NegInt(m), Number::PosInt(n)) => *m >= 0 && *m as u64 == *n,
        _ => false,
    }
}

fn is_float_zero(text: &str) -> (r: bool)
    ensures
        r == float_zero(text@),
{
    same(text, "0.0") || same(text, "-0.0")
}

} // verus!
