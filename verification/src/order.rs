//! A total order on JSON values.

use vstd::prelude::*;

use crate::json::{
    item_views, lemma_array_view, lemma_object_view, object_view, Json, JsonView, Number,
    NumberView,
};
use crate::keymap::KeyMap;
use crate::text::{before, lemma_before_total, lemma_before_transitive, same, text_before};

verus! {

// --- Models -------------------------------------------------------------

/// Where values of different kinds stand among each other.
pub open spec fn rank(value: JsonView) -> int {
    match value {
        JsonView::Null => 0,
        JsonView::Bool(_) => 1,
        JsonView::Number(_) => 2,
        JsonView::String(_) => 3,
        JsonView::Array(_) => 4,
        JsonView::Object(_) => 5,
    }
}

/// The order of numbers: the integers by their value, then the floats by their
/// notation.
pub open spec fn number_before(a: NumberView, b: NumberView) -> bool {
    match (a, b) {
        (NumberView::Int(m), NumberView::Int(n)) => m < n,
        (NumberView::Float(s), NumberView::Float(t)) => text_before(s, t),
        (NumberView::Int(_), NumberView::Float(_)) => true,
        (NumberView::Float(_), NumberView::Int(_)) => false,
    }
}

/// The order of values: by their kind, and values of one kind by what they
/// hold. Arrays and objects are ordered by their first difference.
pub open spec fn value_before(a: JsonView, b: JsonView) -> bool
    decreases a, 0nat,
{
    match (a, b) {
        (JsonView::Bool(x), JsonView::Bool(y)) => !x && y,
        (JsonView::Number(x), JsonView::Number(y)) => number_before(x, y),
        (JsonView::String(x), JsonView::String(y)) => text_before(x, y),
        (JsonView::Array(x), JsonView::Array(y)) => items_before(x, y, 0),
        (JsonView::Object(x), JsonView::Object(y)) => entries_before(x, y, 0),
        _ => rank(a) < rank(b),
    }
}

/// The order of two arrays that agree on their first `n` items: by the next
/// item in which they differ; a proper prefix comes first.
pub open spec fn items_before(a: Seq<JsonView>, b: Seq<JsonView>, n: nat) -> bool
    decreases a, a.len() - n,
{
    if n >= b.len() {
        false
    } else if n >= a.len() {
        true
    } else if a[n as int] != b[n as int] {
        value_before(a[n as int], b[n as int])
    } else {
        items_before(a, b, n + 1)
    }
}

/// The order of two objects that agree on their first `n` entries: by the next
/// entry in which they differ, its key before its value; a proper prefix comes
/// first.
pub open spec fn entries_before(
    a: Seq<(Seq<char>, JsonView)>,
    b: Seq<(Seq<char>, JsonView)>,
    n: nat,
) -> bool
    decreases a, a.len() - n,
{
    if n >= b.len() {
        false
    } else if n >= a.len() {
        true
    } else if a[n as int].0 != b[n as int].0 {
        text_before(a[n as int].0, b[n as int].0)
    } else if a[n as int].1 != b[n as int].1 {
        value_before(a[n as int].1, b[n as int].1)
    } else {
        entries_before(a, b, n + 1)
    }
}

// --- The order is total -------------------------------------------------------

/// No value comes before itself, and of two different values one comes before
/// the other, not both.
pub proof fn lemma_value_total(a: JsonView, b: JsonView)
    ensures
        a == b ==> !value_before(a, b),
        a != b ==> (value_before(a, b) <==> !value_before(b, a)),
    decreases a, 0nat,
{
    match (a, b) {
        (JsonView::Number(NumberView::Float(s)), JsonView::Number(NumberView::Float(t))) => {
            lemma_before_total(s, t);
        },
        (JsonView::String(s), JsonView::String(t)) => {
            lemma_before_total(s, t);
        },
        (JsonView::Array(x), JsonView::Array(y)) => {
            lemma_items_total(x, y, 0);
        },
        (JsonView::Object(x), JsonView::Object(y)) => {
            lemma_entries_total(x, y, 0);
        },
        _ => {},
    }
}

proof fn lemma_items_total(a: Seq<JsonView>, b: Seq<JsonView>, n: nat)
    requires
        n <= a.len(),
        n <= b.len(),
        forall|i: int| 0 <= i < n ==> a[i] == b[i],
    ensures
        a == b ==> !items_before(a, b, n),
        a != b ==> (items_before(a, b, n) <==> !items_before(b, a, n)),
    decreases a, a.len() - n,
{
    if n < a.len() && n < b.len() {
        if a[n as int] == b[n as int] {
            lemma_items_total(a, b, n + 1);
        } else {
            lemma_value_total(a[n as int], b[n as int]);
        }
    } else if a.len() == b.len() {
        assert(a =~= b);
    }
}

proof fn lemma_entries_total(
    a: Seq<(Seq<char>, JsonView)>,
    b: Seq<(Seq<char>, JsonView)>,
    n: nat,
)
    requires
        n <= a.len(),
        n <= b.len(),
        forall|i: int| 0 <= i < n ==> a[i] == b[i],
    ensures
        a == b ==> !entries_before(a, b, n),
        a != b ==> (entries_before(a, b, n) <==> !entries_before(b, a, n)),
    decreases a, a.len() - n,
{
    if n < a.len() && n < b.len() {
        let (x, y) = (a[n as int], b[n as int]);
        if x.0 != y.0 {
            lemma_before_total(x.0, y.0);
        } else if x.1 != y.1 {
            assert(decreases_to!(a => a[n as int].1));
            lemma_value_total(x.1, y.1);
        } else {
            lemma_entries_total(a, b, n + 1);
        }
    } else if a.len() == b.len() {
        assert(a =~= b);
    }
}

/// The order of values is transitive.
pub proof fn lemma_value_transitive(a: JsonView, b: JsonView, c: JsonView)
    requires
        value_before(a, b),
        value_before(b, c),
    ensures
        value_before(a, c),
    decreases a, 0nat,
{
    match (a, b, c) {
        (JsonView::Number(x), JsonView::Number(y), JsonView::Number(z)) => {
            if let (NumberView::Float(s), NumberView::Float(t), NumberView::Float(u)) = (x, y, z) {
                lemma_before_transitive(s, t, u);
            }
        },
        (JsonView::String(s), JsonView::String(t), JsonView::String(u)) => {
            lemma_before_transitive(s, t, u);
        },
        (JsonView::Array(x), JsonView::Array(y), JsonView::Array(z)) => {
            lemma_items_transitive(x, y, z, 0);
        },
        (JsonView::Object(x), JsonView::Object(y), JsonView::Object(z)) => {
            lemma_entries_transitive(x, y, z, 0);
        },
        _ => {},
    }
}

proof fn lemma_items_transitive(
    a: Seq<JsonView>,
    b: Seq<JsonView>,
    c: Seq<JsonView>,
    n: nat,
)
    requires
        items_before(a, b, n),
        items_before(b, c, n),
    ensures
        items_before(a, c, n),
    decreases a, a.len() - n,
{
    if n < a.len() {
        let (x, y, z) = (a[n as int], b[n as int], c[n as int]);
        if x == y && y == z {
            lemma_items_transitive(a, b, c, n + 1);
        } else if x != y && y != z {
            lemma_value_transitive(x, y, z);
            lemma_value_total(x, z);
        }
    }
}

proof fn lemma_entries_transitive(
    a: Seq<(Seq<char>, JsonView)>,
    b: Seq<(Seq<char>, JsonView)>,
    c: Seq<(Seq<char>, JsonView)>,
    n: nat,
)
    requires
        entries_before(a, b, n),
        entries_before(b, c, n),
    ensures
        entries_before(a, c, n),
    decreases a, a.len() - n,
{
    if n < a.len() {
        let (x, y, z) = (a[n as int], b[n as int], c[n as int]);
        if x.0 != y.0 || y.0 != z.0 {
            if x.0 != y.0 && y.0 != z.0 {
                lemma_before_transitive(x.0, y.0, z.0);
                lemma_before_total(x.0, z.0);
            }
        } else if x.1 == y.1 && y.1 == z.1 {
            lemma_entries_transitive(a, b, c, n + 1);
        } else if x.1 != y.1 && y.1 != z.1 {
            assert(decreases_to!(a => a[n as int].1));
            lemma_value_transitive(x.1, y.1, z.1);
            lemma_value_total(x.1, z.1);
        }
    }
}

// --- Operations ----------------------------------------------------------

/// How two values stand to each other.
#[derive(Debug, Clone, Copy, PartialEq, Eq, Structural)]
pub enum Standing {
    Before,
    Same,
    After,
}

/// Whether a standing is the one that an order and an equality say.
pub open spec fn stands(standing: Standing, earlier: bool, equal: bool, later: bool) -> bool {
    match standing {
        Standing::Before => earlier && !equal,
        Standing::Same => equal,
        Standing::After => later && !equal,
    }
}

/// How two texts stand to each other.
fn text_standing(a: &str, b: &str) -> (standing: Standing)
    ensures
        stands(standing, text_before(a@, b@), a@ == b@, text_before(b@, a@)),
{
    proof {
        lemma_before_total(a@, b@);
    }
    if same(a, b) {
        Standing::Same
    } else if before(a, b) {
        Standing::Before
    } else {
        Standing::After
    }
}

/// The value of an integer.
fn integer(number: &Number) -> (value: Option<i128>)
    ensures
        match value {
            Some(n) => number@ == NumberView::Int(n as int),
            None => number@ is Float,
        },
{
    match number {
        Number::PosInt(n) => Some(*n as i128),
        Number::NegInt(n) => Some(*n as i128),
        Number::Float(_) => None,
    }
}

/// How two numbers stand to each other.
fn number_standing(a: &Number, b: &Number) -> (standing: Standing)
    ensures
        stands(standing, number_before(a@, b@), a@ == b@, number_before(b@, a@)),
{
    match (integer(a), integer(b)) {
        (Some(m), Some(n)) => if m < n {
            Standing::Before
        } else if m == n {
            Standing::Same
        } else {
            Standing::After
        },
        (Some(_), None) => Standing::Before,
        (None, Some(_)) => Standing::After,
        (None, None) => match (a, b) {
            (Number::Float(s), Number::Float(t)) => text_standing(s.notation(), t.notation()),
            _ => Standing::Same,
        },
    }
}

/// Where a value stands among values of other kinds.
fn kind(value: &Json) -> (number: u8)
    ensures
        number == rank(value@),
{
    match value {
        Json::Null => 0,
        Json::Bool(_) => 1,
        Json::Number(_) => 2,
        Json::String(_) => 3,
        Json::Array(_) => 4,
        Json::Object(_) => 5,
    }
}

/// How two values stand to each other.
pub fn value_standing(a: &Json, b: &Json) -> (standing: Standing)
    ensures
        stands(standing, value_before(a@, b@), a@ == b@, value_before(b@, a@)),
    decreases a,
{
    match (a, b) {
        (Json::Bool(x), Json::Bool(y)) => if *x == *y {
            Standing::Same
        } else if *y {
            Standing::Before
        } else {
            Standing::After
        },
        (Json::Number(x), Json::Number(y)) => number_standing(x, y),
        (Json::String(x), Json::String(y)) => text_standing(x.as_str(), y.as_str()),
        (Json::Array(x), Json::Array(y)) => {
            proof {
                lemma_array_view(*x);
                lemma_array_view(*y);
            }
            items_standing(x, y)
        },
        (Json::Object(x), Json::Object(y)) => {
            proof {
                lemma_object_view(*x);
                lemma_object_view(*y);
            }
            entries_standing(x, y)
        },
        _ => if kind(a) < kind(b) {
            Standing::Before
        } else if kind(b) < kind(a) {
            Standing::After
        } else {
            Standing::Same
        },
    }
}

fn items_standing(a: &Vec<Json>, b: &Vec<Json>) -> (standing: Standing)
    ensures
        stands(
            standing,
            items_before(item_views(a@), item_views(b@), 0),
            item_views(a@) == item_views(b@),
            items_before(item_views(b@), item_views(a@), 0),
        ),
    decreases a,
{
    let ghost x = item_views(a@);
    let ghost y = item_views(b@);
    let mut i: usize = 0;
    while i < a.len() && i < b.len()
        invariant
            i <= a@.len(),
            i <= b@.len(),
            x == item_views(a@),
            y == item_views(b@),
            forall|j: int| 0 <= j < i ==> x[j] == y[j],
            items_before(x, y, 0) == items_before(x, y, i as nat),
            items_before(y, x, 0) == items_before(y, x, i as nat),
        decreases a@.len() - i,
    {
        assert(decreases_to!(a => a@[i as int]));
        assert(x[i as int] == a@[i as int]@ && y[i as int] == b@[i as int]@);
        let standing = value_standing(&a[i], &b[i]);
        if standing != Standing::Same {
            return standing;
        }
        i = i + 1;
    }
    if i < b.len() {
        Standing::Before
    } else if i < a.len() {
        Standing::After
    } else {
        assert(x =~= y);
        Standing::Same
    }
}

fn entries_standing(a: &KeyMap<Json>, b: &KeyMap<Json>) -> (standing: Standing)
    ensures
        stands(
            standing,
            entries_before(object_view(*a), object_view(*b), 0),
            object_view(*a) == object_view(*b),
            entries_before(object_view(*b), object_view(*a), 0),
        ),
    decreases a,
{
    let ghost x = object_view(*a);
    let ghost y = object_view(*b);
    let mut i: usize = 0;
    while i < a.entries.len() && i < b.entries.len()
        invariant
            i <= a.entries@.len(),
            i <= b.entries@.len(),
            x == object_view(*a),
            y == object_view(*b),
            forall|j: int| 0 <= j < i ==> x[j] == y[j],
            entries_before(x, y, 0) == entries_before(x, y, i as nat),
            entries_before(y, x, 0) == entries_before(y, x, i as nat),
        decreases a.entries@.len() - i,
    {
        assert(decreases_to!(a => a.entries@[i as int].1));
        let first = &a.entries[i];
        let second = &b.entries[i];
        assert(x[i as int] == (first.0@, first.1@) && y[i as int] == (second.0@, second.1@));
        let keys = text_standing(first.0.as_str(), second.0.as_str());
        if keys != Standing::Same {
            return keys;
        }
        let values = value_standing(&first.1, &second.1);
        if values != Standing::Same {
            return values;
        }
        i = i + 1;
    }
    if i < b.entries.len() {
        Standing::Before
    } else if i < a.entries.len() {
        Standing::After
    } else {
        assert(x =~= y);
        Standing::Same
    }
}

} // verus!
