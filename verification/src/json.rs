//! JSON values, and the model that contracts speak of.

use serde_json::Value;
use vstd::prelude::*;

use crate::keymap::{in_order, lookup, with_entry, KeyMap};
use crate::text::texts;

verus! {

/// A JSON number.
#[derive(Debug)]
pub enum Number {
    /// A natural number.
    PosInt(u64),
    /// A negative number.
    NegInt(i64),
    /// A number with a fraction or an exponent.
    Float(FloatText),
}

/// The shortest decimal notation of a floating-point number.
#[derive(Debug)]
pub struct FloatText {
    text: String,
}

/// A JSON value.
#[derive(Debug)]
pub enum Json {
    Null,
    Bool(bool),
    Number(Number),
    String(String),
    Array(Vec<Json>),
    Object(KeyMap<Json>),
}

/// The model of a number: an integer, or the notation of a float.
pub enum NumberView {
    Int(int),
    Float(Seq<char>),
}

/// The model of a JSON value. The entries of an object are in the order of
/// their keys.
pub enum JsonView {
    Null,
    Bool(bool),
    Number(NumberView),
    String(Seq<char>),
    Array(Seq<JsonView>),
    Object(Seq<(Seq<char>, JsonView)>),
}

impl View for FloatText {
    type V = Seq<char>;

    closed spec fn view(&self) -> Seq<char> {
        self.text@
    }
}

impl View for Number {
    type V = NumberView;

    open spec fn view(&self) -> NumberView {
        match self {
            Number::PosInt(n) => NumberView::Int(*n as int),
            Number::NegInt(n) => NumberView::Int(*n as int),
            Number::Float(f) => NumberView::Float(f@),
        }
    }
}

/// The model of a value.
pub open spec fn json_view(json: Json) -> JsonView
    decreases json,
{
    match json {
        Json::Null => JsonView::Null,
        Json::Bool(b) => JsonView::Bool(b),
        Json::Number(n) => JsonView::Number(n@),
        Json::String(s) => JsonView::String(s@),
        Json::Array(items) => JsonView::Array(
            Seq::new(
                items@.len(),
                |i: int|
                    if 0 <= i < items@.len() {
                        json_view(items@[i])
                    } else {
                        JsonView::Null
                    },
            ),
        ),
        Json::Object(map) => JsonView::Object(
            Seq::new(
                map.entries@.len(),
                |i: int|
                    if 0 <= i < map.entries@.len() {
                        (map.entries@[i].0@, json_view(map.entries@[i].1))
                    } else {
                        (Seq::empty(), JsonView::Null)
                    },
            ),
        ),
    }
}

impl View for Json {
    type V = JsonView;

    open spec fn view(&self) -> JsonView {
        json_view(*self)
    }
}

/// The models of a sequence of values.
pub open spec fn item_views(items: Seq<Json>) -> Seq<JsonView> {
    items.map_values(|item: Json| item@)
}

/// The models of some entries.
pub open spec fn entry_views(entries: Seq<(Seq<char>, Json)>) -> Seq<(Seq<char>, JsonView)> {
    entries.map_values(|entry: (Seq<char>, Json)| (entry.0, entry.1@))
}

/// The model of an object.
pub open spec fn object_view(map: KeyMap<Json>) -> Seq<(Seq<char>, JsonView)> {
    entry_views(map@)
}

/// The model of an optional value.
pub open spec fn opt_json(value: Option<Json>) -> Option<JsonView> {
    match value {
        Some(v) => Some(v@),
        None => None,
    }
}

/// An array of strings.
pub open spec fn string_array(strings: Seq<Seq<char>>) -> JsonView {
    JsonView::Array(strings.map_values(|s: Seq<char>| JsonView::String(s)))
}

impl JsonView {
    /// The value of a field; `None` where the value is no object or has no
    /// such field.
    pub open spec fn field(self, key: Seq<char>) -> Option<JsonView> {
        match self {
            JsonView::Object(entries) => lookup(entries, key),
            _ => None,
        }
    }

    /// Whether every object in the value has its keys in order, each once.
    pub open spec fn wf(self) -> bool
        decreases self,
    {
        match self {
            JsonView::Array(items) => forall|i: int|
                0 <= i < items.len() ==> (#[trigger] items[i]).wf(),
            JsonView::Object(entries) => in_order(entries) && forall|i: int|
                0 <= i < entries.len() ==> (#[trigger] entries[i]).1.wf(),
            _ => true,
        }
    }
}

/// The entries as a map holds them once they were put in one after another:
/// each key once, with the value that was put in last.
pub open spec fn gathered(entries: Seq<(Seq<char>, JsonView)>) -> Seq<(Seq<char>, JsonView)>
    decreases entries.len(),
{
    if entries.len() == 0 {
        entries
    } else {
        with_entry(gathered(entries.drop_last()), entries.last().0, entries.last().1)
    }
}

/// A value with the entries of every object gathered. A well-formed value is
/// its own normal form.
pub open spec fn normal(value: JsonView) -> JsonView
    decreases value,
{
    match value {
        JsonView::Array(items) => JsonView::Array(normal_items(items)),
        JsonView::Object(entries) => JsonView::Object(gathered(normal_entries(entries))),
        _ => value,
    }
}

/// The normal forms of some items.
pub open spec fn normal_items(items: Seq<JsonView>) -> Seq<JsonView>
    decreases items,
{
    Seq::new(
        items.len(),
        |i: int|
            if 0 <= i < items.len() {
                normal(items[i])
            } else {
                JsonView::Null
            },
    )
}

/// The entries with the normal forms of their values.
pub open spec fn normal_entries(entries: Seq<(Seq<char>, JsonView)>) -> Seq<(Seq<char>, JsonView)>
    decreases entries,
{
    Seq::new(
        entries.len(),
        |i: int|
            if 0 <= i < entries.len() {
                (entries[i].0, normal(entries[i].1))
            } else {
                (Seq::empty(), JsonView::Null)
            },
    )
}

/// The compact JSON notation of a value.
pub open spec fn compact(value: JsonView) -> Seq<char> {
    notation(normal(value))
}

/// Whether two numbers are equal. Integers and floats are apart; the two
/// zeros of floating point are one number.
pub open spec fn same_number(a: NumberView, b: NumberView) -> bool {
    match (a, b) {
        (NumberView::Int(m), NumberView::Int(n)) => m == n,
        (NumberView::Float(s), NumberView::Float(t)) => s == t || (float_zero(s) && float_zero(t)),
        _ => false,
    }
}

/// The notations of the floating-point zeros.
pub open spec fn float_zero(text: Seq<char>) -> bool {
    text == "0.0"@ || text == "-0.0"@
}

// --- The outside JSON crate -----------------------------------------------

/// `serde_json::Value`, carried from one call of the crate to the next.
#[verifier::external_type_specification]
#[verifier::external_body]
pub struct ExValue(serde_json::Value);

/// What a `serde_json::Value` holds.
pub uninterp spec fn value_view(value: Value) -> JsonView;

/// What `serde_json::from_str` reads a text as; `None` where it is no JSON.
pub uninterp spec fn parsed(text: Seq<char>) -> Option<JsonView>;

/// The compact JSON notation that `serde_json::to_string` gives a value.
pub uninterp spec fn notation(value: JsonView) -> Seq<char>;

/// `serde_json::from_str` for a `serde_json::Value`: the value that the text
/// denotes, or `None` where the text is no JSON document. Which value that is
/// depends on the text alone.
#[verifier::external_body]
fn read_value(text: &str) -> (value: Option<Value>)
    ensures
        match value {
            Some(v) => parsed(text@) == Some(value_view(v)),
            None => parsed(text@) is None,
        },
{
    serde_json::from_str::<Value>(text).ok()
}

/// `serde_json::to_string` of a `serde_json::Value`: its compact notation,
/// which depends on what the value holds alone. A value holds no key that is
/// not a string, so that the call does not fail.
#[verifier::external_body]
fn write_value(value: &Value) -> (text: String)
    ensures
        text@ == notation(value_view(*value)),
{
    serde_json::to_string(value).unwrap_or_default()
}

/// Takes a `serde_json::Value` apart, variant by variant: the result holds
/// what the value holds. `serde_json::Map` keeps each key once and hands out
/// its entries in the order of their keys.
#[verifier::external_body]
fn from_value(value: &Value) -> (json: Json)
    ensures
        json@ == value_view(*value),
        json@.wf(),
{
    match value {
        Value::Null => Json::Null,
        Value::Bool(b) => Json::Bool(*b),
        Value::Number(n) => Json::Number(match (n.as_u64(), n.as_i64()) {
            (Some(u), _) => Number::PosInt(u),
            (_, Some(i)) => Number::NegInt(i),
            _ => Number::Float(FloatText { text: n.to_string() })
        }),
        Value::String(s) => Json::String(s.clone()),
        Value::Array(items) => Json::Array(items.iter().map(from_value).collect()),
        Value::Object(map) => Json::Object(KeyMap {
            entries: map.iter().map(|(k, v)| (k.clone(), from_value(v))).collect()
        })
    }
}

/// Builds a `serde_json::Value`, variant by variant: it holds the normal form
/// of what `json` holds, for `serde_json::Map` keeps its entries in the order
/// of their keys, and of two entries with one key the later. The notation of a
/// float reads back as the same float.
#[verifier::external_body]
fn to_value(json: &Json) -> (value: Value)
    ensures
        value_view(value) == normal(json@),
{
    match json {
        Json::Null => Value::Null,
        Json::Bool(b) => Value::Bool(*b),
        Json::Number(Number::PosInt(n)) => Value::from(*n),
        Json::Number(Number::NegInt(n)) => Value::from(*n),
        Json::Number(Number::Float(f)) => f.text.parse().unwrap_or_default(),
        Json::String(s) => Value::String(s.clone()),
        Json::Array(items) => Value::Array(items.iter().map(to_value).collect()),
        Json::Object(map) => Value::Object(
            map.entries.iter().map(|entry| (entry.0.clone(), to_value(&entry.1))).collect(),
        ),
    }
}

// --- Operations -------------------------------------------------------------

/// The model of an array is the sequence of the models of its items.
pub proof fn lemma_array_view(items: Vec<Json>)
    ensures
        Json::Array(items)@ == JsonView::Array(item_views(items@)),
{
    assert(Json::Array(items)@->Array_0 =~= item_views(items@));
}

/// The model of an object is the sequence of the models of its entries.
pub proof fn lemma_object_view(map: KeyMap<Json>)
    ensures
        Json::Object(map)@ == JsonView::Object(object_view(map)),
{
    assert(Json::Object(map)@->Object_0 =~= object_view(map));
}

/// Looking a key up and taking the model can change places.
pub proof fn lemma_lookup_views(entries: Seq<(Seq<char>, Json)>, key: Seq<char>)
    ensures
        lookup(entry_views(entries), key) == opt_json(lookup(entries, key)),
    decreases entries.len(),
{
    if entries.len() > 0 {
        lemma_lookup_views(entries.drop_first(), key);
        assert(entry_views(entries).drop_first() == entry_views(entries.drop_first()));
    }
}

/// Putting an entry in and taking the model can change places.
pub proof fn lemma_with_entry_views(
    entries: Seq<(Seq<char>, Json)>,
    key: Seq<char>,
    value: Json,
)
    ensures
        entry_views(with_entry(entries, key, value)) == with_entry(
            entry_views(entries),
            key,
            value@,
        ),
    decreases entries.len(),
{
    if entries.len() > 0 {
        lemma_with_entry_views(entries.drop_first(), key, value);
        assert(entry_views(entries).drop_first() == entry_views(entries.drop_first()));
        assert(entry_views(entries)[0].0 == entries[0].0);
    }
    assert(entry_views(with_entry(entries, key, value)) =~= with_entry(
        entry_views(entries),
        key,
        value@,
    ));
}

impl FloatText {
    /// The decimal notation of the number.
    pub fn notation(&self) -> (text: &str)
        ensures
            text@ == self@,
    {
        self.text.as_str()
    }
}

impl Clone for Number {
    fn clone(&self) -> (copy: Self)
        ensures
            copy@ == self@,
    {
        match self {
            Number::PosInt(n) => Number::PosInt(*n),
            Number::NegInt(n) => Number::NegInt(*n),
            Number::Float(f) => Number::Float(FloatText { text: f.text.clone() }),
        }
    }
}

impl Json {
    /// A copy of the value.
    pub fn copied(&self) -> (copy: Json)
        ensures
            copy@ == self@,
        decreases self,
    {
        match self {
            Json::Null => Json::Null,
            Json::Bool(b) => Json::Bool(*b),
            Json::Number(n) => Json::Number(n.clone()),
            Json::String(s) => Json::String(s.clone()),
            Json::Array(items) => {
                let copy = clone_items(items);
                proof {
                    lemma_array_view(*items);
                    lemma_array_view(copy);
                }
                Json::Array(copy)
            },
            Json::Object(map) => {
                let copy = clone_object(map);
                proof {
                    lemma_object_view(*map);
                    lemma_object_view(copy);
                }
                Json::Object(copy)
            },
        }
    }
}

impl Clone for Json {
    fn clone(&self) -> (copy: Self)
        ensures
            copy@ == self@,
    {
        self.copied()
    }
}

/// A copy of a list of values.
pub fn clone_items(items: &Vec<Json>) -> (copies: Vec<Json>)
    ensures
        item_views(copies@) == item_views(items@),
    decreases items,
{
    let mut copies: Vec<Json> = Vec::new();
    let mut i: usize = 0;
    while i < items.len()
        invariant
            i <= items@.len(),
            copies@.len() == i,
            forall|j: int| 0 <= j < i ==> (#[trigger] copies@[j])@ == items@[j]@,
        decreases items@.len() - i,
    {
        assert(decreases_to!(items => items@[i as int]));
        copies.push(items[i].copied());
        i = i + 1;
    }
    assert(item_views(copies@) =~= item_views(items@));
    copies
}

/// A copy of an object.
pub fn clone_object(map: &KeyMap<Json>) -> (copy: KeyMap<Json>)
    ensures
        object_view(copy) == object_view(*map),
    decreases map,
{
    let mut entries: Vec<(String, Json)> = Vec::new();
    let mut i: usize = 0;
    while i < map.entries.len()
        invariant
            i <= map.entries@.len(),
            entries@.len() == i,
            forall|j: int|
                0 <= j < i ==> (#[trigger] entries@[j]).0@ == map.entries@[j].0@ && entries@[j].1@
                    == map.entries@[j].1@,
        decreases map.entries@.len() - i,
    {
        assert(decreases_to!(map => map.entries@[i as int].1));
        entries.push((map.entries[i].0.clone(), map.entries[i].1.copied()));
        i = i + 1;
    }
    let copy = KeyMap { entries: entries };
    assert(object_view(copy) =~= object_view(*map));
    copy
}

/// Puts `value` under `key`, in place of the value that is there.
pub fn put(map: &mut KeyMap<Json>, key: &str, value: Json)
    ensures
        object_view(*final(map)) == with_entry(object_view(*old(map)), key@, value@),
        old(map).wf() ==> final(map).wf(),
{
    proof {
        lemma_with_entry_views(map@, key@, value);
    }
    map.insert(key.to_owned(), value);
}

/// Puts one more field into an object whose fields are put in one after
/// another.
pub(crate) fn put_next(
    map: &mut KeyMap<Json>,
    Ghost(fields): Ghost<Seq<(Seq<char>, JsonView)>>,
    key: &str,
    value: Json,
) -> (more: Ghost<Seq<(Seq<char>, JsonView)>>)
    requires
        object_view(*old(map)) == gathered(fields),
        old(map).wf(),
    ensures
        more@ == fields.push((key@, value@)),
        object_view(*final(map)) == gathered(more@),
        final(map).wf(),
{
    assert(fields.push((key@, value@)).drop_last() =~= fields);
    let ghost field = (key@, value@);
    put(map, key, value);
    Ghost(fields.push(field))
}

/// An object without fields.
pub(crate) fn no_object() -> (map: KeyMap<Json>)
    ensures
        object_view(map) == gathered(Seq::empty()),
        map.wf(),
{
    let map = KeyMap::new();
    assert(object_view(map) =~= gathered(Seq::empty()));
    map
}

/// The object of some fields.
pub(crate) fn object(map: KeyMap<Json>, Ghost(fields): Ghost<Seq<(Seq<char>, JsonView)>>) -> (json:
    Json)
    requires
        object_view(map) == gathered(fields),
    ensures
        json@ == JsonView::Object(gathered(fields)),
{
    proof {
        lemma_object_view(map);
    }
    Json::Object(map)
}

/// The array of some strings.
pub fn json_string_list(values: &Vec<String>) -> (json: Json)
    ensures
        json@ == string_array(texts(values@)),
{
    let mut items: Vec<Json> = Vec::new();
    let mut i: usize = 0;
    while i < values.len()
        invariant
            i <= values@.len(),
            items@.len() == i,
            forall|j: int| 0 <= j < i ==> (#[trigger] items@[j])@ == JsonView::String(values@[j]@),
        decreases values@.len() - i,
    {
        items.push(Json::String(values[i].clone()));
        i = i + 1;
    }
    proof {
        lemma_array_view(items);
        assert(item_views(items@) =~= string_array(texts(values@))->Array_0);
    }
    Json::Array(items)
}

impl Json {
    /// The value that a `serde_json::Value` holds.
    pub fn of(value: &Value) -> (json: Json)
        ensures
            json@ == value_view(*value),
            json@.wf(),
    {
        from_value(value)
    }

    /// The value as a `serde_json::Value`.
    pub fn value(&self) -> (value: Value)
        ensures
            value_view(value) == normal(self@),
    {
        to_value(self)
    }

    /// Reads a JSON text.
    pub fn parse(text: &str) -> (json: Option<Json>)
        ensures
            opt_json(json) == parsed(text@),
            json is Some ==> json->0@.wf(),
    {
        match read_value(text) {
            Some(value) => Some(from_value(&value)),
            None => None,
        }
    }

    /// The compact notation of the value.
    pub fn to_text(&self) -> (text: String)
        ensures
            text@ == compact(self@),
    {
        write_value(&to_value(self))
    }

    /// The value of a field; `None` where the value is no object or has no
    /// such field.
    pub fn get(&self, key: &str) -> (field: Option<&Json>)
        ensures
            match field {
                Some(f) => self@.field(key@) == Some(f@),
                None => self@.field(key@) is None,
            },
    {
        match self {
            Json::Object(map) => {
                proof {
                    lemma_object_view(*map);
                    lemma_lookup_views(map@, key@);
                }
                map.get(key)
            },
            _ => None,
        }
    }

    /// The text of a string.
    pub fn as_str(&self) -> (text: Option<&str>)
        ensures
            match text {
                Some(t) => self@ == JsonView::String(t@),
                None => !(self@ is String),
            },
    {
        match self {
            Json::String(s) => Some(s.as_str()),
            _ => None,
        }
    }

    /// The items of an array.
    pub fn as_array(&self) -> (items: Option<&Vec<Json>>)
        ensures
            match items {
                Some(i) => self@ == JsonView::Array(item_views(i@)),
                None => !(self@ is Array),
            },
    {
        match self {
            Json::Array(items) => {
                proof {
                    lemma_array_view(*items);
                }
                Some(items)
            },
            _ => None,
        }
    }

    /// A natural number.
    pub fn as_u64(&self) -> (number: Option<u64>)
        ensures
            match number {
                Some(n) => self@ == JsonView::Number(NumberView::Int(n as int)),
                None => forall|n: int| n >= 0 ==> self@ != JsonView::Number(NumberView::Int(n)),
            },
    {
        match self {
            Json::Number(Number::PosInt(n)) => Some(*n),
            Json::Number(Number::NegInt(n)) => if *n >= 0 {
                Some(*n as u64)
            } else {
                None
            },
            _ => None,
        }
    }
}

} // verus!
