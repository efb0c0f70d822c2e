//! JSON values as plain values, their mathematical view, and field lookups.
use vstd::prelude::*;
use serde_json::{Number, Value};

verus! {

#[verifier::external_type_specification]
#[verifier::external_body]
pub struct ExSerdeValue(Value);

/// A JSON value. Numbers are held as `serde_json` holds them: non-negative
/// integers, negative integers, and floating-point numbers (by their decimal
/// text). An object holds its entries in order.
pub enum JsonValue {
    Null,
    Bool(bool),
    PosInt(u64),
    NegInt(i64),
    Float(String),
    Str(String),
    Array(Vec<JsonValue>),
    Object(Vec<(String, JsonValue)>),
}

/// The mathematical value of a `JsonValue`.
pub enum JsonView {
    Null,
    Bool(bool),
    PosInt(u64),
    NegInt(i64),
    Float(Seq<char>),
    Str(Seq<char>),
    Array(Seq<JsonView>),
    Object(Seq<(Seq<char>, JsonView)>),
}

pub open spec fn json_view(v: JsonValue) -> JsonView
    decreases v, 0int,
{
    match v {
        JsonValue::Null => JsonView::Null,
        JsonValue::Bool(b) => JsonView::Bool(b),
        JsonValue::PosInt(u) => JsonView::PosInt(u),
        JsonValue::NegInt(i) => JsonView::NegInt(i),
        JsonValue::Float(t) => JsonView::Float(t@),
        JsonValue::Str(s) => JsonView::Str(s@),
        JsonValue::Array(items) => {
            proof {
                assert(decreases_to!(v => items));
                assert(decreases_to!(items => items@));
            }
            JsonView::Array(item_views(items@, items@.len() as int))
        },
        JsonValue::Object(entries) => {
            proof {
                assert(decreases_to!(v => entries));
                assert(decreases_to!(entries => entries@));
            }
            JsonView::Object(entry_views(entries@, entries@.len() as int))
        },
    }
}

/// The views of the first `n` items.
pub open spec fn item_views(items: Seq<JsonValue>, n: int) -> Seq<JsonView>
    decreases items, n,
{
    if n <= 0 || n > items.len() {
        Seq::empty()
    } else {
        proof {
            assert(decreases_to!(items => items[n - 1]));
        }
        item_views(items, n - 1).push(json_view(items[n - 1]))
    }
}

/// The views of the first `n` entries.
pub open spec fn entry_views(entries: Seq<(String, JsonValue)>, n: int) -> Seq<(Seq<char>, JsonView)>
    decreases entries, n,
{
    if n <= 0 || n > entries.len() {
        Seq::empty()
    } else {
        proof {
            assert(decreases_to!(entries => entries[n - 1]));
            assert(decreases_to!(entries[n - 1] => entries[n - 1].1));
        }
        entry_views(entries, n - 1).push((entries[n - 1].0@, json_view(entries[n - 1].1)))
    }
}

/// The views of the first `n` items, element by element.
pub proof fn lemma_item_views(items: Seq<JsonValue>, n: int)
    requires
        0 <= n <= items.len(),
    ensures
        item_views(items, n).len() == n,
        forall|i: int| 0 <= i < n ==> #[trigger] item_views(items, n)[i] == json_view(items[i]),
    decreases n,
{
    if n > 0 {
        lemma_item_views(items, n - 1);
    }
}

/// The views of the first `n` entries, entry by entry.
pub proof fn lemma_entry_views(entries: Seq<(String, JsonValue)>, n: int)
    requires
        0 <= n <= entries.len(),
    ensures
        entry_views(entries, n).len() == n,
        forall|i: int|
            0 <= i < n ==> #[trigger] entry_views(entries, n)[i] == (entries[i].0@, json_view(entries[i].1)),
    decreases n,
{
    if n > 0 {
        lemma_entry_views(entries, n - 1);
    }
}

/// The value of the first entry named `key`.
pub open spec fn entry_lookup(entries: Seq<(String, JsonValue)>, key: Seq<char>) -> Option<JsonValue>
    decreases entries.len(),
{
    if entries.len() == 0 {
        None
    } else if entries[0].0@ == key {
        Some(entries[0].1)
    } else {
        entry_lookup(entries.drop_first(), key)
    }
}

/// `Value::get`: the field `key` of an object; nothing for other values.
pub open spec fn get_field(v: JsonValue, key: Seq<char>) -> Option<JsonValue> {
    match v {
        JsonValue::Object(entries) => entry_lookup(entries@, key),
        _ => None,
    }
}

/// The field `key`, when it is a string.
pub open spec fn str_field(v: JsonValue, key: Seq<char>) -> Option<Seq<char>> {
    match get_field(v, key) {
        Some(JsonValue::Str(s)) => Some(s@),
        _ => None,
    }
}

/// The field `key`, when it is a non-negative integer (`Value::as_u64`).
pub open spec fn u64_field(v: JsonValue, key: Seq<char>) -> Option<u64> {
    match get_field(v, key) {
        Some(JsonValue::PosInt(u)) => Some(u),
        _ => None,
    }
}

/// The entries of the field `key` when it is an object; none otherwise.
pub open spec fn object_field(v: JsonValue, key: Seq<char>) -> Seq<(String, JsonValue)> {
    match get_field(v, key) {
        Some(JsonValue::Object(entries)) => entries@,
        _ => Seq::empty(),
    }
}

/// Finds the first entry named `key`.
pub fn find_entry<'a>(entries: &'a Vec<(String, JsonValue)>, key: &str) -> (r: Option<&'a JsonValue>)
    ensures
        match r {
            Some(x) => entry_lookup(entries@, key@) == Some(*x),
            None => entry_lookup(entries@, key@) is None,
        },
{
    let mut i: usize = 0;
    assert(entries@.subrange(0, entries@.len() as int) =~= entries@);
    while i < entries.len()
        invariant
            i <= entries@.len(),
            entry_lookup(entries@, key@) == entry_lookup(entries@.subrange(i as int, entries@.len() as int), key@),
        decreases entries@.len() - i,
    {
        let ghost rest = entries@.subrange(i as int, entries@.len() as int);
        assert(rest[0] == entries@[i as int]);
        if crate::text::str_eq(entries[i].0.as_str(), key) {
            return Some(&entries[i].1);
        }
        assert(rest.drop_first() =~= entries@.subrange(i + 1, entries@.len() as int));
        i = i + 1;
    }
    None
}

/// `Value::get`.
pub fn get<'a>(v: &'a JsonValue, key: &str) -> (r: Option<&'a JsonValue>)
    ensures
        match r {
            Some(x) => get_field(*v, key@) == Some(*x),
            None => get_field(*v, key@) is None,
        },
{
    match v {
        JsonValue::Object(entries) => find_entry(entries, key),
        _ => None,
    }
}

/// The string field `key`.
pub fn get_str<'a>(v: &'a JsonValue, key: &str) -> (r: Option<&'a String>)
    ensures
        match r {
            Some(s) => str_field(*v, key@) == Some(s@),
            None => str_field(*v, key@) is None,
        },
{
    match get(v, key) {
        Some(JsonValue::Str(s)) => Some(s),
        _ => None,
    }
}

/// The non-negative integer field `key`.
pub fn get_u64(v: &JsonValue, key: &str) -> (r: Option<u64>)
    ensures
        r == u64_field(*v, key@),
{
    match get(v, key) {
        Some(JsonValue::PosInt(u)) => Some(*u),
        _ => None,
    }
}

/// The entries of the object field `key` (none when absent or not an object).
pub fn get_object<'a>(v: &'a JsonValue, key: &str) -> (r: Option<&'a Vec<(String, JsonValue)>>)
    ensures
        match r {
            Some(e) => get_field(*v, key@) == Some(JsonValue::Object(*e)),
            None => !(get_field(*v, key@) matches Some(JsonValue::Object(_))),
        },
{
    match get(v, key) {
        Some(JsonValue::Object(entries)) => Some(entries),
        _ => None,
    }
}

/// The compact text `serde_json` writes for a value.
pub uninterp spec fn json_text(v: JsonView) -> Seq<char>;

/// Conversion of a value to `serde_json::Value`, part of `compact_json_text`:
/// variant by variant (a float is read from its text by `Number`'s `FromStr`;
/// a text it refuses becomes `null`).
#[verifier::external_body]
fn to_serde_value(v: &JsonValue) -> Value {
    match v {
        JsonValue::Null => Value::Null,
        JsonValue::Bool(b) => Value::Bool(*b),
        JsonValue::PosInt(u) => Value::Number(Number::from(*u)),
        JsonValue::NegInt(i) => Value::Number(Number::from(*i)),
        JsonValue::Float(text) => text.parse::<Number>().map_or(Value::Null, Value::Number),
        JsonValue::Str(s) => Value::String(s.clone()),
        JsonValue::Array(items) => Value::Array(items.iter().map(to_serde_value).collect()),
        JsonValue::Object(entries) => Value::Object(entries.iter().map(|(k, x)| (k.clone(), to_serde_value(x))).collect()),
    }
}

/// `Value::to_string` (`serde_json`'s compact writer) on the value, named by
/// `json_text`; `null` is written `null`.
#[verifier::external_body]
pub(crate) fn compact_json_text(v: &JsonValue) -> (r: String)
    ensures
        r@ == json_text(json_view(*v)),
        *v is Null ==> r@ == "null"@,
{
    to_serde_value(v).to_string()
}

/// Conversion of a `serde_json::Value` to a `JsonValue`, part of
/// `parse_json_text` and of the wrappers that read `serde_json` output:
/// variant by variant; a number `as_u64` reads is non-negative, else one
/// `as_i64` reads is negative, else a float held as the text `Number` prints;
/// object entries in the map's order.
#[verifier::external_body]
pub(crate) fn from_serde_value(v: &Value) -> JsonValue {
    match v {
        Value::Null => JsonValue::Null,
        Value::Bool(b) => JsonValue::Bool(*b),
        Value::Number(n) => match (n.as_u64(), n.as_i64()) {
            (Some(u), _) => JsonValue::PosInt(u),
            (None, Some(i)) => JsonValue::NegInt(i),
            (None, None) => JsonValue::Float(n.to_string()),
        },
        Value::String(s) => JsonValue::Str(s.clone()),
        Value::Array(items) => JsonValue::Array(items.iter().map(from_serde_value).collect()),
        Value::Object(m) => JsonValue::Object(m.iter().map(|(k, x)| (k.clone(), from_serde_value(x))).collect()),
    }
}

/// What `serde_json::from_str` reads from a text: the value, or the text of
/// its error.
pub uninterp spec fn parsed_json(text: Seq<char>) -> Result<JsonView, Seq<char>>;

/// `serde_json::from_str::<Value>`, named by `parsed_json`; an error is given
/// by its `to_string`.
#[verifier::external_body]
pub(crate) fn parse_json_text(text: &str) -> (r: Result<JsonValue, String>)
    ensures
        match r {
            Ok(v) => parsed_json(text@) == Ok::<JsonView, Seq<char>>(json_view(v)),
            Err(e) => parsed_json(text@) == Err::<JsonView, Seq<char>>(e@),
        },
{
    match serde_json::from_str::<Value>(text) {
        Ok(v) => Ok(from_serde_value(&v)),
        Err(e) => Err(e.to_string()),
    }
}

/// The views of all the entries of an object.
pub open spec fn entries_view(entries: Seq<(String, JsonValue)>) -> Seq<(Seq<char>, JsonView)> {
    entry_views(entries, entries.len() as int)
}

/// The position of the first entry named `key`.
pub open spec fn view_key_index(entries: Seq<(Seq<char>, JsonView)>, key: Seq<char>) -> Option<int>
    decreases entries.len(),
{
    if entries.len() == 0 {
        None
    } else if entries[0].0 == key {
        Some(0)
    } else {
        match view_key_index(entries.drop_first(), key) {
            Some(i) => Some(i + 1),
            None => None,
        }
    }
}

/// The value of the first entry named `key`.
pub open spec fn view_lookup(entries: Seq<(Seq<char>, JsonView)>, key: Seq<char>) -> Option<JsonView> {
    match view_key_index(entries, key) {
        Some(i) => Some(entries[i].1),
        None => None,
    }
}

/// `Map::insert` on an object's entries: the entry named `key` takes `value`
/// in its place, or a new entry is added at the end.
pub open spec fn set_entry_spec(entries: Seq<(Seq<char>, JsonView)>, key: Seq<char>, value: JsonView) -> Seq<
    (Seq<char>, JsonView),
> {
    match view_key_index(entries, key) {
        Some(i) => entries.update(i, (key, value)),
        None => entries.push((key, value)),
    }
}

/// The entries of `added` set one after the other (`Map::extend`).
pub open spec fn set_entries_spec(
    entries: Seq<(Seq<char>, JsonView)>,
    added: Seq<(Seq<char>, JsonView)>,
) -> Seq<(Seq<char>, JsonView)>
    decreases added.len(),
{
    if added.len() == 0 {
        entries
    } else {
        set_entry_spec(set_entries_spec(entries, added.drop_last()), added.last().0, added.last().1)
    }
}

pub proof fn lemma_view_key_index(entries: Seq<(Seq<char>, JsonView)>, key: Seq<char>)
    ensures
        view_key_index(entries, key) matches Some(i) ==> 0 <= i < entries.len() && entries[i].0 == key,
    decreases entries.len(),
{
    if entries.len() > 0 && entries[0].0 != key {
        lemma_view_key_index(entries.drop_first(), key);
    }
}

/// The position of the first entry named `key` (see `view_key_index`).
pub fn entry_position(entries: &Vec<(String, JsonValue)>, key: &str) -> (r: Option<usize>)
    ensures
        match r {
            Some(i) => view_key_index(entries_view(entries@), key@) == Some(i as int),
            None => view_key_index(entries_view(entries@), key@) is None,
        },
{
    let ghost ev = entries_view(entries@);
    proof {
        lemma_entry_views(entries@, entries@.len() as int);
    }
    let mut i: usize = 0;
    assert(ev.subrange(0, ev.len() as int) =~= ev);
    while i < entries.len()
        invariant
            i <= entries@.len(),
            ev == entries_view(entries@),
            ev.len() == entries@.len(),
            forall|k: int| 0 <= k < entries@.len() ==> #[trigger] ev[k] == (entries@[k].0@, json_view(entries@[k].1)),
            view_key_index(ev, key@) == match view_key_index(ev.subrange(i as int, ev.len() as int), key@) {
                Some(j) => Some(j + i),
                None => None,
            },
        decreases entries@.len() - i,
    {
        let ghost rest = ev.subrange(i as int, ev.len() as int);
        assert(rest[0] == ev[i as int]);
        assert(rest.drop_first() =~= ev.subrange(i + 1, ev.len() as int));
        if crate::text::str_eq(entries[i].0.as_str(), key) {
            return Some(i);
        }
        i = i + 1;
    }
    None
}

/// Sets the entry named `key` to `value` (see `set_entry_spec`).
pub fn set_entry(entries: &mut Vec<(String, JsonValue)>, key: &str, value: JsonValue)
    ensures
        entries_view(final(entries)@) == set_entry_spec(entries_view(old(entries)@), key@, json_view(value)),
{
    let ghost before = entries_view(entries@);
    let ghost vv = json_view(value);
    proof {
        lemma_entry_views(entries@, entries@.len() as int);
        lemma_view_key_index(before, key@);
    }
    match entry_position(entries, key) {
        Some(i) => {
            entries.set(i, (String::from_str(key), value));
            proof {
                lemma_entry_views(entries@, entries@.len() as int);
            }
            assert(entries_view(entries@) =~= before.update(i as int, (key@, vv)));
        },
        None => {
            entries.push((String::from_str(key), value));
            proof {
                lemma_entry_views(entries@, entries@.len() as int);
            }
            assert(entries_view(entries@) =~= before.push((key@, vv)));
        },
    }
}

} // verus!
