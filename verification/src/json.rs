//! A JSON value model: what the glove and audit logic read of a JSON
//! document, held as plain values.
//!
//! Objects keep their members in a vector with pairwise distinct keys;
//! [`members_insert_exec`] replaces the value of an existing key in place and
//! appends a new key at the end.
use vstd::prelude::*;
use crate::text::{chars_eq, chars_of};

verus! {

/// A JSON number: a non-negative integer, a negative integer, or a number
/// that is neither (kept in its decimal text form).
#[derive(Debug, Clone, PartialEq, Eq)]
pub enum JsonNumber {
    /// An integer `>= 0`.
    PosInt(u64),
    /// An integer `< 0`.
    NegInt(i64),
    /// Any other number, as written.
    Float(String),
}

/// A JSON value.
#[derive(Debug, PartialEq, Eq)]
pub enum JsonValue {
    Null,
    Bool(bool),
    Number(JsonNumber),
    String(String),
    Array(Vec<JsonValue>),
    Object(Vec<(String, JsonValue)>),
}

/// The mathematical content of a JSON value.
pub enum JsonView {
    Null,
    Bool(bool),
    PosInt(u64),
    NegInt(i64),
    Float(Seq<char>),
    Str(Seq<char>),
    Arr(Seq<JsonView>),
    Obj(Seq<(Seq<char>, JsonView)>),
}

/// The view of one JSON value.
pub open spec fn json_view(v: JsonValue) -> JsonView
    decreases v,
{
    match v {
        JsonValue::Null => JsonView::Null,
        JsonValue::Bool(b) => JsonView::Bool(b),
        JsonValue::Number(JsonNumber::PosInt(n)) => JsonView::PosInt(n),
        JsonValue::Number(JsonNumber::NegInt(n)) => JsonView::NegInt(n),
        JsonValue::Number(JsonNumber::Float(s)) => JsonView::Float(s@),
        JsonValue::String(s) => JsonView::Str(s@),
        JsonValue::Array(items) => JsonView::Arr(
            Seq::new(
                items@.len(),
                |i: int|
                    if 0 <= i < items@.len() {
                        json_view(items@[i])
                    } else {
                        JsonView::Null
                    },
            ),
        ),
        JsonValue::Object(es) => JsonView::Obj(
            Seq::new(
                es@.len(),
                |i: int|
                    if 0 <= i < es@.len() {
                        (es@[i].0@, json_view(es@[i].1))
                    } else {
                        (Seq::empty(), JsonView::Null)
                    },
            ),
        ),
    }
}

impl View for JsonValue {
    type V = JsonView;

    open spec fn view(&self) -> JsonView {
        json_view(*self)
    }
}

/// The views of an object's members.
pub open spec fn members_view(entries: Seq<(String, JsonValue)>) -> Seq<(Seq<char>, JsonView)> {
    Seq::new(entries.len(), |i: int| (entries[i].0@, entries[i].1@))
}

/// The keys of an object's members are pairwise distinct.
pub open spec fn keys_distinct(entries: Seq<(Seq<char>, JsonView)>) -> bool {
    forall|i: int, j: int|
        0 <= i < entries.len() && 0 <= j < entries.len() && i != j ==> (#[trigger] entries[i]).0
            != (#[trigger] entries[j]).0
}

/// The index of the member with key `key` at or after `i` (or `entries.len()`).
pub open spec fn key_index_from(entries: Seq<(Seq<char>, JsonView)>, key: Seq<char>, i: int) -> int
    decreases entries.len() - i,
{
    if i < 0 || i >= entries.len() {
        entries.len() as int
    } else if entries[i].0 == key {
        i
    } else {
        key_index_from(entries, key, i + 1)
    }
}

/// The index of the member with key `key` (or `entries.len()` if there is none).
pub open spec fn key_index(entries: Seq<(Seq<char>, JsonView)>, key: Seq<char>) -> int {
    key_index_from(entries, key, 0)
}

/// The value stored under `key` in an object's members.
pub open spec fn member(entries: Seq<(Seq<char>, JsonView)>, key: Seq<char>) -> Option<JsonView> {
    let k = key_index(entries, key);
    if 0 <= k < entries.len() {
        Some(entries[k].1)
    } else {
        None
    }
}

/// An object's members contain `key`.
pub open spec fn has_member(entries: Seq<(Seq<char>, JsonView)>, key: Seq<char>) -> bool {
    exists|i: int| 0 <= i < entries.len() && (#[trigger] entries[i]).0 == key
}

/// The value of `key` in `v`, if `v` is an object holding it (as `serde_json::Value::get`).
pub open spec fn value_get(v: JsonView, key: Seq<char>) -> Option<JsonView> {
    match v {
        JsonView::Obj(entries) => member(entries, key),
        _ => None,
    }
}

/// The members after `insert(key, value)`: replaced in place when present, appended otherwise.
pub open spec fn members_insert(
    entries: Seq<(Seq<char>, JsonView)>,
    key: Seq<char>,
    value: JsonView,
) -> Seq<(Seq<char>, JsonView)> {
    let k = key_index(entries, key);
    if 0 <= k < entries.len() {
        entries.update(k, (key, value))
    } else {
        entries.push((key, value))
    }
}

/// A whole number (what `serde_json` reports as `i64` or `u64`).
pub open spec fn is_integer_view(v: JsonView) -> bool {
    v is PosInt || v is NegInt
}

/// A number.
pub open spec fn is_number_view(v: JsonView) -> bool {
    v is PosInt || v is NegInt || v is Float
}

/// The JSON type name of a value (`integer` for whole numbers).
pub open spec fn type_name_of(v: JsonView) -> Seq<char> {
    match v {
        JsonView::Null => "null"@,
        JsonView::Bool(_) => "boolean"@,
        JsonView::PosInt(_) => "integer"@,
        JsonView::NegInt(_) => "integer"@,
        JsonView::Float(_) => "number"@,
        JsonView::Str(_) => "string"@,
        JsonView::Arr(_) => "array"@,
        JsonView::Obj(_) => "object"@,
    }
}

proof fn lemma_key_index_from(entries: Seq<(Seq<char>, JsonView)>, key: Seq<char>, i: int)
    requires
        0 <= i <= entries.len(),
    ensures
        i <= key_index_from(entries, key, i) <= entries.len(),
        key_index_from(entries, key, i) < entries.len() ==> entries[key_index_from(
            entries,
            key,
            i,
        )].0 == key,
        forall|k: int| i <= k < key_index_from(entries, key, i) ==> entries[k].0 != key,
    decreases entries.len() - i,
{
    if i < entries.len() && entries[i].0 != key {
        lemma_key_index_from(entries, key, i + 1);
    }
}

/// `key_index` finds the first member with the key, and only misses when there is none.
pub proof fn lemma_key_index(entries: Seq<(Seq<char>, JsonView)>, key: Seq<char>)
    ensures
        0 <= key_index(entries, key) <= entries.len(),
        key_index(entries, key) < entries.len() ==> entries[key_index(entries, key)].0 == key,
        forall|k: int| 0 <= k < key_index(entries, key) ==> entries[k].0 != key,
        (key_index(entries, key) < entries.len()) == has_member(entries, key),
{
    lemma_key_index_from(entries, key, 0);
}

/// Reading an object member back after setting it gives the value just
/// set; every other key reads as before.
pub proof fn law_member_after_insert(
    entries: Seq<(Seq<char>, JsonView)>,
    key: Seq<char>,
    value: JsonView,
    other: Seq<char>,
)
    requires
        other != key,
    ensures
        member(members_insert(entries, key, value), key) == Some(value),
        member(members_insert(entries, key, value), other) == member(entries, other),
{
    let e2 = members_insert(entries, key, value);
    lemma_key_index(entries, key);
    lemma_key_index(entries, other);
    lemma_key_index(e2, key);
    lemma_key_index(e2, other);
    let k = key_index(entries, key);
    let ko = key_index(entries, other);
    if k < entries.len() {
        assert(e2[k].0 == key);
        assert(forall|j: int| 0 <= j < k ==> e2[j] == entries[j]);
        assert(key_index(e2, key) == k);
        if ko < entries.len() {
            assert(ko != k);
            assert(e2[ko] == entries[ko]);
            assert(forall|j: int| 0 <= j < ko ==> e2[j].0 != other);
            assert(key_index(e2, other) == ko);
        } else {
            assert(forall|j: int| 0 <= j < e2.len() ==> e2[j].0 != other);
            assert(key_index(e2, other) >= e2.len());
        }
    } else {
        assert(e2[entries.len() as int].0 == key);
        assert(forall|j: int| 0 <= j < entries.len() ==> e2[j] == entries[j]);
        assert(key_index(e2, key) == entries.len());
        if ko < entries.len() {
            assert(e2[ko] == entries[ko]);
            assert(key_index(e2, other) == ko);
        } else {
            assert(forall|j: int| 0 <= j < e2.len() ==> e2[j].0 != other);
            assert(key_index(e2, other) >= e2.len());
        }
    }
}

/// The view of an object value is its members' views.
pub proof fn lemma_object_view(v: JsonValue)
    requires
        v is Object,
    ensures
        v@ == JsonView::Obj(members_view(v->Object_0@)),
{
    assert(json_view(v)->Obj_0 =~= members_view(v->Object_0@));
}

/// The view of an array value is its elements' views.
pub proof fn lemma_array_view(v: JsonValue)
    requires
        v is Array,
    ensures
        v@ == JsonView::Arr(v->Array_0@.map_values(|x: JsonValue| x@)),
{
    assert(json_view(v)->Arr_0 =~= v->Array_0@.map_values(|x: JsonValue| x@));
}

impl JsonValue {
    /// `null`.
    pub fn is_null(&self) -> (r: bool)
        ensures
            r == (self@ is Null),
    {
        match self {
            JsonValue::Null => true,
            _ => false,
        }
    }

    /// A boolean.
    pub fn is_boolean(&self) -> (r: bool)
        ensures
            r == (self@ is Bool),
    {
        match self {
            JsonValue::Bool(_) => true,
            _ => false,
        }
    }

    /// A number.
    pub fn is_number(&self) -> (r: bool)
        ensures
            r == is_number_view(self@),
    {
        match self {
            JsonValue::Number(_) => true,
            _ => false,
        }
    }

    /// A number that fits `i64` or `u64` (`is_i64() || is_u64()` of `serde_json`).
    pub fn is_integer(&self) -> (r: bool)
        ensures
            r == is_integer_view(self@),
    {
        match self {
            JsonValue::Number(JsonNumber::Float(_)) => false,
            JsonValue::Number(_) => true,
            _ => false,
        }
    }

    /// A string.
    pub fn is_string(&self) -> (r: bool)
        ensures
            r == (self@ is Str),
    {
        match self {
            JsonValue::String(_) => true,
            _ => false,
        }
    }

    /// An array.
    pub fn is_array(&self) -> (r: bool)
        ensures
            r == (self@ is Arr),
    {
        match self {
            JsonValue::Array(_) => true,
            _ => false,
        }
    }

    /// An object.
    pub fn is_object(&self) -> (r: bool)
        ensures
            r == (self@ is Obj),
    {
        match self {
            JsonValue::Object(_) => true,
            _ => false,
        }
    }

    /// The text of a string value.
    pub fn as_str(&self) -> (r: Option<&str>)
        ensures
            match self@ {
                JsonView::Str(s) => r matches Some(t) && t@ == s,
                _ => r is None,
            },
    {
        match self {
            JsonValue::String(s) => Some(s.as_str()),
            _ => None,
        }
    }

    /// The elements of an array value.
    pub fn as_array(&self) -> (r: Option<&Vec<JsonValue>>)
        ensures
            match self@ {
                JsonView::Arr(items) => r matches Some(v) && v@.map_values(|x: JsonValue| x@) == items,
                _ => r is None,
            },
    {
        match self {
            JsonValue::Array(v) => {
                proof {
                    lemma_array_view(*self);
                }
                Some(v)
            },
            _ => None,
        }
    }

    /// The members of an object value.
    pub fn as_object(&self) -> (r: Option<&Vec<(String, JsonValue)>>)
        ensures
            match self@ {
                JsonView::Obj(members) => r matches Some(v) && members_view(v@) == members,
                _ => r is None,
            },
    {
        match self {
            JsonValue::Object(v) => {
                proof {
                    lemma_object_view(*self);
                }
                Some(v)
            },
            _ => None,
        }
    }

    /// The value of `key` when this is an object holding it.
    pub fn get(&self, key: &str) -> (r: Option<&JsonValue>)
        ensures
            match value_get(self@, key@) {
                Some(v) => r matches Some(x) && x@ == v,
                None => r is None,
            },
    {
        match self {
            JsonValue::Object(entries) => {
                proof {
                    lemma_object_view(*self);
                }
                let k = find_key(entries, key);
                if k < entries.len() {
                    Some(&entries[k].1)
                } else {
                    None
                }
            },
            _ => None,
        }
    }

    /// This is an object holding `key`.
    pub fn contains_key(&self, key: &str) -> (r: bool)
        ensures
            r == (self@ matches JsonView::Obj(members) && has_member(members, key@)),
    {
        match self {
            JsonValue::Object(entries) => {
                proof {
                    lemma_object_view(*self);
                }
                let k = find_key(entries, key);
                proof {
                    lemma_key_index(members_view(entries@), key@);
                }
                k < entries.len()
            },
            _ => false,
        }
    }

    /// The element at `index` when this is an array long enough.
    pub fn get_index(&self, index: usize) -> (r: Option<&JsonValue>)
        ensures
            match self@ {
                JsonView::Arr(items) => if index < items.len() {
                    r matches Some(x) && x@ == items[index as int]
                } else {
                    r is None
                },
                _ => r is None,
            },
    {
        match self {
            JsonValue::Array(v) => {
                proof {
                    lemma_array_view(*self);
                }
                if index < v.len() {
                    Some(&v[index])
                } else {
                    None
                }
            },
            _ => None,
        }
    }

    /// The JSON type name (`integer` for whole numbers, `number` otherwise).
    pub fn kind_name(&self) -> (r: &'static str)
        ensures
            r@ == type_name_of(self@),
    {
        match self {
            JsonValue::Null => "null",
            JsonValue::Bool(_) => "boolean",
            JsonValue::Number(JsonNumber::Float(_)) => "number",
            JsonValue::Number(_) => "integer",
            JsonValue::String(_) => "string",
            JsonValue::Array(_) => "array",
            JsonValue::Object(_) => "object",
        }
    }
}

/// The index of the member with key `key` (or `entries.len()`).
pub fn find_key(entries: &Vec<(String, JsonValue)>, key: &str) -> (k: usize)
    ensures
        k == key_index(members_view(entries@), key@),
{
    let ghost mv = members_view(entries@);
    let kc = chars_of(key);
    let mut i: usize = 0;
    while i < entries.len()
        invariant
            mv == members_view(entries@),
            kc@ == key@,
            i <= entries.len(),
            key_index(mv, key@) == key_index_from(mv, key@, i as int),
        decreases entries.len() - i,
    {
        let ec = chars_of(entries[i].0.as_str());
        if chars_eq(&ec, &kc) {
            return i;
        }
        i = i + 1;
    }
    i
}

/// Sets `key` to `value` in an object's members: replaced in place when the
/// key is present, appended otherwise. Distinct keys stay distinct.
pub fn members_insert_exec(entries: &mut Vec<(String, JsonValue)>, key: String, value: JsonValue)
    requires
        keys_distinct(members_view(old(entries)@)),
    ensures
        members_view(final(entries)@) == members_insert(members_view(old(entries)@), key@, value@),
        keys_distinct(members_view(final(entries)@)),
{
    let ghost mv = members_view(entries@);
    let k = find_key(entries, key.as_str());
    proof {
        lemma_key_index(mv, key@);
    }
    if k < entries.len() {
        let ghost old_entries = entries@;
        entries.remove(k);
        entries.insert(k, (key, value));
        assert(entries@ =~= old_entries.update(k as int, (key, value)));
        assert(members_view(entries@) =~= members_insert(mv, key@, value@));
    } else {
        let ghost old_entries = entries@;
        entries.push((key, value));
        assert(members_view(entries@) =~= members_insert(mv, key@, value@));
        assert forall|i: int, j: int|
            0 <= i < members_view(entries@).len() && 0 <= j < members_view(entries@).len() && i
                != j implies (#[trigger] members_view(entries@)[i]).0 != (
        #[trigger] members_view(entries@)[j]).0 by {
            if i < old_entries.len() && j < old_entries.len() {
                assert(members_view(entries@)[i] == mv[i]);
                assert(members_view(entries@)[j] == mv[j]);
            } else if i < old_entries.len() {
                assert(members_view(entries@)[i] == mv[i]);
            } else {
                assert(members_view(entries@)[j] == mv[j]);
            }
        }
    }
}

impl Clone for JsonValue {
    /// A deep copy (see [`json_clone`]).
    fn clone(&self) -> (r: Self)
        ensures
            r@ == self@,
    {
        json_clone(self)
    }
}

/// A deep copy of a JSON value.
pub fn json_clone(v: &JsonValue) -> (r: JsonValue)
    ensures
        r@ == v@,
    decreases *v,
{
    match v {
        JsonValue::Null => JsonValue::Null,
        JsonValue::Bool(b) => JsonValue::Bool(*b),
        JsonValue::Number(JsonNumber::PosInt(n)) => JsonValue::Number(JsonNumber::PosInt(*n)),
        JsonValue::Number(JsonNumber::NegInt(n)) => JsonValue::Number(JsonNumber::NegInt(*n)),
        JsonValue::Number(JsonNumber::Float(s)) => JsonValue::Number(JsonNumber::Float(s.clone())),
        JsonValue::String(s) => JsonValue::String(s.clone()),
        JsonValue::Array(items) => {
            let mut out: Vec<JsonValue> = Vec::new();
            let mut i: usize = 0;
            while i < items.len()
                invariant
                    *v is Array,
                    *items == v->Array_0,
                    i <= items.len(),
                    out@.len() == i,
                    forall|k: int| 0 <= k < i ==> (#[trigger] out@[k])@ == items@[k]@,
                decreases items.len() - i,
            {
                proof {
                    assert(decreases_to!(*v => v->Array_0));
                    assert(decreases_to!(v->Array_0 => v->Array_0@));
                    assert(decreases_to!(v->Array_0@ => v->Array_0@[i as int]));
                }
                let c = json_clone(&items[i]);
                out.push(c);
                i = i + 1;
            }
            let r = JsonValue::Array(out);
            proof {
                lemma_array_view(r);
                lemma_array_view(*v);
                assert(out@.map_values(|x: JsonValue| x@) =~= items@.map_values(|x: JsonValue| x@));
            }
            r
        },
        JsonValue::Object(entries) => {
            let mut out: Vec<(String, JsonValue)> = Vec::new();
            let mut i: usize = 0;
            while i < entries.len()
                invariant
                    *v is Object,
                    *entries == v->Object_0,
                    i <= entries.len(),
                    out@.len() == i,
                    forall|k: int| 0 <= k < i ==> (#[trigger] out@[k]).0@ == entries@[k].0@ && out@[k].1@ == entries@[k].1@,
                decreases entries.len() - i,
            {
                proof {
                    assert(decreases_to!(*v => v->Object_0));
                    assert(decreases_to!(v->Object_0 => v->Object_0@));
                    assert(decreases_to!(v->Object_0@ => v->Object_0@[i as int]));
                    assert(decreases_to!(v->Object_0@[i as int] => v->Object_0@[i as int].1));
                }
                let c = json_clone(&entries[i].1);
                out.push((entries[i].0.clone(), c));
                i = i + 1;
            }
            let r = JsonValue::Object(out);
            proof {
                lemma_object_view(r);
                lemma_object_view(*v);
                assert(members_view(out@) =~= members_view(entries@));
            }
            r
        },
    }
}

/// An object value with these members.
pub fn object_of(entries: Vec<(String, JsonValue)>) -> (r: JsonValue)
    ensures
        r@ == JsonView::Obj(members_view(entries@)),
{
    let r = JsonValue::Object(entries);
    proof {
        lemma_object_view(r);
    }
    r
}

/// An array value with these elements.
pub fn array_of(items: Vec<JsonValue>) -> (r: JsonValue)
    ensures
        r@ == JsonView::Arr(items@.map_values(|x: JsonValue| x@)),
{
    let r = JsonValue::Array(items);
    proof {
        lemma_array_view(r);
    }
    r
}

/// The JSON number of a `usize`.
pub fn usize_value(n: usize) -> (r: JsonValue)
    ensures
        r@ == JsonView::PosInt(n as u64),
{
    JsonValue::Number(JsonNumber::PosInt(n as u64))
}

/// The JSON number of an `i32`.
pub fn i32_value(n: i32) -> (r: JsonValue)
    ensures
        r@ == (if n >= 0 {
            JsonView::PosInt(n as u64)
        } else {
            JsonView::NegInt(n as i64)
        }),
{
    if n >= 0 {
        JsonValue::Number(JsonNumber::PosInt(n as u64))
    } else {
        JsonValue::Number(JsonNumber::NegInt(n as i64))
    }
}

} // verus!
