//! The values that programs compute with.

use crate::keymap::KeyMap;
use vstd::prelude::*;

verus! {

/// A value of the language.
///
/// A floating-point number is held as the bit pattern of its binary64 form,
/// a regular expression as its pattern, a timestamp as the nanoseconds since
/// the Unix epoch.
#[derive(Debug, PartialEq, Eq)]
pub enum Value {
    Null,
    Boolean(bool),
    Integer(i64),
    Float(u64),
    Bytes(Vec<u8>),
    Regex(String),
    Timestamp(i64),
    Array(Vec<Value>),
    Object(KeyMap<Value>),
}

/// What a [`Value`] stands for: arrays as sequences, objects as maps.
pub enum ValueView {
    Null,
    Boolean(bool),
    Integer(i64),
    Float(u64),
    Bytes(Seq<u8>),
    Regex(Seq<char>),
    Timestamp(i64),
    Array(Seq<ValueView>),
    Object(Map<Seq<char>, ValueView>),
}

impl View for Value {
    type V = ValueView;

    open spec fn view(&self) -> ValueView
        decreases self,
    {
        match self {
            Value::Null => ValueView::Null,
            Value::Boolean(b) => ValueView::Boolean(*b),
            Value::Integer(i) => ValueView::Integer(*i),
            Value::Float(bits) => ValueView::Float(*bits),
            Value::Bytes(bytes) => ValueView::Bytes(bytes@),
            Value::Regex(pattern) => ValueView::Regex(pattern@),
            Value::Timestamp(nanos) => ValueView::Timestamp(*nanos),
            Value::Array(items) => ValueView::Array(
                Seq::new(
                    items@.len(),
                    |i: int|
                        if 0 <= i < items@.len() {
                            items@[i].view()
                        } else {
                            ValueView::Null
                        },
                ),
            ),
            Value::Object(map) => ValueView::Object(
                Map::new(
                    |k: Seq<char>| map@.contains_key(k),
                    |k: Seq<char>|
                        if map@.contains_key(k) {
                            proof {
                                map.lemma_value_decreases(k);
                            }
                            map@[k].view()
                        } else {
                            ValueView::Null
                        },
                ),
            ),
        }
    }
}

/// The views of the items of a sequence of values.
pub open spec fn views_of_seq(s: Seq<Value>) -> Seq<ValueView> {
    Seq::new(s.len(), |i: int| s[i]@)
}

/// The views of the values of a map.
pub open spec fn views_of_map(m: Map<Seq<char>, Value>) -> Map<Seq<char>, ValueView> {
    Map::new(|k: Seq<char>| m.contains_key(k), |k: Seq<char>| m[k]@)
}

/// The view of an array is the sequence of the views of its items.
pub proof fn lemma_view_array(items: Vec<Value>)
    ensures
        Value::Array(items)@ == ValueView::Array(views_of_seq(items@)),
{
    reveal_with_fuel(<Value as View>::view, 2);
    assert(Value::Array(items)@->Array_0 =~= views_of_seq(items@));
}

/// The view of an object is the map of the views of its values.
pub proof fn lemma_view_object(map: KeyMap<Value>)
    ensures
        Value::Object(map)@ == ValueView::Object(views_of_map(map@)),
{
    reveal_with_fuel(<Value as View>::view, 2);
    assert(Value::Object(map)@->Object_0 =~= views_of_map(map@));
}

/// Whether two byte strings are the same.
pub fn bytes_equal(a: &Vec<u8>, b: &Vec<u8>) -> (same: bool)
    ensures
        same == (a@ == b@),
{
    if a.len() != b.len() {
        return false;
    }
    let mut i: usize = 0;
    while i < a.len()
        invariant
            i <= a@.len(),
            a@.len() == b@.len(),
            forall|j: int| 0 <= j < i ==> a@[j] == b@[j],
        decreases a@.len() - i,
    {
        if a[i] != b[i] {
            return false;
        }
        i += 1;
    }
    assert(a@ =~= b@);
    true
}

/// A copy of a byte string.
pub fn copy_bytes(a: &Vec<u8>) -> (r: Vec<u8>)
    ensures
        r@ == a@,
{
    let mut out: Vec<u8> = Vec::new();
    let mut i: usize = 0;
    while i < a.len()
        invariant
            i <= a@.len(),
            out@ == a@.take(i as int),
        decreases a@.len() - i,
    {
        out.push(a[i]);
        i += 1;
    }
    out
}

/// Copies of the items of a sequence of values.
fn clone_items(items: &Vec<Value>) -> (r: Vec<Value>)
    ensures
        views_of_seq(r@) == views_of_seq(items@),
    decreases items,
{
    let mut out: Vec<Value> = Vec::new();
    let mut i: usize = 0;
    while i < items.len()
        invariant
            i <= items@.len(),
            out@.len() == i,
            forall|j: int| 0 <= j < i ==> out@[j]@ == items@[j]@,
        decreases items@.len() - i,
    {
        out.push(items[i].clone());
        i += 1;
    }
    out
}

/// A copy of a map of values.
fn clone_map(map: &KeyMap<Value>) -> (r: KeyMap<Value>)
    ensures
        views_of_map(r@) == views_of_map(map@),
    decreases map,
{
    let mut out: KeyMap<Value> = KeyMap::new();
    let mut i: usize = 0;
    proof {
        map.lemma_view_is_entries_map();
    }
    while i < map.len()
        invariant
            i <= map.pairs().len(),
            map@ == crate::keymap::entries_map(map.pairs()),
            forall|k: Seq<char>| #[trigger]
                out@.contains_key(k) <==> exists|j: int|
                    0 <= j < i && (#[trigger] map.pairs()[j]).0@ == k,
            forall|k: Seq<char>| #[trigger]
                out@.contains_key(k) ==> map@.contains_key(k) && out@[k]@ == map@[k]@,
        decreases map.pairs().len() - i,
    {
        let (key, value) = map.entry(i);
        out.insert(key.clone(), value.clone());
        i += 1;
    }
    out
}

impl Clone for Value {
    fn clone(&self) -> (r: Value)
        ensures
            r@ == self@,
        decreases self,
    {
        match self {
            Value::Null => Value::Null,
            Value::Boolean(b) => Value::Boolean(*b),
            Value::Integer(i) => Value::Integer(*i),
            Value::Float(bits) => Value::Float(*bits),
            Value::Bytes(bytes) => Value::Bytes(copy_bytes(bytes)),
            Value::Regex(pattern) => Value::Regex(pattern.clone()),
            Value::Timestamp(nanos) => Value::Timestamp(*nanos),
            Value::Array(items) => {
                let copy = clone_items(items);
                proof {
                    lemma_view_array(*items);
                    lemma_view_array(copy);
                }
                Value::Array(copy)
            },
            Value::Object(map) => {
                let copy = clone_map(map);
                proof {
                    lemma_view_object(*map);
                    lemma_view_object(copy);
                }
                Value::Object(copy)
            },
        }
    }
}

/// Whether two sequences of values hold the same items.
fn items_equal(a: &Vec<Value>, b: &Vec<Value>) -> (same: bool)
    ensures
        same == (views_of_seq(a@) == views_of_seq(b@)),
    decreases a,
{
    if a.len() != b.len() {
        assert(views_of_seq(a@).len() != views_of_seq(b@).len());
        return false;
    }
    let mut i: usize = 0;
    while i < a.len()
        invariant
            i <= a@.len(),
            a@.len() == b@.len(),
            forall|j: int| 0 <= j < i ==> a@[j]@ == b@[j]@,
        decreases a@.len() - i,
    {
        if !a[i].equals(&b[i]) {
            assert(views_of_seq(a@)[i as int] != views_of_seq(b@)[i as int]);
            return false;
        }
        i += 1;
    }
    assert(views_of_seq(a@) =~= views_of_seq(b@));
    true
}

/// Whether each binding of `a` is a binding of `b`, up to views.
fn map_within(a: &KeyMap<Value>, b: &KeyMap<Value>) -> (within: bool)
    ensures
        within == (forall|k: Seq<char>| #[trigger]
            a@.contains_key(k) ==> b@.contains_key(k) && a@[k]@ == b@[k]@),
    decreases a,
{
    let mut i: usize = 0;
    proof {
        a.lemma_view_is_entries_map();
    }
    while i < a.len()
        invariant
            i <= a.pairs().len(),
            a@ == crate::keymap::entries_map(a.pairs()),
            forall|j: int|
                0 <= j < i ==> b@.contains_key((#[trigger] a.pairs()[j]).0@) && a@[a.pairs()[j].0@]@
                    == b@[a.pairs()[j].0@]@,
        decreases a.pairs().len() - i,
    {
        let (key, value) = a.entry(i);
        match b.get(key.as_str()) {
            None => {
                return false;
            },
            Some(other) => {
                if !value.equals(other) {
                    return false;
                }
            },
        }
        i += 1;
    }
    true
}

impl Value {
    /// Whether two values are the same: the same variant with the same
    /// contents, arrays item by item and objects key by key.
    pub fn equals(&self, other: &Value) -> (same: bool)
        ensures
            same == (self@ == other@),
        decreases self,
    {
        match (self, other) {
            (Value::Null, Value::Null) => true,
            (Value::Boolean(a), Value::Boolean(b)) => *a == *b,
            (Value::Integer(a), Value::Integer(b)) => *a == *b,
            (Value::Float(a), Value::Float(b)) => *a == *b,
            (Value::Bytes(a), Value::Bytes(b)) => bytes_equal(a, b),
            (Value::Regex(a), Value::Regex(b)) => *a == *b,
            (Value::Timestamp(a), Value::Timestamp(b)) => *a == *b,
            (Value::Array(a), Value::Array(b)) => {
                proof {
                    lemma_view_array(*a);
                    lemma_view_array(*b);
                }
                items_equal(a, b)
            },
            (Value::Object(a), Value::Object(b)) => {
                proof {
                    lemma_view_object(*a);
                    lemma_view_object(*b);
                }
                let forth = map_within(a, b);
                if !forth {
                    assert(views_of_map(a@) != views_of_map(b@)) by {
                        if views_of_map(a@) == views_of_map(b@) {
                            assert forall|k: Seq<char>| #[trigger]
                                a@.contains_key(k) implies b@.contains_key(k) && a@[k]@
                                == b@[k]@ by {
                                assert(views_of_map(a@).contains_key(k));
                                assert(views_of_map(a@)[k] == views_of_map(b@)[k]);
                            }
                        }
                    }
                    false
                } else {
                    let covered = keys_within(b, a);
                    if covered {
                        assert(views_of_map(a@) =~= views_of_map(b@));
                    } else {
                        let ghost k = choose|k: Seq<char>|
                            b@.contains_key(k) && !a@.contains_key(k);
                        assert(!views_of_map(a@).contains_key(k));
                    }
                    covered
                }
            },
            _ => false,
        }
    }

    /// Whether the value is the boolean `true`.
    pub fn is_true(&self) -> (b: bool)
        ensures
            b == (self@ == ValueView::Boolean(true)),
    {
        match self {
            Value::Boolean(true) => true,
            _ => false,
        }
    }

    /// The byte string that a text stands for: its UTF-8 encoding.
    pub fn from_text(text: &str) -> (v: Value)
        ensures
            v@ == ValueView::Bytes(vstd::utf8::encode_utf8(text@)),
    {
        Value::Bytes(text.as_bytes_vec())
    }
}

/// Whether each key of `a` is a key of `b`.
fn keys_within(a: &KeyMap<Value>, b: &KeyMap<Value>) -> (within: bool)
    ensures
        within == (forall|k: Seq<char>| #[trigger] a@.contains_key(k) ==> b@.contains_key(k)),
{
    let mut i: usize = 0;
    proof {
        a.lemma_view_is_entries_map();
    }
    while i < a.len()
        invariant
            i <= a.pairs().len(),
            a@ == crate::keymap::entries_map(a.pairs()),
            forall|j: int| 0 <= j < i ==> b@.contains_key((#[trigger] a.pairs()[j]).0@),
        decreases a.pairs().len() - i,
    {
        let (key, _) = a.entry(i);
        if !b.contains_key(key.as_str()) {
            return false;
        }
        i += 1;
    }
    true
}

} // verus!
