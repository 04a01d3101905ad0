//! Reading and writing inside a value, along a path.

use crate::keymap::KeyMap;
use crate::path::texts;
use crate::path::Lookup;
use crate::path::Segment;
use crate::path::SegmentView;
use crate::value::lemma_view_array;
use crate::value::lemma_view_object;
use crate::value::views_of_map;
use crate::value::views_of_seq;
use crate::value::Value;
use crate::value::ValueView;
use vstd::prelude::*;

verus! {

/// What lies at a path inside a value.
pub enum Fetched {
    /// Nothing: the path leads nowhere.
    Missing,
    /// This value.
    Found(ValueView),
}

impl Fetched {
    /// What was found, and null where nothing was.
    pub open spec fn or_null(self) -> ValueView {
        match self {
            Fetched::Missing => ValueView::Null,
            Fetched::Found(value) => value,
        }
    }
}

/// The fields of a value: those of an object, and none of anything else.
pub open spec fn fields_of(value: ValueView) -> Map<Seq<char>, ValueView> {
    match value {
        ValueView::Object(fields) => fields,
        _ => Map::empty(),
    }
}

/// The items of a value: those of an array, and none of anything else.
pub open spec fn items_of(value: ValueView) -> Seq<ValueView> {
    match value {
        ValueView::Array(items) => items,
        _ => Seq::empty(),
    }
}

/// The position that `index` names in a sequence of `len` items: itself, or
/// counted from the end where it is negative.
pub open spec fn resolve(index: int, len: int) -> int {
    if index >= 0 {
        index
    } else {
        len + index
    }
}

/// The first of `names` that is a field, if one is.
pub open spec fn first_present(fields: Map<Seq<char>, ValueView>, names: Seq<Seq<char>>) -> Option<
    Seq<char>,
>
    decreases names.len(),
{
    if names.len() == 0 {
        None
    } else if fields.contains_key(names[0]) {
        Some(names[0])
    } else {
        first_present(fields, names.skip(1))
    }
}

/// The field that a step reads: the named one, or the first of a list that is
/// there.
pub open spec fn field_read(value: ValueView, segment: SegmentView) -> Option<Seq<char>> {
    match segment {
        SegmentView::Field(name) => Some(name),
        SegmentView::Coalesce(names) => first_present(fields_of(value), names),
        SegmentView::Index(_) => None,
    }
}

/// The field that a step writes: the named one; of a list, the first that is
/// there, and the first of all where none is.
pub open spec fn field_written(value: ValueView, segment: SegmentView) -> Option<Seq<char>> {
    match segment {
        SegmentView::Field(name) => Some(name),
        SegmentView::Coalesce(names) => match first_present(fields_of(value), names) {
            Some(name) => Some(name),
            None => if names.len() > 0 {
                Some(names[0])
            } else {
                None
            },
        },
        SegmentView::Index(_) => None,
    }
}

/// What lies at `path` inside `value`.
pub open spec fn fetch(value: ValueView, path: Seq<SegmentView>) -> Fetched
    decreases path.len(),
{
    if path.len() == 0 {
        Fetched::Found(value)
    } else {
        match path[0] {
            SegmentView::Index(index) => {
                let items = items_of(value);
                let at = resolve(index, items.len() as int);
                if 0 <= at < items.len() {
                    fetch(items[at], path.skip(1))
                } else {
                    Fetched::Missing
                }
            },
            _ => match field_read(value, path[0]) {
                Some(name) => if fields_of(value).contains_key(name) {
                    fetch(fields_of(value)[name], path.skip(1))
                } else {
                    Fetched::Missing
                },
                None => Fetched::Missing,
            },
        }
    }
}

/// A run of `n` nulls.
pub open spec fn nulls(n: int) -> Seq<ValueView> {
    Seq::new(
        if n >= 0 {
            n as nat
        } else {
            0
        },
        |i: int| ValueView::Null,
    )
}

/// `target` with `value` put at `path`.
///
/// A field step makes an object of what is no object, and an index step an
/// array of what is no array. A position past the end of an array is reached
/// by filling up with nulls behind the items, and a negative position before
/// its start by filling up with nulls in front of them, so that the value is
/// found again at the same path. An empty list of fields names no place:
/// the write to it is dropped.
pub open spec fn put(target: ValueView, path: Seq<SegmentView>, value: ValueView) -> ValueView
    decreases path.len(),
{
    if path.len() == 0 {
        value
    } else {
        match path[0] {
            SegmentView::Index(index) => {
                let items = items_of(target);
                let at = resolve(index, items.len() as int);
                if 0 <= at < items.len() {
                    ValueView::Array(items.update(at, put(items[at], path.skip(1), value)))
                } else if index >= 0 {
                    ValueView::Array(
                        (items + nulls(index - items.len())).push(
                            put(ValueView::Null, path.skip(1), value),
                        ),
                    )
                } else {
                    ValueView::Array(
                        seq![put(ValueView::Null, path.skip(1), value)] + nulls(
                            -index - items.len() - 1,
                        ) + items,
                    )
                }
            },
            _ => match field_written(target, path[0]) {
                Some(name) => {
                    let fields = fields_of(target);
                    let child = if fields.contains_key(name) {
                        fields[name]
                    } else {
                        ValueView::Null
                    };
                    ValueView::Object(fields.insert(name, put(child, path.skip(1), value)))
                },
                None => target,
            },
        }
    }
}

/// The position that `index` names among `len` items, if it names one.
fn resolved(index: isize, len: usize) -> (at: Option<usize>)
    ensures
        match at {
            Some(at) => at == resolve(index as int, len as int) && at < len,
            None => !(0 <= resolve(index as int, len as int) < len),
        },
{
    if index >= 0 {
        if (index as usize) < len {
            Some(index as usize)
        } else {
            None
        }
    } else {
        let at = len as i128 + index as i128;
        if at >= 0 {
            Some(at as usize)
        } else {
            None
        }
    }
}

/// The first of `names` that is a key of `fields`.
fn first_present_in<'n>(fields: &KeyMap<Value>, names: &'n Vec<String>) -> (r: Option<&'n String>)
    ensures
        match r {
            Some(name) => first_present(views_of_map(fields@), texts(names@)) == Some(name@),
            None => first_present(views_of_map(fields@), texts(names@)) is None,
        },
{
    let ghost all = texts(names@);
    let ghost known = views_of_map(fields@);
    let mut i: usize = 0;
    assert(all.skip(0) =~= all);
    while i < names.len()
        invariant
            i <= names@.len(),
            all == texts(names@),
            known == views_of_map(fields@),
            first_present(known, all) == first_present(known, all.skip(i as int)),
        decreases names@.len() - i,
    {
        if fields.contains_key(names[i].as_str()) {
            return Some(&names[i]);
        }
        assert(all.skip(i as int).skip(1) =~= all.skip(i + 1));
        i += 1;
    }
    None
}

/// What one step leads to inside a value.
fn step_into<'v>(value: &'v Value, segment: &Segment) -> (r: Option<&'v Value>)
    ensures
        forall|rest: Seq<SegmentView>| #[trigger]
            fetch(value@, seq![segment@] + rest) == match r {
                Some(next) => fetch(next@, rest),
                None => Fetched::Missing,
            },
{
    let r = match segment {
        Segment::Index(index) => match value {
            Value::Array(items) => {
                proof {
                    lemma_view_array(*items);
                }
                match resolved(*index, items.len()) {
                    Some(at) => Some(&items[at]),
                    None => None,
                }
            },
            _ => None,
        },
        Segment::Field(name) => match value {
            Value::Object(fields) => {
                proof {
                    lemma_view_object(*fields);
                }
                fields.get(name.as_str())
            },
            _ => None,
        },
        Segment::Coalesce(names) => match value {
            Value::Object(fields) => {
                proof {
                    lemma_view_object(*fields);
                }
                match first_present_in(fields, names) {
                    Some(name) => fields.get(name.as_str()),
                    None => None,
                }
            },
            _ => {
                proof {
                    lemma_nothing_present(texts(names@));
                }
                None
            },
        },
    };
    assert forall|rest: Seq<SegmentView>| #[trigger]
        fetch(value@, seq![segment@] + rest) == match r {
            Some(next) => fetch(next@, rest),
            None => Fetched::Missing,
        } by {
        let path = seq![segment@] + rest;
        assert(path.skip(1) =~= rest);
    }
    r
}

/// No name is a field where there are no fields.
proof fn lemma_nothing_present(names: Seq<Seq<char>>)
    ensures
        first_present(Map::empty(), names) is None,
    decreases names.len(),
{
    if names.len() > 0 {
        lemma_nothing_present(names.skip(1));
    }
}

impl Value {
    /// What lies at `path` inside the value.
    pub fn get_by_path(&self, path: &Lookup) -> (r: Option<&Value>)
        ensures
            match fetch(self@, path@) {
                Fetched::Found(value) => r matches Some(found) && found@ == value,
                Fetched::Missing => r is None,
            },
    {
        let mut current: &Value = self;
        let mut i: usize = 0;
        assert(path@.skip(0) =~= path@);
        while i < path.len()
            invariant
                i <= path@.len(),
                fetch(self@, path@) == fetch(current@, path@.skip(i as int)),
            decreases path@.len() - i,
        {
            let segment = path.segment(i);
            proof {
                assert(path@.skip(i as int) =~= seq![segment@] + path@.skip(i + 1));
            }
            match step_into(current, segment) {
                Some(next) => {
                    current = next;
                },
                None => {
                    return None;
                },
            }
            i += 1;
        }
        Some(current)
    }

    /// What lies at `path` inside the value, and null where nothing does.
    pub fn get_or_null(&self, path: &Lookup) -> (value: Value)
        ensures
            value@ == fetch(self@, path@).or_null(),
    {
        match self.get_by_path(path) {
            Some(found) => found.clone(),
            None => Value::Null,
        }
    }

    /// The value with `value` put at `path`.
    pub fn insert_by_path(self, path: &Lookup, value: Value) -> (r: Value)
        ensures
            r@ == put(self@, path@, value@),
    {
        assert(path@.skip(0) =~= path@);
        put_from(self, path, 0, value)
    }

    /// The least value that holds `self` at `path`.
    pub fn at_path(self, path: &Lookup) -> (r: Value)
        ensures
            r@ == put(ValueView::Null, path@, self@),
    {
        Value::Null.insert_by_path(path, self)
    }
}

/// The fields of a value, taken out of it.
fn take_fields(target: Value) -> (fields: KeyMap<Value>)
    ensures
        views_of_map(fields@) == fields_of(target@),
{
    match target {
        Value::Object(fields) => {
            proof {
                lemma_view_object(fields);
            }
            fields
        },
        _ => {
            let fields = KeyMap::new();
            fields
        },
    }
}

/// The items of a value, taken out of it.
fn take_items(target: Value) -> (items: Vec<Value>)
    ensures
        views_of_seq(items@) == items_of(target@),
{
    match target {
        Value::Array(items) => {
            proof {
                lemma_view_array(items);
            }
            items
        },
        _ => {
            let items = Vec::new();
            items
        },
    }
}

/// The field that a step writes.
fn written_field(fields: &KeyMap<Value>, segment: &Segment) -> (r: Option<String>)
    ensures
        forall|target: ValueView|
            fields_of(target) == views_of_map(fields@) ==> #[trigger] field_written(
                target,
                segment@,
            ) == match r {
                Some(name) => Some(name@),
                None => None,
            },
{
    match segment {
        Segment::Field(name) => Some(name.clone()),
        Segment::Coalesce(names) => match first_present_in(fields, names) {
            Some(name) => Some(name.clone()),
            None => if names.len() > 0 {
                Some(names[0].clone())
            } else {
                None
            },
        },
        Segment::Index(_) => None,
    }
}

/// `target` with `value` put at what is left of `path` from `from` on.
fn put_from(target: Value, path: &Lookup, from: usize, value: Value) -> (r: Value)
    requires
        from <= path@.len(),
    ensures
        r@ == put(target@, path@.skip(from as int), value@),
    decreases path@.len() - from,
{
    if from >= path.len() {
        return value;
    }
    let segment = path.segment(from);
    let ghost rest = path@.skip(from + 1);
    proof {
        assert(path@.skip(from as int).skip(1) =~= rest);
    }
    match segment {
        Segment::Index(index) => {
            let ghost before = items_of(target@);
            let index = *index;
            let mut items = take_items(target);
            match resolved(index, items.len()) {
                Some(at) => {
                    let child = items.remove(at);
                    let placed = put_from(child, path, from + 1, value);
                    items.insert(at, placed);
                    proof {
                        lemma_view_array(items);
                        assert(views_of_seq(items@) =~= before.update(at as int, placed@));
                    }
                    Value::Array(items)
                },
                None => {
                    if index >= 0 {
                        let ghost start = items@;
                        while items.len() < index as usize
                            invariant
                                index >= 0,
                                start.len() <= items@.len() <= index,
                                views_of_seq(start) == before,
                                views_of_seq(items@) == before + nulls(items@.len() - start.len()),
                            decreases index - items@.len(),
                        {
                            let ghost old_items = items@;
                            items.push(Value::Null);
                            assert forall|k: int| 0 <= k < items@.len() implies views_of_seq(
                                items@,
                            )[k] == (before + nulls(items@.len() - start.len()))[k] by {
                                if k < old_items.len() {
                                    assert(views_of_seq(old_items)[k] == items@[k]@);
                                }
                            }
                        }
                        let placed = put_from(Value::Null, path, from + 1, value);
                        items.push(placed);
                        proof {
                            lemma_view_array(items);
                            assert(views_of_seq(items@) =~= (before + nulls(
                                index - before.len(),
                            )).push(placed@));
                        }
                        Value::Array(items)
                    } else {
                        let placed = put_from(Value::Null, path, from + 1, value);
                        let ghost leaf = placed@;
                        let mut out: Vec<Value> = Vec::new();
                        out.push(placed);
                        let gap: i128 = -(index as i128) - (items.len() as i128) - 1;
                        let mut filled: i128 = 0;
                        assert(views_of_seq(out@) =~= seq![leaf] + nulls(0));
                        while filled < gap
                            invariant
                                0 <= filled <= gap,
                                out@.len() == 1 + filled,
                                views_of_seq(out@) == seq![leaf] + nulls(filled as int),
                            decreases gap - filled,
                        {
                            let ghost shorter = out@;
                            out.push(Value::Null);
                            filled += 1;
                            assert forall|k: int| 0 <= k < out@.len() implies views_of_seq(
                                out@,
                            )[k] == (seq![leaf] + nulls(filled as int))[k] by {
                                if k < shorter.len() {
                                    assert(views_of_seq(shorter)[k] == out@[k]@);
                                }
                            }
                            assert(views_of_seq(out@) =~= seq![leaf] + nulls(filled as int));
                        }
                        out.append(&mut items);
                        proof {
                            lemma_view_array(out);
                            assert(views_of_seq(out@) =~= seq![leaf] + nulls(
                                -index - before.len() - 1,
                            ) + before);
                        }
                        Value::Array(out)
                    }
                },
            }
        },
        _ => {
            let ghost whole = target@;
            let is_object = matches!(target, Value::Object(_));
            if !is_object {
                let probe = KeyMap::new();
                let name = written_field(&probe, segment);
                assert(fields_of(whole) =~= views_of_map(probe@));
                match name {
                    None => {
                        return target;
                    },
                    Some(name) => {
                        let placed = put_from(Value::Null, path, from + 1, value);
                        let mut fields: KeyMap<Value> = KeyMap::new();
                        fields.insert(name, placed);
                        proof {
                            lemma_view_object(fields);
                            assert(views_of_map(fields@) =~= fields_of(whole).insert(
                                name@,
                                placed@,
                            ));
                        }
                        return Value::Object(fields);
                    },
                }
            }
            let mut fields = take_fields(target);
            let ghost before = fields@;
            match written_field(&fields, segment) {
                None => {
                    proof {
                        lemma_view_object(fields);
                    }
                    Value::Object(fields)
                },
                Some(name) => {
                    let child = match fields.remove(name.as_str()) {
                        Some(child) => child,
                        None => Value::Null,
                    };
                    let placed = put_from(child, path, from + 1, value);
                    fields.insert(name, placed);
                    proof {
                        lemma_view_object(fields);
                        assert(views_of_map(fields@) =~= views_of_map(before).insert(
                            name@,
                            placed@,
                        ));
                    }
                    Value::Object(fields)
                },
            }
        },
    }
}

/// Each step of `path` names a place in `target` once the value is put: no
/// list of fields that the walk comes to is empty.
pub open spec fn addressable(target: ValueView, path: Seq<SegmentView>) -> bool
    decreases path.len(),
{
    path.len() == 0 || match path[0] {
        SegmentView::Index(index) => {
            let items = items_of(target);
            let at = resolve(index, items.len() as int);
            if 0 <= at < items.len() {
                addressable(items[at], path.skip(1))
            } else {
                addressable(ValueView::Null, path.skip(1))
            }
        },
        _ => match field_written(target, path[0]) {
            Some(name) => addressable(
                if fields_of(target).contains_key(name) {
                    fields_of(target)[name]
                } else {
                    ValueView::Null
                },
                path.skip(1),
            ),
            None => false,
        },
    }
}

/// The first of `names` that is a field is still the first after it is
/// bound anew.
proof fn lemma_first_present_after_insert(
    fields: Map<Seq<char>, ValueView>,
    names: Seq<Seq<char>>,
    name: Seq<char>,
    value: ValueView,
)
    requires
        first_present(fields, names) == Some(name) || (first_present(fields, names) is None
            && names.len() > 0 && names[0] == name),
    ensures
        first_present(fields.insert(name, value), names) == Some(name),
    decreases names.len(),
{
    if names.len() > 0 && names[0] != name {
        lemma_first_present_after_insert(fields, names.skip(1), name, value);
    }
}

/// What is put at a path is found there.
pub proof fn lemma_fetch_after_put(target: ValueView, path: Seq<SegmentView>, value: ValueView)
    requires
        addressable(target, path),
    ensures
        fetch(put(target, path, value), path) == Fetched::Found(value),
    decreases path.len(),
{
    if path.len() > 0 {
        let rest = path.skip(1);
        match path[0] {
            SegmentView::Index(index) => {
                let items = items_of(target);
                let at = resolve(index, items.len() as int);
                if 0 <= at < items.len() {
                    lemma_fetch_after_put(items[at], rest, value);
                } else {
                    lemma_fetch_after_put(ValueView::Null, rest, value);
                }
            },
            _ => {
                let name = field_written(target, path[0])->0;
                let fields = fields_of(target);
                let child = if fields.contains_key(name) {
                    fields[name]
                } else {
                    ValueView::Null
                };
                lemma_fetch_after_put(child, rest, value);
                if let SegmentView::Coalesce(names) = path[0] {
                    lemma_first_present_after_insert(
                        fields,
                        names,
                        name,
                        put(child, rest, value),
                    );
                }
            },
        }
    }
}

/// No step of `path` is an empty list of fields.
pub open spec fn names_a_place(path: Seq<SegmentView>) -> bool {
    forall|i: int|
        0 <= i < path.len() ==> ((#[trigger] path[i]) matches SegmentView::Coalesce(names)
            ==> names.len() > 0)
}

/// A path without an empty list of fields names a place in every value.
pub proof fn lemma_place_is_addressable(target: ValueView, path: Seq<SegmentView>)
    requires
        names_a_place(path),
    ensures
        addressable(target, path),
    decreases path.len(),
{
    if path.len() > 0 {
        let rest = path.skip(1);
        assert forall|i: int| 0 <= i < rest.len() implies ((#[trigger] rest[i])
            matches SegmentView::Coalesce(names) ==> names.len() > 0) by {
            assert(rest[i] == path[i + 1]);
        }
        match path[0] {
            SegmentView::Index(index) => {
                let items = items_of(target);
                let at = resolve(index, items.len() as int);
                if 0 <= at < items.len() {
                    lemma_place_is_addressable(items[at], rest);
                } else {
                    lemma_place_is_addressable(ValueView::Null, rest);
                }
            },
            _ => {
                let name = field_written(target, path[0])->0;
                let fields = fields_of(target);
                if fields.contains_key(name) {
                    lemma_place_is_addressable(fields[name], rest);
                } else {
                    lemma_place_is_addressable(ValueView::Null, rest);
                }
            },
        }
    }
}

/// The value that is scaffolded from a path holds the payload at that path,
/// and so does any value after the payload is put into it there.
pub proof fn lemma_payload_is_at_the_leaf(
    target: ValueView,
    path: Seq<SegmentView>,
    value: ValueView,
)
    requires
        names_a_place(path),
    ensures
        fetch(put(target, path, value), path) == Fetched::Found(value),
        fetch(put(ValueView::Null, path, value), path) == Fetched::Found(value),
{
    lemma_place_is_addressable(target, path);
    lemma_place_is_addressable(ValueView::Null, path);
    lemma_fetch_after_put(target, path, value);
    lemma_fetch_after_put(ValueView::Null, path, value);
}

} // verus!
