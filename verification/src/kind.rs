//! Kinds: what is known before a program runs of the values it will see.

use crate::keymap::KeyMap;
use std::collections::BTreeMap;
use vstd::prelude::*;

verus! {

/// The plain shapes of a kind that holds itself in every place of its
/// objects and arrays, however deep.
#[derive(Clone, Copy, Debug, PartialEq, Eq, Structural)]
pub struct Infinite {
    pub bytes: bool,
    pub integer: bool,
    pub float: bool,
    pub boolean: bool,
    pub timestamp: bool,
    pub regex: bool,
    pub null: bool,
}

/// What is known of the places of a collection that are not listed one by
/// one.
#[derive(Debug, PartialEq, Eq)]
pub enum Unknown {
    /// Each of them holds this kind.
    Exact(Box<Kind>),
    /// Each of them holds a kind that repeats itself without end.
    Infinite(Infinite),
}

/// The shape of an object: the kinds of the fields that are listed one by
/// one, in `known`, and what holds of all the others.
#[derive(Debug, PartialEq, Eq)]
pub struct ObjectCollection {
    pub known: KeyMap<Kind>,
    pub unknown: Option<Unknown>,
}

/// The shape of an array: the kinds of the items that are listed one by one,
/// in `known`, and what holds of all the others.
#[derive(Debug, PartialEq, Eq)]
pub struct ArrayCollection {
    pub known: BTreeMap<usize, Kind>,
    pub unknown: Option<Unknown>,
}

/// A set of shapes that a value may have.
#[derive(Debug, PartialEq, Eq)]
pub struct Kind {
    pub bytes: bool,
    pub integer: bool,
    pub float: bool,
    pub boolean: bool,
    pub timestamp: bool,
    pub regex: bool,
    pub null: bool,
    pub object: Option<ObjectCollection>,
    pub array: Option<ArrayCollection>,
}

/// What is known of the unlisted places of a collection: nothing, so that
/// there are none; that each holds one kind; or that each holds a kind that
/// repeats itself without end.
pub enum UnknownView {
    Absent,
    Exact(Box<KindView>),
    Infinite(Infinite),
}

/// What the shape of an object stands for, where a kind has one.
pub enum FieldsView {
    Absent,
    Present { known: Map<Seq<char>, KindView>, unknown: UnknownView },
}

/// What the shape of an array stands for, where a kind has one.
pub enum ItemsView {
    Absent,
    Present { known: Map<usize, KindView>, unknown: UnknownView },
}

/// What a [`Kind`] stands for.
pub struct KindView {
    pub bytes: bool,
    pub integer: bool,
    pub float: bool,
    pub boolean: bool,
    pub timestamp: bool,
    pub regex: bool,
    pub null: bool,
    pub object: FieldsView,
    pub array: ItemsView,
}

/// One for a shape that is there, nothing for one that is not.
pub open spec fn one_if(b: bool) -> nat {
    if b {
        1
    } else {
        0
    }
}

impl KindView {
    /// The kind without any shape.
    pub open spec fn never() -> KindView {
        KindView {
            bytes: false,
            integer: false,
            float: false,
            boolean: false,
            timestamp: false,
            regex: false,
            null: false,
            object: FieldsView::Absent,
            array: ItemsView::Absent,
        }
    }

    /// The number of shapes in the kind.
    pub open spec fn shapes(self) -> nat {
        one_if(self.bytes) + one_if(self.integer) + one_if(self.float) + one_if(self.boolean)
            + one_if(self.timestamp) + one_if(self.regex) + one_if(self.null) + one_if(
            self.object is Present,
        ) + one_if(self.array is Present)
    }

    /// A kind is exact where it has one shape and no other.
    pub open spec fn is_exact(self) -> bool {
        self.shapes() == 1
    }

    /// The kind with the null shape added.
    pub open spec fn or_null(self) -> KindView {
        KindView { null: true, ..self }
    }

    /// The kind that an endlessly repeating shape unfolds to: its plain
    /// shapes, and objects and arrays that hold the same again in every place.
    pub open spec fn of_infinite(infinite: Infinite) -> KindView {
        KindView {
            bytes: infinite.bytes,
            integer: infinite.integer,
            float: infinite.float,
            boolean: infinite.boolean,
            timestamp: infinite.timestamp,
            regex: infinite.regex,
            null: infinite.null,
            object: FieldsView::Present {
                known: Map::empty(),
                unknown: UnknownView::Infinite(infinite),
            },
            array: ItemsView::Present {
                known: Map::empty(),
                unknown: UnknownView::Infinite(infinite),
            },
        }
    }
}

impl View for Kind {
    type V = KindView;

    open spec fn view(&self) -> KindView
        decreases self,
    {
        KindView {
            bytes: self.bytes,
            integer: self.integer,
            float: self.float,
            boolean: self.boolean,
            timestamp: self.timestamp,
            regex: self.regex,
            null: self.null,
            object: match self.object {
                None => FieldsView::Absent,
                Some(c) => FieldsView::Present {
                    known: Map::new(
                        |k: Seq<char>| c.known@.contains_key(k),
                        |k: Seq<char>|
                            if c.known@.contains_key(k) {
                                proof {
                                    c.known.lemma_value_decreases(k);
                                }
                                c.known@[k].view()
                            } else {
                                KindView::never()
                            },
                    ),
                    unknown: match c.unknown {
                        None => UnknownView::Absent,
                        Some(Unknown::Exact(kind)) => UnknownView::Exact(
                            Box::new((*kind).view()),
                        ),
                        Some(Unknown::Infinite(infinite)) => UnknownView::Infinite(infinite),
                    },
                },
            },
            array: match self.array {
                None => ItemsView::Absent,
                Some(c) => ItemsView::Present {
                    known: Map::new(
                        |k: usize| c.known@.contains_key(k),
                        |k: usize|
                            if c.known@.contains_key(k) {
                                c.known@[k].view()
                            } else {
                                KindView::never()
                            },
                    ),
                    unknown: match c.unknown {
                        None => UnknownView::Absent,
                        Some(Unknown::Exact(kind)) => UnknownView::Exact(
                            Box::new((*kind).view()),
                        ),
                        Some(Unknown::Infinite(infinite)) => UnknownView::Infinite(infinite),
                    },
                },
            },
        }
    }
}

/// The views of the kinds of a map of fields.
pub open spec fn kinds_of_fields(m: Map<Seq<char>, Kind>) -> Map<Seq<char>, KindView> {
    Map::new(|k: Seq<char>| m.contains_key(k), |k: Seq<char>| m[k]@)
}

/// The views of the kinds of a map of positions.
pub open spec fn kinds_of_positions(m: Map<usize, Kind>) -> Map<usize, KindView> {
    Map::new(|k: usize| m.contains_key(k), |k: usize| m[k]@)
}

/// What is known of the unlisted places, as a view.
pub open spec fn unknown_view(unknown: Option<Unknown>) -> UnknownView {
    match unknown {
        None => UnknownView::Absent,
        Some(Unknown::Exact(kind)) => UnknownView::Exact(Box::new((*kind)@)),
        Some(Unknown::Infinite(infinite)) => UnknownView::Infinite(infinite),
    }
}

/// The view of the shape of an object.
pub open spec fn object_view(c: Option<ObjectCollection>) -> FieldsView {
    match c {
        None => FieldsView::Absent,
        Some(c) => FieldsView::Present {
            known: kinds_of_fields(c.known@),
            unknown: unknown_view(c.unknown),
        },
    }
}

/// The view of the shape of an array.
pub open spec fn array_view(c: Option<ArrayCollection>) -> ItemsView {
    match c {
        None => ItemsView::Absent,
        Some(c) => ItemsView::Present {
            known: kinds_of_positions(c.known@),
            unknown: unknown_view(c.unknown),
        },
    }
}

/// The view of a kind, part by part.
pub proof fn lemma_view_kind(kind: Kind)
    ensures
        kind@ == (KindView {
            bytes: kind.bytes,
            integer: kind.integer,
            float: kind.float,
            boolean: kind.boolean,
            timestamp: kind.timestamp,
            regex: kind.regex,
            null: kind.null,
            object: object_view(kind.object),
            array: array_view(kind.array),
        }),
{
    reveal_with_fuel(<Kind as View>::view, 2);
    match kind.object {
        Some(c) => {
            assert(kind@.object->known =~= kinds_of_fields(c.known@));
        },
        None => {},
    }
    match kind.array {
        Some(c) => {
            assert(kind@.array->known =~= kinds_of_positions(c.known@));
        },
        None => {},
    }
}

/// A copy of a map of fields.
fn clone_fields(map: &KeyMap<Kind>) -> (r: KeyMap<Kind>)
    ensures
        kinds_of_fields(r@) == kinds_of_fields(map@),
    decreases map,
{
    let mut out: KeyMap<Kind> = KeyMap::new();
    let mut i: usize = 0;
    proof {
        map.lemma_view_is_entries_map();
    }
    while i < map.len()
        invariant
            i <= map.pairs().len(),
            map@ == crate::keymap::entries_map(map.pairs()),
            forall|k: Seq<char>| #[trigger]
                out@.contains_key(k) <==> exists|j: int|
                    0 <= j < i && (#[trigger] map.pairs()[j]).0@ == k,
            forall|k: Seq<char>| #[trigger]
                out@.contains_key(k) ==> map@.contains_key(k) && out@[k]@ == map@[k]@,
        decreases map.pairs().len() - i,
    {
        let (key, value) = map.entry(i);
        out.insert(key.clone(), value.clone());
        i += 1;
    }
    out
}

/// A copy of a map of positions.
fn clone_positions(map: &BTreeMap<usize, Kind>) -> (r: BTreeMap<usize, Kind>)
    ensures
        kinds_of_positions(r@) == kinds_of_positions(map@),
    decreases map,
{
    let mut out: BTreeMap<usize, Kind> = BTreeMap::new();
    for entry in entries: map.iter()
        invariant
            forall|j: int|
                0 <= j < entries.seq().len() ==> map@.contains_key(
                    *(#[trigger] entries.seq()[j]).0,
                ) && map@[*entries.seq()[j].0] == *entries.seq()[j].1,
            forall|k: usize| #[trigger]
                map@.contains_key(k) ==> exists|j: int|
                    0 <= j < entries.seq().len() && *(#[trigger] entries.seq()[j]).0 == k,
            forall|k: usize| #[trigger]
                out@.contains_key(k) <==> exists|j: int|
                    0 <= j < entries.index() && *(#[trigger] entries.seq()[j]).0 == k,
            forall|k: usize| #[trigger] out@.contains_key(k) ==> out@[k]@ == map@[k]@,
    {
        let (position, kind) = entry;
        out.insert(*position, kind.clone());
    }
    assert(kinds_of_positions(out@) =~= kinds_of_positions(map@));
    out
}

/// A copy of what is known of the unlisted places.
fn clone_unknown(unknown: &Option<Unknown>) -> (r: Option<Unknown>)
    ensures
        unknown_view(r) == unknown_view(*unknown),
    decreases unknown,
{
    match unknown {
        None => None,
        Some(Unknown::Exact(kind)) => Some(Unknown::Exact(Box::new((**kind).clone()))),
        Some(Unknown::Infinite(infinite)) => Some(Unknown::Infinite(*infinite)),
    }
}

impl Clone for Kind {
    fn clone(&self) -> (r: Kind)
        ensures
            r@ == self@,
        decreases self,
    {
        let object = match &self.object {
            None => None,
            Some(c) => Some(
                ObjectCollection {
                    known: clone_fields(&c.known),
                    unknown: clone_unknown(&c.unknown),
                },
            ),
        };
        let array = match &self.array {
            None => None,
            Some(c) => Some(
                ArrayCollection {
                    known: clone_positions(&c.known),
                    unknown: clone_unknown(&c.unknown),
                },
            ),
        };
        let r = Kind {
            bytes: self.bytes,
            integer: self.integer,
            float: self.float,
            boolean: self.boolean,
            timestamp: self.timestamp,
            regex: self.regex,
            null: self.null,
            object,
            array,
        };
        proof {
            lemma_view_kind(*self);
            lemma_view_kind(r);
        }
        r
    }
}

impl ObjectCollection {
    /// The shape of an object of which no field is known.
    pub fn empty() -> (c: Self)
        ensures
            object_view(Some(c)) == (FieldsView::Present { known: Map::empty(), unknown: UnknownView::Absent }),
    {
        let c = ObjectCollection { known: KeyMap::new(), unknown: None };
        assert(kinds_of_fields(c.known@) =~= Map::empty());
        c
    }

    /// The same shape with the field `name` known to hold `kind`.
    pub fn with_known(self, name: &str, kind: Kind) -> (c: Self)
        ensures
            object_view(Some(c)) == (FieldsView::Present {
                known: object_view(Some(self))->known.insert(name@, kind@),
                unknown: object_view(Some(self))->unknown,
            }),
    {
        let mut known = self.known;
        let ghost before = known@;
        known.insert(String::from_str(name), kind);
        assert(kinds_of_fields(known@) =~= kinds_of_fields(before).insert(name@, kind@));
        ObjectCollection { known, unknown: self.unknown }
    }

    /// The same shape with every field that is not listed holding `kind`.
    pub fn with_unknown(self, kind: Kind) -> (c: Self)
        ensures
            object_view(Some(c)) == (FieldsView::Present {
                known: object_view(Some(self))->known,
                unknown: UnknownView::Exact(Box::new(kind@)),
            }),
    {
        ObjectCollection { known: self.known, unknown: Some(Unknown::Exact(Box::new(kind))) }
    }
}

impl ArrayCollection {
    /// The shape of an array of which no item is known.
    pub fn empty() -> (c: Self)
        ensures
            array_view(Some(c)) == (ItemsView::Present { known: Map::empty(), unknown: UnknownView::Absent }),
    {
        let c = ArrayCollection { known: BTreeMap::new(), unknown: None };
        assert(kinds_of_positions(c.known@) =~= Map::empty());
        c
    }

    /// The same shape with the item at `index` known to hold `kind`.
    pub fn with_known(self, index: usize, kind: Kind) -> (c: Self)
        ensures
            array_view(Some(c)) == (ItemsView::Present {
                known: array_view(Some(self))->known.insert(index, kind@),
                unknown: array_view(Some(self))->unknown,
            }),
    {
        let mut known = self.known;
        let ghost before = known@;
        known.insert(index, kind);
        assert(kinds_of_positions(known@) =~= kinds_of_positions(before).insert(index, kind@));
        ArrayCollection { known, unknown: self.unknown }
    }

    /// The same shape with every item that is not listed holding `kind`.
    pub fn with_unknown(self, kind: Kind) -> (c: Self)
        ensures
            array_view(Some(c)) == (ItemsView::Present {
                known: array_view(Some(self))->known,
                unknown: UnknownView::Exact(Box::new(kind@)),
            }),
    {
        ArrayCollection { known: self.known, unknown: Some(Unknown::Exact(Box::new(kind))) }
    }
}

impl Kind {
    /// The kind without any shape.
    pub fn never() -> (kind: Kind)
        ensures
            kind@ == KindView::never(),
    {
        let kind = Kind {
            bytes: false,
            integer: false,
            float: false,
            boolean: false,
            timestamp: false,
            regex: false,
            null: false,
            object: None,
            array: None,
        };
        proof {
            lemma_view_kind(kind);
        }
        kind
    }

    /// The kind of byte strings.
    pub fn bytes() -> (kind: Kind)
        ensures
            kind@ == (KindView { bytes: true, ..KindView::never() }),
    {
        Kind::never().or_bytes()
    }

    /// The kind of integers.
    pub fn integer() -> (kind: Kind)
        ensures
            kind@ == (KindView { integer: true, ..KindView::never() }),
    {
        Kind::never().or_integer()
    }

    /// The kind of floating-point numbers.
    pub fn float() -> (kind: Kind)
        ensures
            kind@ == (KindView { float: true, ..KindView::never() }),
    {
        Kind::never().or_float()
    }

    /// The kind of booleans.
    pub fn boolean() -> (kind: Kind)
        ensures
            kind@ == (KindView { boolean: true, ..KindView::never() }),
    {
        Kind::never().or_boolean()
    }

    /// The kind of timestamps.
    pub fn timestamp() -> (kind: Kind)
        ensures
            kind@ == (KindView { timestamp: true, ..KindView::never() }),
    {
        Kind::never().or_timestamp()
    }

    /// The kind of regular expressions.
    pub fn regex() -> (kind: Kind)
        ensures
            kind@ == (KindView { regex: true, ..KindView::never() }),
    {
        Kind::never().or_regex()
    }

    /// The kind of null.
    pub fn null() -> (kind: Kind)
        ensures
            kind@ == (KindView { null: true, ..KindView::never() }),
    {
        Kind::never().or_null()
    }

    /// The kind of objects of the shape `shape`.
    pub fn object(shape: ObjectCollection) -> (kind: Kind)
        ensures
            kind@ == (KindView { object: object_view(Some(shape)), ..KindView::never() }),
    {
        Kind::never().or_object(shape)
    }

    /// The kind of arrays of the shape `shape`.
    pub fn array(shape: ArrayCollection) -> (kind: Kind)
        ensures
            kind@ == (KindView { array: array_view(Some(shape)), ..KindView::never() }),
    {
        Kind::never().or_array(shape)
    }

    /// The kind that an endlessly repeating shape unfolds to.
    pub fn from_infinite(infinite: Infinite) -> (kind: Kind)
        ensures
            kind@ == KindView::of_infinite(infinite),
    {
        let object = ObjectCollection {
            known: KeyMap::new(),
            unknown: Some(Unknown::Infinite(infinite)),
        };
        let array = ArrayCollection {
            known: BTreeMap::new(),
            unknown: Some(Unknown::Infinite(infinite)),
        };
        let kind = Kind {
            bytes: infinite.bytes,
            integer: infinite.integer,
            float: infinite.float,
            boolean: infinite.boolean,
            timestamp: infinite.timestamp,
            regex: infinite.regex,
            null: infinite.null,
            object: Some(object),
            array: Some(array),
        };
        proof {
            lemma_view_kind(kind);
            assert(kinds_of_fields(object.known@) =~= Map::empty());
            assert(kinds_of_positions(array.known@) =~= Map::empty());
        }
        kind
    }

    /// The same kind, or a byte string.
    pub fn or_bytes(self) -> (kind: Kind)
        ensures
            kind@ == (KindView { bytes: true, ..self@ }),
    {
        let kind = Kind { bytes: true, ..self };
        proof {
            lemma_view_kind(self);
            lemma_view_kind(kind);
        }
        kind
    }

    /// The same kind, or an integer.
    pub fn or_integer(self) -> (kind: Kind)
        ensures
            kind@ == (KindView { integer: true, ..self@ }),
    {
        let kind = Kind { integer: true, ..self };
        proof {
            lemma_view_kind(self);
            lemma_view_kind(kind);
        }
        kind
    }

    /// The same kind, or a floating-point number.
    pub fn or_float(self) -> (kind: Kind)
        ensures
            kind@ == (KindView { float: true, ..self@ }),
    {
        let kind = Kind { float: true, ..self };
        proof {
            lemma_view_kind(self);
            lemma_view_kind(kind);
        }
        kind
    }

    /// The same kind, or a boolean.
    pub fn or_boolean(self) -> (kind: Kind)
        ensures
            kind@ == (KindView { boolean: true, ..self@ }),
    {
        let kind = Kind { boolean: true, ..self };
        proof {
            lemma_view_kind(self);
            lemma_view_kind(kind);
        }
        kind
    }

    /// The same kind, or a timestamp.
    pub fn or_timestamp(self) -> (kind: Kind)
        ensures
            kind@ == (KindView { timestamp: true, ..self@ }),
    {
        let kind = Kind { timestamp: true, ..self };
        proof {
            lemma_view_kind(self);
            lemma_view_kind(kind);
        }
        kind
    }

    /// The same kind, or a regular expression.
    pub fn or_regex(self) -> (kind: Kind)
        ensures
            kind@ == (KindView { regex: true, ..self@ }),
    {
        let kind = Kind { regex: true, ..self };
        proof {
            lemma_view_kind(self);
            lemma_view_kind(kind);
        }
        kind
    }

    /// The same kind, or null.
    pub fn or_null(self) -> (kind: Kind)
        ensures
            kind@ == self@.or_null(),
    {
        let kind = Kind { null: true, ..self };
        proof {
            lemma_view_kind(self);
            lemma_view_kind(kind);
        }
        kind
    }

    /// The same kind, or an object of the shape `shape`, in place of any
    /// object shape the kind had.
    pub fn or_object(self, shape: ObjectCollection) -> (kind: Kind)
        ensures
            kind@ == (KindView { object: object_view(Some(shape)), ..self@ }),
    {
        let kind = Kind { object: Some(shape), ..self };
        proof {
            lemma_view_kind(self);
            lemma_view_kind(kind);
        }
        kind
    }

    /// The same kind, or an array of the shape `shape`, in place of any array
    /// shape the kind had.
    pub fn or_array(self, shape: ArrayCollection) -> (kind: Kind)
        ensures
            kind@ == (KindView { array: array_view(Some(shape)), ..self@ }),
    {
        let kind = Kind { array: Some(shape), ..self };
        proof {
            lemma_view_kind(self);
            lemma_view_kind(kind);
        }
        kind
    }

    /// Whether the kind has one shape and no other.
    pub fn is_exact(&self) -> (b: bool)
        ensures
            b == self@.is_exact(),
    {
        proof {
            lemma_view_kind(*self);
        }
        let mut n: u8 = 0;
        if self.bytes {
            n += 1;
        }
        if self.integer {
            n += 1;
        }
        if self.float {
            n += 1;
        }
        if self.boolean {
            n += 1;
        }
        if self.timestamp {
            n += 1;
        }
        if self.regex {
            n += 1;
        }
        if self.null {
            n += 1;
        }
        if self.object.is_some() {
            n += 1;
        }
        if self.array.is_some() {
            n += 1;
        }
        n == 1
    }
}

} // verus!
