//! Paths into values and kinds.

use vstd::prelude::*;

verus! {

/// One step of a path.
#[derive(Debug, PartialEq, Eq)]
pub enum Segment {
    /// The field of that name.
    Field(String),
    /// The first of these fields that is there.
    Coalesce(Vec<String>),
    /// The item at that position; a negative position counts from the end.
    Index(isize),
}

/// What a [`Segment`] stands for.
pub enum SegmentView {
    Field(Seq<char>),
    Coalesce(Seq<Seq<char>>),
    Index(int),
}

/// The texts that a sequence of strings holds.
pub open spec fn texts(names: Seq<String>) -> Seq<Seq<char>> {
    Seq::new(names.len(), |i: int| names[i]@)
}

impl View for Segment {
    type V = SegmentView;

    open spec fn view(&self) -> SegmentView {
        match self {
            Segment::Field(name) => SegmentView::Field(name@),
            Segment::Coalesce(names) => SegmentView::Coalesce(texts(names@)),
            Segment::Index(index) => SegmentView::Index(*index as int),
        }
    }
}

/// Copies of a list of names.
fn clone_names(names: &Vec<String>) -> (r: Vec<String>)
    ensures
        texts(r@) == texts(names@),
{
    let mut out: Vec<String> = Vec::new();
    let mut i: usize = 0;
    while i < names.len()
        invariant
            i <= names@.len(),
            out@.len() == i,
            forall|j: int| 0 <= j < i ==> out@[j]@ == names@[j]@,
        decreases names@.len() - i,
    {
        out.push(names[i].clone());
        i += 1;
    }
    out
}

/// Whether two lists hold the same names in the same order.
fn names_equal(a: &Vec<String>, b: &Vec<String>) -> (same: bool)
    ensures
        same == (texts(a@) == texts(b@)),
{
    if a.len() != b.len() {
        return false;
    }
    let mut i: usize = 0;
    while i < a.len()
        invariant
            i <= a@.len(),
            a@.len() == b@.len(),
            forall|j: int| 0 <= j < i ==> a@[j]@ == b@[j]@,
        decreases a@.len() - i,
    {
        if a[i] != b[i] {
            assert(texts(a@)[i as int] != texts(b@)[i as int]);
            return false;
        }
        i += 1;
    }
    assert(texts(a@) =~= texts(b@));
    true
}

impl Segment {
    /// The step to the field called `name`.
    pub fn field(name: &str) -> (segment: Segment)
        ensures
            segment@ == SegmentView::Field(name@),
    {
        Segment::Field(String::from_str(name))
    }

    /// The step to the position `index`.
    pub fn index(index: isize) -> (segment: Segment)
        ensures
            segment@ == SegmentView::Index(index as int),
    {
        Segment::Index(index)
    }

    /// Whether two steps are the same.
    pub fn equals(&self, other: &Segment) -> (same: bool)
        ensures
            same == (self@ == other@),
    {
        match (self, other) {
            (Segment::Field(a), Segment::Field(b)) => *a == *b,
            (Segment::Coalesce(a), Segment::Coalesce(b)) => names_equal(a, b),
            (Segment::Index(a), Segment::Index(b)) => *a == *b,
            _ => false,
        }
    }
}

impl Clone for Segment {
    fn clone(&self) -> (r: Segment)
        ensures
            r@ == self@,
    {
        match self {
            Segment::Field(name) => Segment::Field(name.clone()),
            Segment::Coalesce(names) => Segment::Coalesce(clone_names(names)),
            Segment::Index(index) => Segment::Index(*index),
        }
    }
}

/// A path: the steps to take from a root, in order. The path without steps
/// is the root itself.
#[derive(Debug, PartialEq, Eq)]
pub struct Lookup {
    pub segments: Vec<Segment>,
}

/// The steps that a sequence of segments stands for.
pub open spec fn steps(segments: Seq<Segment>) -> Seq<SegmentView> {
    Seq::new(segments.len(), |i: int| segments[i]@)
}

impl View for Lookup {
    type V = Seq<SegmentView>;

    open spec fn view(&self) -> Seq<SegmentView> {
        steps(self.segments@)
    }
}

impl Lookup {
    /// The path to the root.
    pub fn root() -> (path: Lookup)
        ensures
            path@ == Seq::<SegmentView>::empty(),
    {
        let path = Lookup { segments: Vec::new() };
        path
    }

    /// The path that takes `segments` in order.
    pub fn from_segments(segments: Vec<Segment>) -> (path: Lookup)
        ensures
            path@ == steps(segments@),
    {
        Lookup { segments }
    }

    /// Whether the path has no steps.
    pub fn is_root(&self) -> (b: bool)
        ensures
            b == (self@.len() == 0),
    {
        self.segments.len() == 0
    }

    /// The number of steps.
    pub fn len(&self) -> (n: usize)
        ensures
            n == self@.len(),
    {
        self.segments.len()
    }

    /// The `i`-th step.
    pub fn segment(&self, i: usize) -> (segment: &Segment)
        requires
            i < self@.len(),
        ensures
            segment@ == self@[i as int],
    {
        &self.segments[i]
    }

    /// Whether two paths take the same steps.
    pub fn equals(&self, other: &Lookup) -> (same: bool)
        ensures
            same == (self@ == other@),
    {
        if self.segments.len() != other.segments.len() {
            assert(self@.len() != other@.len());
            return false;
        }
        let mut i: usize = 0;
        while i < self.segments.len()
            invariant
                i <= self.segments@.len(),
                self.segments@.len() == other.segments@.len(),
                forall|j: int| 0 <= j < i ==> self.segments@[j]@ == other.segments@[j]@,
            decreases self.segments@.len() - i,
        {
            if !self.segments[i].equals(&other.segments[i]) {
                assert(self@[i as int] != other@[i as int]);
                return false;
            }
            i += 1;
        }
        assert(self@ =~= other@);
        true
    }
}

impl Clone for Lookup {
    fn clone(&self) -> (r: Lookup)
        ensures
            r@ == self@,
    {
        let mut out: Vec<Segment> = Vec::new();
        let mut i: usize = 0;
        while i < self.segments.len()
            invariant
                i <= self.segments@.len(),
                out@.len() == i,
                forall|j: int| 0 <= j < i ==> out@[j]@ == self.segments@[j]@,
            decreases self.segments@.len() - i,
        {
            out.push(self.segments[i].clone());
            i += 1;
        }
        let r = Lookup { segments: out };
        r
    }
}

} // verus!
