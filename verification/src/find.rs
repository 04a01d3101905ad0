//! Finding the kind that lies at a path inside another kind.

use crate::kind::lemma_view_kind;
use crate::kind::FieldsView;
use crate::kind::ItemsView;
use crate::kind::Kind;
use crate::kind::KindView;
use crate::kind::Unknown;
use crate::kind::UnknownView;
use crate::path::Lookup;
use crate::path::Segment;
use crate::path::SegmentView;
use vstd::prelude::*;

verus! {

/// Why no kind can be found at a path.
#[derive(Clone, Copy, Debug, PartialEq, Eq, Structural)]
pub enum Error {
    /// The path holds a negative index, which counts from an end that a kind
    /// does not know.
    NegativeIndexPath,
}

/// Where one step of a path leads from a kind.
pub enum Step {
    /// Nowhere: the kind has no such place.
    Missing,
    /// To this kind, from which the walk goes on.
    Exact(KindView),
    /// To this kind, which repeats itself without end: the walk stops here.
    Infinite(KindView),
    /// The step is a negative index.
    Rejected,
}

/// Where a place that is not listed leads.
pub open spec fn unlisted(unknown: UnknownView) -> Step {
    match unknown {
        UnknownView::Absent => Step::Missing,
        UnknownView::Exact(kind) => Step::Exact(*kind),
        UnknownView::Infinite(infinite) => Step::Infinite(KindView::of_infinite(infinite)),
    }
}

/// Where the field `name` leads.
pub open spec fn field_step(kind: KindView, name: Seq<char>) -> Step {
    match kind.object {
        FieldsView::Absent => Step::Missing,
        FieldsView::Present { known, unknown } => if known.contains_key(name) {
            Step::Exact(known[name])
        } else {
            unlisted(unknown)
        },
    }
}

/// Where the item at `index` leads.
pub open spec fn item_step(kind: KindView, index: usize) -> Step {
    match kind.array {
        ItemsView::Absent => Step::Missing,
        ItemsView::Present { known, unknown } => if known.contains_key(index) {
            Step::Exact(known[index])
        } else {
            unlisted(unknown)
        },
    }
}

/// The first of `names` that is a listed field, if one is.
pub open spec fn first_known(known: Map<Seq<char>, KindView>, names: Seq<Seq<char>>) -> Option<
    Seq<char>,
>
    decreases names.len(),
{
    if names.len() == 0 {
        None
    } else if known.contains_key(names[0]) {
        Some(names[0])
    } else {
        first_known(known, names.skip(1))
    }
}

/// Where the first listed field among `names` leads. Only listed fields
/// count: where none of the names is listed, the step leads nowhere, whatever
/// holds of the unlisted fields.
pub open spec fn coalesce_step(kind: KindView, names: Seq<Seq<char>>) -> Step {
    match kind.object {
        FieldsView::Absent => Step::Missing,
        FieldsView::Present { known, unknown } => match first_known(known, names) {
            None => Step::Missing,
            Some(name) => field_step(kind, name),
        },
    }
}

/// Where one step leads from a kind.
pub open spec fn step(kind: KindView, segment: SegmentView) -> Step {
    match segment {
        SegmentView::Field(name) => field_step(kind, name),
        SegmentView::Coalesce(names) => coalesce_step(kind, names),
        SegmentView::Index(index) => if index < 0 {
            Step::Rejected
        } else {
            item_step(kind, index as usize)
        },
    }
}

/// The kind itself, or the kind with null added.
pub open spec fn widen(kind: KindView, or_null: bool) -> KindView {
    if or_null {
        kind.or_null()
    } else {
        kind
    }
}

/// The kind found by walking `path` from `kind`, where `or_null` says
/// whether a kind that was not exact has been stepped from already.
///
/// Stepping from a kind that is not exact may fail when the program runs, and
/// then yields null: from there on the result has null added.
pub open spec fn find_from(kind: KindView, path: Seq<SegmentView>, or_null: bool) -> Result<
    Option<KindView>,
    Error,
>
    decreases path.len(),
{
    if path.len() == 0 {
        Ok(Some(widen(kind, or_null)))
    } else {
        let or_null = or_null || !kind.is_exact();
        match step(kind, path[0]) {
            Step::Rejected => Err(Error::NegativeIndexPath),
            Step::Missing => Ok(None),
            Step::Exact(next) => find_from(next, path.skip(1), or_null),
            Step::Infinite(last) => Ok(Some(widen(last, or_null))),
        }
    }
}

/// The kind at `path` in `kind`: `Ok(None)` where the path leads nowhere, an
/// error where the walk meets a negative index.
pub open spec fn find_at_path(kind: KindView, path: Seq<SegmentView>) -> Result<
    Option<KindView>,
    Error,
> {
    find_from(kind, path, false)
}

/// The segment at `n` is a negative index.
pub open spec fn negative_at(path: Seq<SegmentView>, n: int) -> bool {
    &&& 0 <= n < path.len()
    &&& path[n] matches SegmentView::Index(index)
    &&& index < 0
}

/// The walk along `path` from `kind` takes its first `n` steps, each to a
/// kind from which it goes on.
pub open spec fn reaches(kind: KindView, path: Seq<SegmentView>, n: int) -> bool
    decreases path.len(),
{
    n <= 0 || (path.len() > 0 && match step(kind, path[0]) {
        Step::Exact(next) => reaches(next, path.skip(1), n - 1),
        _ => false,
    })
}

/// Every kind that the walk along `path` steps from is exact.
pub open spec fn steps_from_exact(kind: KindView, path: Seq<SegmentView>) -> bool
    decreases path.len(),
{
    path.len() == 0 || (kind.is_exact() && match step(kind, path[0]) {
        Step::Exact(next) => steps_from_exact(next, path.skip(1)),
        _ => true,
    })
}

/// Where the walk along `path` from `kind` ends, before null is added.
pub enum Landing {
    /// Nowhere, or at a negative index.
    Nowhere,
    /// At this kind.
    At(KindView),
}

/// Where the walk along `path` from `kind` ends.
pub open spec fn landing(kind: KindView, path: Seq<SegmentView>) -> Landing
    decreases path.len(),
{
    if path.len() == 0 {
        Landing::At(kind)
    } else {
        match step(kind, path[0]) {
            Step::Rejected => Landing::Nowhere,
            Step::Missing => Landing::Nowhere,
            Step::Exact(next) => landing(next, path.skip(1)),
            Step::Infinite(last) => Landing::At(last),
        }
    }
}

/// The path to the root finds the kind itself.
pub proof fn lemma_root_finds_self(kind: KindView)
    ensures
        find_at_path(kind, Seq::empty()) == Ok::<Option<KindView>, Error>(Some(kind)),
{
}

/// The search fails only where the path holds a negative index.
pub proof fn lemma_error_needs_negative_index(
    kind: KindView,
    path: Seq<SegmentView>,
    or_null: bool,
)
    requires
        find_from(kind, path, or_null) is Err,
    ensures
        exists|n: int| negative_at(path, n),
{
    lemma_error_is_reached(kind, path, or_null);
    let n = choose|n: int| negative_at(path, n) && reaches(kind, path, n);
    assert(negative_at(path, n));
}

/// The search fails where the walk reaches a negative index.
pub proof fn lemma_reached_negative_index_fails(
    kind: KindView,
    path: Seq<SegmentView>,
    or_null: bool,
    n: int,
)
    requires
        negative_at(path, n),
        reaches(kind, path, n),
    ensures
        find_from(kind, path, or_null) == Err::<Option<KindView>, Error>(Error::NegativeIndexPath),
    decreases path.len(),
{
    if n > 0 {
        let next = step(kind, path[0])->Exact_0;
        let rest = path.skip(1);
        lemma_reached_negative_index_fails(next, rest, or_null || !kind.is_exact(), n - 1);
    }
}

/// The search fails exactly where the walk reaches a negative index.
pub proof fn lemma_fails_iff_reaches_negative_index(kind: KindView, path: Seq<SegmentView>)
    ensures
        find_at_path(kind, path) is Err <==> exists|n: int|
            negative_at(path, n) && reaches(kind, path, n),
{
    if find_at_path(kind, path) is Err {
        lemma_error_is_reached(kind, path, false);
    }
    if exists|n: int| negative_at(path, n) && reaches(kind, path, n) {
        let n = choose|n: int| negative_at(path, n) && reaches(kind, path, n);
        lemma_reached_negative_index_fails(kind, path, false, n);
    }
}

/// Where the search fails, the walk has reached a negative index.
proof fn lemma_error_is_reached(kind: KindView, path: Seq<SegmentView>, or_null: bool)
    requires
        find_from(kind, path, or_null) is Err,
    ensures
        exists|n: int| negative_at(path, n) && reaches(kind, path, n),
    decreases path.len(),
{
    match step(kind, path[0]) {
        Step::Rejected => {
            assert(negative_at(path, 0) && reaches(kind, path, 0));
        },
        Step::Exact(next) => {
            let rest = path.skip(1);
            lemma_error_is_reached(next, rest, or_null || !kind.is_exact());
            let n = choose|n: int| negative_at(rest, n) && reaches(next, rest, n);
            assert(negative_at(path, n + 1) && reaches(kind, path, n + 1));
        },
        _ => {},
    }
}

/// What is found is the kind on which the walk lands, with null added exactly
/// where a kind that is not exact was stepped from.
pub proof fn lemma_null_is_added_after_inexact_step(
    kind: KindView,
    path: Seq<SegmentView>,
    or_null: bool,
)
    ensures
        match landing(kind, path) {
            Landing::At(last) => find_from(kind, path, or_null) == Ok::<Option<KindView>, Error>(
                Some(widen(last, or_null || !steps_from_exact(kind, path))),
            ),
            Landing::Nowhere => !(find_from(kind, path, or_null) matches Ok(Some(_))),
        },
    decreases path.len(),
{
    if path.len() > 0 {
        match step(kind, path[0]) {
            Step::Exact(next) => {
                lemma_null_is_added_after_inexact_step(
                    next,
                    path.skip(1),
                    or_null || !kind.is_exact(),
                );
            },
            _ => {},
        }
    }
}

/// Along a walk that steps from exact kinds only, what is found has null only
/// where the kind landed on has it.
pub proof fn lemma_exact_walk_adds_no_null(kind: KindView, path: Seq<SegmentView>)
    requires
        steps_from_exact(kind, path),
        find_at_path(kind, path) matches Ok(Some(found)) && found.null,
    ensures
        landing(kind, path) matches Landing::At(last) && last.null,
{
    lemma_null_is_added_after_inexact_step(kind, path, false);
}

/// What a step leads to, in the kind that is searched.
enum InnerKind<'a> {
    Exact(&'a Kind),
    Infinite(Kind),
}

impl<'a> InnerKind<'a> {
    /// The step that this stands for.
    spec fn as_step(r: Option<InnerKind<'a>>) -> Step {
        match r {
            None => Step::Missing,
            Some(InnerKind::Exact(kind)) => Step::Exact(kind@),
            Some(InnerKind::Infinite(kind)) => Step::Infinite(kind@),
        }
    }
}

/// Where a place that is not listed leads.
fn from_unknown<'a>(unknown: &'a Option<Unknown>) -> (r: Option<InnerKind<'a>>)
    ensures
        InnerKind::as_step(r) == unlisted(crate::kind::unknown_view(*unknown)),
{
    match unknown {
        None => None,
        Some(Unknown::Exact(kind)) => Some(InnerKind::Exact(&**kind)),
        Some(Unknown::Infinite(infinite)) => Some(InnerKind::Infinite(Kind::from_infinite(*infinite))),
    }
}

/// Where the field `name` leads.
fn get_field_from_object<'a>(kind: &'a Kind, name: &str) -> (r: Option<InnerKind<'a>>)
    ensures
        InnerKind::as_step(r) == field_step(kind@, name@),
{
    proof {
        lemma_view_kind(*kind);
    }
    match &kind.object {
        None => None,
        Some(collection) => match collection.known.get(name) {
            Some(known) => Some(InnerKind::Exact(known)),
            None => from_unknown(&collection.unknown),
        },
    }
}

/// Where the item at `index` leads.
fn get_element_from_array<'a>(kind: &'a Kind, index: usize) -> (r: Option<InnerKind<'a>>)
    ensures
        InnerKind::as_step(r) == item_step(kind@, index),
{
    proof {
        lemma_view_kind(*kind);
    }
    match &kind.array {
        None => None,
        Some(collection) => match collection.known.get(&index) {
            Some(known) => Some(InnerKind::Exact(known)),
            None => from_unknown(&collection.unknown),
        },
    }
}

/// Where the first listed field among `names` leads.
fn get_coalesced_from_object<'a>(kind: &'a Kind, names: &Vec<String>) -> (r: Option<
    InnerKind<'a>,
>)
    ensures
        InnerKind::as_step(r) == coalesce_step(kind@, crate::path::texts(names@)),
{
    proof {
        lemma_view_kind(*kind);
    }
    match &kind.object {
        None => None,
        Some(collection) => {
            let ghost known = kind@.object->known;
            let ghost all = crate::path::texts(names@);
            let mut i: usize = 0;
            assert(all.skip(0) =~= all);
            while i < names.len()
                invariant
                    i <= names@.len(),
                    all == crate::path::texts(names@),
                    kind@.object is Present,
                    kind@.object->known == known,
                    known == crate::kind::kinds_of_fields(collection.known@),
                    first_known(known, all) == first_known(known, all.skip(i as int)),
                decreases names@.len() - i,
            {
                if collection.known.contains_key(names[i].as_str()) {
                    return get_field_from_object(kind, names[i].as_str());
                }
                assert(all.skip(i as int).skip(1) =~= all.skip(i + 1));
                i += 1;
            }
            None
        },
    }
}

impl Kind {
    /// Finds the kind at `path`.
    ///
    /// The root path finds the kind itself. A path that leads to no place of
    /// the kind finds nothing. A place that is not listed in a collection has
    /// the kind that the collection gives to its unlisted places. Where the
    /// walk steps from a kind that is not exact, what is found has null added.
    ///
    /// Fails where the walk meets a negative index.
    pub fn find_at_path(&self, path: &Lookup) -> (r: Result<Option<Kind>, Error>)
        ensures
            match find_at_path(self@, path@) {
                Ok(Some(found)) => r matches Ok(Some(kind)) && kind@ == found,
                Ok(None) => r matches Ok(None),
                Err(error) => r matches Err(e) && e == error,
            },
    {
        let mut or_null = false;
        let mut kind: &Kind = self;
        let mut i: usize = 0;
        assert(path@.skip(0) =~= path@);
        while i < path.len()
            invariant
                i <= path@.len(),
                find_from(self@, path@, false) == find_from(kind@, path@.skip(i as int), or_null),
            decreases path@.len() - i,
        {
            if !kind.is_exact() {
                or_null = true;
            }
            proof {
                assert(path@.skip(i as int).skip(1) =~= path@.skip(i + 1));
            }
            let found = match path.segment(i) {
                Segment::Field(name) => get_field_from_object(kind, name.as_str()),
                Segment::Coalesce(names) => get_coalesced_from_object(kind, names),
                Segment::Index(index) => {
                    if *index < 0 {
                        return Err(Error::NegativeIndexPath);
                    }
                    get_element_from_array(kind, *index as usize)
                },
            };
            match found {
                None => {
                    return Ok(None);
                },
                Some(InnerKind::Exact(next)) => {
                    kind = next;
                },
                Some(InnerKind::Infinite(last)) => {
                    return Ok(Some(if or_null { last.or_null() } else { last }));
                },
            }
            i += 1;
        }
        Ok(Some(if or_null { kind.clone().or_null() } else { kind.clone() }))
    }
}

} // verus!
