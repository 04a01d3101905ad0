use vrl_core::find::Error;
use vrl_core::kind::ArrayCollection;
use vrl_core::kind::Infinite;
use vrl_core::kind::Kind;
use vrl_core::kind::ObjectCollection;
use vrl_core::kind::Unknown;
use vrl_core::path::Lookup;
use vrl_core::path::Segment;

fn field(name: &str) -> Lookup {
    Lookup::from_segments(vec![Segment::field(name)])
}

fn index(i: isize) -> Lookup {
    Lookup::from_segments(vec![Segment::index(i)])
}

fn object_with_foo_integer() -> ObjectCollection {
    ObjectCollection::empty().with_known("foo", Kind::integer())
}

#[test]
fn test_find_at_path() {
    struct TestCase {
        kind: Kind,
        path: Lookup,
        want: Result<Option<Kind>, Error>,
    }

    let cases = vec![
        (
            "primitive",
            TestCase {
                kind: Kind::bytes(),
                path: field("foo"),
                want: Ok(None),
            },
        ),
        (
            "multiple primitives",
            TestCase {
                kind: Kind::integer().or_regex(),
                path: field("foo"),
                want: Ok(None),
            },
        ),
        (
            "object w/ matching path",
            TestCase {
                kind: Kind::object(object_with_foo_integer()),
                path: field("foo"),
                want: Ok(Some(Kind::integer())),
            },
        ),
        (
            "object w/ unknown, w/o matching path",
            TestCase {
                kind: Kind::object(object_with_foo_integer().with_unknown(Kind::boolean())),
                path: field("bar"),
                want: Ok(Some(Kind::boolean())),
            },
        ),
        (
            "object w/o unknown, w/o matching path",
            TestCase {
                kind: Kind::object(object_with_foo_integer()),
                path: field("bar"),
                want: Ok(None),
            },
        ),
        (
            "array w/ matching path",
            TestCase {
                kind: Kind::array(ArrayCollection::empty().with_known(1, Kind::integer())),
                path: index(1),
                want: Ok(Some(Kind::integer())),
            },
        ),
        (
            "array w/ unknown, w/o matching path",
            TestCase {
                kind: Kind::array(
                    ArrayCollection::empty()
                        .with_known(1, Kind::integer())
                        .with_unknown(Kind::bytes()),
                ),
                path: index(2),
                want: Ok(Some(Kind::bytes())),
            },
        ),
        (
            "array w/o unknown, w/o matching path",
            TestCase {
                kind: Kind::array(ArrayCollection::empty().with_known(1, Kind::integer())),
                path: index(2),
                want: Ok(None),
            },
        ),
        (
            "array w/ negative indexing",
            TestCase {
                kind: Kind::array(ArrayCollection::empty().with_known(1, Kind::integer())),
                path: index(-1),
                want: Err(Error::NegativeIndexPath),
            },
        ),
        (
            "complex pathing",
            TestCase {
                kind: Kind::object(
                    ObjectCollection::empty().with_known(
                        "foo",
                        Kind::array(
                            ArrayCollection::empty()
                                .with_known(1, Kind::integer())
                                .with_known(
                                    2,
                                    Kind::object(
                                        ObjectCollection::empty()
                                            .with_known(
                                                "bar",
                                                Kind::object(ObjectCollection::empty().with_known(
                                                    "baz",
                                                    Kind::integer().or_regex(),
                                                )),
                                            )
                                            .with_known("qux", Kind::boolean()),
                                    ),
                                ),
                        ),
                    ),
                ),
                path: Lookup::from_segments(vec![
                    Segment::field("foo"),
                    Segment::index(2),
                    Segment::field("bar"),
                ]),
                want: Ok(Some(Kind::object(
                    ObjectCollection::empty().with_known("baz", Kind::integer().or_regex()),
                ))),
            },
        ),
        (
            "unknown kind for missing object path",
            TestCase {
                kind: Kind::object(
                    ObjectCollection::empty()
                        .with_known("foo", Kind::timestamp())
                        .with_unknown(Kind::bytes().or_integer()),
                ),
                path: field("nope"),
                want: Ok(Some(Kind::bytes().or_integer())),
            },
        ),
        (
            "unknown kind for missing array index",
            TestCase {
                kind: Kind::array(
                    ArrayCollection::empty()
                        .with_known(0, Kind::timestamp())
                        .with_unknown(Kind::regex().or_null()),
                ),
                path: index(1),
                want: Ok(Some(Kind::regex().or_null())),
            },
        ),
        (
            "or null for nested nullable path",
            TestCase {
                kind: Kind::object(object_with_foo_integer()).or_null(),
                path: field("foo"),
                want: Ok(Some(Kind::integer().or_null())),
            },
        ),
    ];

    for (title, TestCase { kind, path, want }) in cases {
        assert_eq!(kind.find_at_path(&path), want, "returned: {}", title);
    }
}

#[test]
fn root_path_finds_the_kind_itself() {
    let kind = Kind::object(object_with_foo_integer()).or_null();
    assert_eq!(kind.find_at_path(&Lookup::root()), Ok(Some(kind.clone())));
    assert!(Lookup::root().is_root());
}

#[test]
fn field_of_object_with_one_known_field() {
    let kind = Kind::object(object_with_foo_integer());
    assert_eq!(kind.find_at_path(&field("foo")), Ok(Some(Kind::integer())));
    assert_eq!(kind.find_at_path(&field("bar")), Ok(None));
    let open = Kind::object(object_with_foo_integer().with_unknown(Kind::boolean()));
    assert_eq!(open.find_at_path(&field("bar")), Ok(Some(Kind::boolean())));
}

#[test]
fn field_of_object_or_null_has_null_added() {
    let kind = Kind::object(object_with_foo_integer()).or_null();
    assert_eq!(
        kind.find_at_path(&field("foo")),
        Ok(Some(Kind::integer().or_null()))
    );
}

#[test]
fn negative_index_fails_only_where_the_walk_reaches_it() {
    let array = Kind::array(ArrayCollection::empty().with_known(0, Kind::integer()));
    assert_eq!(
        array.find_at_path(&index(-1)),
        Err(Error::NegativeIndexPath)
    );
    // Even a kind without arrays rejects the negative index.
    assert_eq!(
        Kind::bytes().find_at_path(&index(-3)),
        Err(Error::NegativeIndexPath)
    );
    // The walk ends at the first step, before the negative index is met.
    let path = Lookup::from_segments(vec![Segment::field("foo"), Segment::index(-1)]);
    assert_eq!(Kind::bytes().find_at_path(&path), Ok(None));
    // The walk reaches the negative index through a known field.
    let nested = Kind::object(ObjectCollection::empty().with_known("foo", array));
    assert_eq!(nested.find_at_path(&path), Err(Error::NegativeIndexPath));
}

#[test]
fn exact_walk_keeps_the_kind_as_it_is() {
    let kind = Kind::object(ObjectCollection::empty().with_known("foo", Kind::null()));
    // The kind found has null because the field has it, not because it was added.
    assert_eq!(kind.find_at_path(&field("foo")), Ok(Some(Kind::null())));
    let inner = Kind::object(ObjectCollection::empty().with_known("bar", Kind::bytes()));
    let outer = Kind::object(ObjectCollection::empty().with_known("foo", inner));
    let path = Lookup::from_segments(vec![Segment::field("foo"), Segment::field("bar")]);
    assert_eq!(outer.find_at_path(&path), Ok(Some(Kind::bytes())));
}

#[test]
fn inexact_step_in_the_middle_adds_null() {
    let inner = Kind::object(ObjectCollection::empty().with_known("bar", Kind::bytes()))
        .or_integer();
    let outer = Kind::object(ObjectCollection::empty().with_known("foo", inner));
    let path = Lookup::from_segments(vec![Segment::field("foo"), Segment::field("bar")]);
    assert_eq!(outer.find_at_path(&path), Ok(Some(Kind::bytes().or_null())));
}

#[test]
fn coalesce_takes_the_first_known_field() {
    let kind = Kind::object(
        ObjectCollection::empty()
            .with_known("b", Kind::integer())
            .with_known("c", Kind::boolean()),
    );
    let path = Lookup::from_segments(vec![Segment::Coalesce(vec![
        "a".to_string(),
        "c".to_string(),
        "b".to_string(),
    ])]);
    assert_eq!(kind.find_at_path(&path), Ok(Some(Kind::boolean())));
}

#[test]
fn coalesce_does_not_fall_back_to_unknown_fields() {
    let kind = Kind::object(
        ObjectCollection::empty()
            .with_known("b", Kind::integer())
            .with_unknown(Kind::bytes()),
    );
    let path = Lookup::from_segments(vec![Segment::Coalesce(vec![
        "x".to_string(),
        "y".to_string(),
    ])]);
    assert_eq!(kind.find_at_path(&path), Ok(None));
    // A single field of the same name does fall back.
    assert_eq!(kind.find_at_path(&field("x")), Ok(Some(Kind::bytes())));
}

#[test]
fn infinite_unknown_ends_the_walk() {
    let infinite = Infinite {
        bytes: true,
        integer: false,
        float: false,
        boolean: false,
        timestamp: false,
        regex: false,
        null: true,
    };
    let kind = Kind::object(ObjectCollection {
        known: vrl_core::keymap::KeyMap::new(),
        unknown: Some(Unknown::Infinite(infinite)),
    });
    let path = Lookup::from_segments(vec![
        Segment::field("a"),
        Segment::field("b"),
        Segment::index(-1),
    ]);
    // The walk stops at the first step: the rest of the path is not looked at.
    assert_eq!(
        kind.find_at_path(&path),
        Ok(Some(Kind::from_infinite(infinite)))
    );
    let unfolded = Kind::from_infinite(infinite);
    assert!(unfolded.bytes && unfolded.null && !unfolded.integer);
    assert!(unfolded.object.is_some() && unfolded.array.is_some());
}

#[test]
fn is_exact_counts_shapes() {
    assert!(Kind::bytes().is_exact());
    assert!(Kind::null().is_exact());
    assert!(!Kind::never().is_exact());
    assert!(!Kind::bytes().or_null().is_exact());
    assert!(Kind::object(ObjectCollection::empty()).is_exact());
    assert!(!Kind::object(ObjectCollection::empty())
        .or_array(ArrayCollection::empty())
        .is_exact());
    assert!(Kind::float().is_exact() && Kind::boolean().is_exact() && Kind::timestamp().is_exact());
}

#[test]
fn kind_clone_is_equal() {
    let kind = Kind::object(
        ObjectCollection::empty()
            .with_known("b", Kind::integer())
            .with_known("a", Kind::array(ArrayCollection::empty().with_known(3, Kind::regex())))
            .with_unknown(Kind::bytes()),
    )
    .or_null();
    assert_eq!(kind.clone(), kind);
}

#[test]
fn known_fields_do_not_depend_on_insertion_order() {
    let one = ObjectCollection::empty()
        .with_known("b", Kind::integer())
        .with_known("a", Kind::bytes());
    let other = ObjectCollection::empty()
        .with_known("a", Kind::bytes())
        .with_known("b", Kind::integer());
    assert_eq!(Kind::object(one), Kind::object(other));
    let first = ArrayCollection::empty()
        .with_known(7, Kind::integer())
        .with_known(2, Kind::bytes())
        .with_known(7, Kind::boolean());
    let second = ArrayCollection::empty()
        .with_known(2, Kind::bytes())
        .with_known(7, Kind::boolean());
    assert_eq!(Kind::array(first), Kind::array(second));
}
