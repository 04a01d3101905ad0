use vrl_core::arithmetic::ValueKind;
use vrl_core::config::default_api_key_reload_interval;
use vrl_core::config::BasicSinkConfig;
use vrl_core::config::BatchSettings;
use vrl_core::context::Parameter;
use vrl_core::context::Runtime;
use vrl_core::context::VmArgument;
use vrl_core::context::VmArgumentList;
use vrl_core::error::kind_name;
use vrl_core::error::CallError;
use vrl_core::error::Span;
use vrl_core::keymap::rank_bytes;
use vrl_core::keymap::rank_keys;
use vrl_core::keymap::KeyMap;
use vrl_core::keymap::Rank;
use vrl_core::kind::ArrayCollection;
use vrl_core::kind::Kind;
use vrl_core::kind::ObjectCollection;
use vrl_core::output::EventNotification;
use vrl_core::output::EventNotificationType;
use vrl_core::output::Log;
use vrl_core::output::Metric;
use vrl_core::output::OutputEventsPayload;
use vrl_core::output::TapNotification;
use vrl_core::output::TapPayload;
use vrl_core::output::Trace;
use vrl_core::path::Lookup;
use vrl_core::path::Segment;
use vrl_core::text::decimal;
use vrl_core::text::padded;
use vrl_core::text::read_lossy;
use vrl_core::value::Value;
use vrl_core::variable::Variable;

fn text(s: &str) -> Value {
    Value::from_text(s)
}

fn object(pairs: Vec<(&str, Value)>) -> Value {
    let mut map = KeyMap::new();
    for (key, value) in pairs {
        map.insert(key.to_string(), value);
    }
    Value::Object(map)
}

fn path(segments: Vec<Segment>) -> Lookup {
    Lookup::from_segments(segments)
}

fn coalesce(names: &[&str]) -> Segment {
    Segment::Coalesce(names.iter().map(|name| name.to_string()).collect())
}

#[test]
fn keymap_keeps_keys_in_order() {
    let mut map = KeyMap::new();
    for key in ["pear", "apple", "fig", "apple", "", "é", "z", "Zebra"] {
        map.insert(key.to_string(), key.len());
    }
    let keys: Vec<String> = (0..map.len()).map(|i| map.entry(i).0.clone()).collect();
    let mut sorted = vec!["", "Zebra", "apple", "fig", "pear", "z", "é"];
    sorted.sort();
    assert_eq!(keys, sorted);
    assert_eq!(map.len(), 7);
    assert_eq!(map.get("apple"), Some(&5));
    assert_eq!(map.get("é"), Some(&2));
    assert_eq!(map.get("grape"), None);
    assert!(map.contains_key("") && !map.contains_key("a"));
}

#[test]
fn keymap_insert_replaces_and_remove_takes_out() {
    let mut map = KeyMap::new();
    map.insert("a".to_string(), 1);
    map.insert("b".to_string(), 2);
    map.insert("a".to_string(), 3);
    assert_eq!(map.len(), 2);
    assert_eq!(map.get("a"), Some(&3));
    assert_eq!(map.remove("a"), Some(3));
    assert_eq!(map.remove("a"), None);
    assert_eq!(map.get("a"), None);
    assert_eq!(map.get("b"), Some(&2));
    assert_eq!(map.len(), 1);
    let mut other = KeyMap::new();
    other.insert("b".to_string(), 2);
    assert_eq!(map, other);
}

#[test]
fn keys_are_ranked_as_strings_are_ordered() {
    let samples = ["", "a", "ab", "abc", "b", "B", "é", "e", "日本", "z\u{10ffff}", "zz"];
    for a in samples {
        for b in samples {
            let rank = rank_keys(a, b);
            let expected = match a.cmp(b) {
                std::cmp::Ordering::Less => Rank::Before,
                std::cmp::Ordering::Equal => Rank::Same,
                std::cmp::Ordering::Greater => Rank::After,
            };
            assert_eq!(rank, expected);
            assert_eq!(rank_bytes(a.as_bytes(), b.as_bytes()), expected);
        }
    }
    assert_eq!(rank_bytes(&[0xff], &[0x00, 0xff]), Rank::After);
    assert_eq!(rank_bytes(&[1, 2], &[1, 2, 0]), Rank::Before);
}

#[test]
fn values_are_equal_by_contents() {
    let one = object(vec![
        ("b", Value::Array(vec![Value::Integer(1), text("x")])),
        ("a", Value::Regex("a+".to_string())),
    ]);
    let same = object(vec![
        ("a", Value::Regex("a+".to_string())),
        ("b", Value::Array(vec![Value::Integer(1), text("x")])),
    ]);
    assert!(one.equals(&same));
    assert_eq!(one, same);
    assert!(one.clone().equals(&one));
    let more = object(vec![
        ("a", Value::Regex("a+".to_string())),
        ("b", Value::Array(vec![Value::Integer(1), text("x")])),
        ("c", Value::Null),
    ]);
    assert!(!one.equals(&more));
    assert!(!more.equals(&one));
    let other = object(vec![
        ("a", Value::Regex("a+".to_string())),
        ("b", Value::Array(vec![Value::Integer(1), text("y")])),
    ]);
    assert!(!one.equals(&other));
    assert!(!Value::Integer(1).equals(&Value::Float(1)));
    assert!(!Value::Float(0).equals(&Value::Float(1 << 63)));
    assert!(Value::Timestamp(3).equals(&Value::Timestamp(3)));
    assert!(!Value::Timestamp(3).equals(&Value::Integer(3)));
    assert!(!Value::Array(vec![Value::Null]).equals(&Value::Array(vec![])));
    assert!(Value::Null.equals(&Value::Null));
    assert!(!Value::Boolean(true).equals(&Value::Boolean(false)));
    assert!(!text("a").equals(&text("ab")));
    assert!(Value::Boolean(true).is_true());
    assert!(!Value::Boolean(false).is_true());
    assert!(!Value::Integer(1).is_true());
    assert!(vrl_core::interpret::is_true(&Value::Boolean(true)));
    assert!(!vrl_core::interpret::is_true(&Value::Null));
}

#[test]
fn values_know_their_kind() {
    let cases = vec![
        (Value::Null, ValueKind::Null, "null"),
        (Value::Boolean(true), ValueKind::Boolean, "boolean"),
        (Value::Integer(1), ValueKind::Integer, "integer"),
        (Value::Float(0), ValueKind::Float, "float"),
        (text("x"), ValueKind::Bytes, "string"),
        (Value::Regex(".".to_string()), ValueKind::Regex, "regex"),
        (Value::Timestamp(0), ValueKind::Timestamp, "timestamp"),
        (Value::Array(vec![]), ValueKind::Array, "array"),
        (object(vec![]), ValueKind::Object, "object"),
    ];
    for (value, kind, name) in cases {
        assert_eq!(value.kind(), kind);
        assert_eq!(kind_name(kind), name);
    }
    assert_eq!(text("héllo"), Value::Bytes("héllo".as_bytes().to_vec()));
}

#[test]
fn kinds_admit_values_by_their_shape() {
    let kind = Kind::bytes().or_null().or_array(ArrayCollection::empty());
    assert!(kind.admits(ValueKind::Bytes));
    assert!(kind.admits(ValueKind::Null));
    assert!(kind.admits(ValueKind::Array));
    assert!(!kind.admits(ValueKind::Object));
    assert!(!kind.admits(ValueKind::Integer));
    let all = Kind::integer()
        .or_float()
        .or_boolean()
        .or_timestamp()
        .or_regex()
        .or_object(ObjectCollection::empty());
    for value in [
        ValueKind::Integer,
        ValueKind::Float,
        ValueKind::Boolean,
        ValueKind::Timestamp,
        ValueKind::Regex,
        ValueKind::Object,
    ] {
        assert!(all.admits(value));
        assert!(!Kind::never().admits(value));
    }
    assert!(!all.admits(ValueKind::Bytes) && !all.admits(ValueKind::Null));
}

#[test]
fn get_by_path_walks_fields_and_items() {
    let value = object(vec![
        (
            "list",
            Value::Array(vec![
                Value::Integer(10),
                object(vec![("deep", text("found"))]),
                Value::Integer(30),
            ]),
        ),
        ("name", text("n")),
    ]);
    assert_eq!(value.get_by_path(&Lookup::root()), Some(&value));
    assert_eq!(
        value.get_by_path(&path(vec![Segment::field("name")])),
        Some(&text("n"))
    );
    assert_eq!(
        value.get_by_path(&path(vec![
            Segment::field("list"),
            Segment::index(1),
            Segment::field("deep")
        ])),
        Some(&text("found"))
    );
    assert_eq!(
        value.get_by_path(&path(vec![Segment::field("list"), Segment::index(-1)])),
        Some(&Value::Integer(30))
    );
    assert_eq!(
        value.get_by_path(&path(vec![Segment::field("list"), Segment::index(-3)])),
        Some(&Value::Integer(10))
    );
    assert_eq!(
        value.get_by_path(&path(vec![Segment::field("list"), Segment::index(-4)])),
        None
    );
    assert_eq!(
        value.get_by_path(&path(vec![Segment::field("list"), Segment::index(3)])),
        None
    );
    assert_eq!(
        value.get_by_path(&path(vec![Segment::field("name"), Segment::field("x")])),
        None
    );
    assert_eq!(value.get_by_path(&path(vec![Segment::index(0)])), None);
    assert_eq!(
        value.get_by_path(&path(vec![coalesce(&["nope", "name", "list"])])),
        Some(&text("n"))
    );
    assert_eq!(value.get_by_path(&path(vec![coalesce(&["x", "y"])])), None);
    assert_eq!(value.get_by_path(&path(vec![coalesce(&[])])), None);
    assert_eq!(
        Value::Integer(1).get_by_path(&path(vec![coalesce(&["a"])])),
        None
    );
    assert_eq!(
        value.get_or_null(&path(vec![Segment::field("missing")])),
        Value::Null
    );
    assert_eq!(
        value.get_or_null(&path(vec![Segment::field("name")])),
        text("n")
    );
}

#[test]
fn insert_by_path_puts_the_value_in_place() {
    let value = object(vec![("a", Value::Array(vec![Value::Integer(1)]))]);
    assert_eq!(
        value.clone().insert_by_path(&Lookup::root(), Value::Null),
        Value::Null
    );
    assert_eq!(
        value
            .clone()
            .insert_by_path(&path(vec![Segment::field("b")]), Value::Integer(2)),
        object(vec![
            ("a", Value::Array(vec![Value::Integer(1)])),
            ("b", Value::Integer(2))
        ])
    );
    assert_eq!(
        value.clone().insert_by_path(
            &path(vec![Segment::field("a"), Segment::index(0)]),
            Value::Integer(9)
        ),
        object(vec![("a", Value::Array(vec![Value::Integer(9)]))])
    );
    assert_eq!(
        value.clone().insert_by_path(
            &path(vec![Segment::field("a"), Segment::index(-1)]),
            Value::Integer(9)
        ),
        object(vec![("a", Value::Array(vec![Value::Integer(9)]))])
    );
    // A negative position before the start is reached by filling up with
    // nulls in front.
    assert_eq!(
        value.clone().insert_by_path(
            &path(vec![Segment::field("a"), Segment::index(-2)]),
            Value::Integer(9)
        ),
        object(vec![(
            "a",
            Value::Array(vec![Value::Integer(9), Value::Integer(1)])
        )])
    );
    assert_eq!(
        value.clone().insert_by_path(
            &path(vec![Segment::field("a"), Segment::index(-4)]),
            Value::Integer(9)
        ),
        object(vec![(
            "a",
            Value::Array(vec![
                Value::Integer(9),
                Value::Null,
                Value::Null,
                Value::Integer(1)
            ])
        )])
    );
    assert_eq!(
        Value::Integer(5).insert_by_path(&path(vec![Segment::index(-1)]), Value::Integer(9)),
        Value::Array(vec![Value::Integer(9)])
    );
    assert_eq!(
        Value::Array(Vec::new()).insert_by_path(&path(vec![Segment::index(-3)]), Value::Integer(9)),
        Value::Array(vec![Value::Integer(9), Value::Null, Value::Null])
    );
    // A position past the end is reached by filling up with nulls.
    assert_eq!(
        value.clone().insert_by_path(
            &path(vec![Segment::field("a"), Segment::index(3)]),
            Value::Integer(9)
        ),
        object(vec![(
            "a",
            Value::Array(vec![
                Value::Integer(1),
                Value::Null,
                Value::Null,
                Value::Integer(9)
            ])
        )])
    );
    // What is no object becomes one, what is no array becomes one.
    assert_eq!(
        Value::Integer(5).insert_by_path(
            &path(vec![Segment::field("x"), Segment::index(1)]),
            text("v")
        ),
        object(vec![("x", Value::Array(vec![Value::Null, text("v")]))])
    );
    assert_eq!(
        value
            .clone()
            .insert_by_path(&path(vec![Segment::index(0)]), text("v")),
        Value::Array(vec![text("v")])
    );
    // Of a list of fields the first that is there is written, else the first.
    assert_eq!(
        value
            .clone()
            .insert_by_path(&path(vec![coalesce(&["x", "a"])]), Value::Null),
        object(vec![("a", Value::Null)])
    );
    assert_eq!(
        value
            .clone()
            .insert_by_path(&path(vec![coalesce(&["x", "y"])]), Value::Null),
        object(vec![
            ("a", Value::Array(vec![Value::Integer(1)])),
            ("x", Value::Null)
        ])
    );
    assert_eq!(
        value
            .clone()
            .insert_by_path(&path(vec![coalesce(&[])]), Value::Null),
        value
    );
    assert_eq!(
        Value::Integer(5).insert_by_path(&path(vec![coalesce(&[])]), Value::Null),
        Value::Integer(5)
    );
}

#[test]
fn at_path_scaffolds_a_value() {
    assert_eq!(
        text("leaf").at_path(&path(vec![
            Segment::field("a"),
            Segment::index(1),
            coalesce(&["b", "c"])
        ])),
        object(vec![(
            "a",
            Value::Array(vec![Value::Null, object(vec![("b", text("leaf"))])])
        )])
    );
    assert_eq!(text("leaf").at_path(&Lookup::root()), text("leaf"));
    assert_eq!(
        text("leaf").at_path(&path(vec![Segment::index(-1)])),
        Value::Array(vec![text("leaf")])
    );
    assert_eq!(
        text("leaf").at_path(&path(vec![Segment::field("a"), Segment::index(-2)])),
        object(vec![("a", Value::Array(vec![text("leaf"), Value::Null]))])
    );
    // What was put can be read back, whatever the steps.
    let paths = vec![
        path(vec![Segment::field("a"), Segment::index(2), Segment::field("b")]),
        path(vec![Segment::index(-1)]),
        path(vec![Segment::index(-3), Segment::index(-2), Segment::field("x")]),
        path(vec![coalesce(&["p", "q"]), Segment::index(-1), Segment::index(0)]),
        path(vec![Segment::index(-4)]),
    ];
    for p in paths {
        assert_eq!(
            Value::Integer(1).at_path(&p).get_by_path(&p),
            Some(&Value::Integer(1))
        );
        let set = object(vec![("a", Value::Array(vec![Value::Null]))]);
        assert_eq!(
            set.insert_by_path(&p, Value::Integer(2)).get_by_path(&p),
            Some(&Value::Integer(2))
        );
    }
}

#[test]
fn paths_and_variables_are_compared_by_their_steps() {
    let a = path(vec![Segment::field("a"), Segment::index(-2), coalesce(&["x", "y"])]);
    let b = path(vec![Segment::field("a"), Segment::index(-2), coalesce(&["x", "y"])]);
    let c = path(vec![Segment::field("a"), Segment::index(-2), coalesce(&["x", "z"])]);
    let d = path(vec![Segment::field("a"), Segment::index(-2)]);
    assert!(a.equals(&b));
    assert!(a.clone().equals(&a));
    assert!(!a.equals(&c));
    assert!(!a.equals(&d) && !d.equals(&a));
    assert_eq!(a.len(), 3);
    assert_eq!(a.segment(1), &Segment::Index(-2));
    assert!(!a.is_root());
    assert!(Segment::field("a").equals(&Segment::Field("a".to_string())));
    assert!(!Segment::field("a").equals(&Segment::index(0)));
    assert!(!coalesce(&["a"]).equals(&coalesce(&["a", "b"])));

    assert!(Variable::External(a.clone()).equals(&Variable::External(b.clone())));
    assert!(!Variable::External(a.clone()).equals(&Variable::Stack(a.clone())));
    assert!(!Variable::External(a.clone()).equals(&Variable::External(c.clone())));
    assert!(Variable::local("x").equals(&Variable::Internal("x".to_string(), None)));
    assert!(!Variable::local("x").equals(&Variable::local("y")));
    assert!(!Variable::local("x").equals(&Variable::Internal("x".to_string(), Some(Lookup::root()))));
    assert!(Variable::Internal("x".to_string(), Some(a.clone()))
        .equals(&Variable::Internal("x".to_string(), Some(b))));
    assert!(!Variable::Internal("x".to_string(), Some(a.clone()))
        .equals(&Variable::Internal("x".to_string(), Some(c))));
    assert!(Variable::Sink.equals(&Variable::Sink));
    assert!(!Variable::Sink.equals(&Variable::local("x")));
    let v = Variable::Internal("x".to_string(), Some(a));
    assert_eq!(v.clone(), v);
}

#[test]
fn numbers_as_text() {
    assert_eq!(decimal(0), "0");
    assert_eq!(decimal(7), "7");
    assert_eq!(decimal(10), "10");
    assert_eq!(decimal(1234567890), "1234567890");
    assert_eq!(decimal(usize::MAX), usize::MAX.to_string());
    assert_eq!(padded(0), "0000");
    assert_eq!(padded(9), "0009");
    assert_eq!(padded(10), "0010");
    assert_eq!(padded(99), "0099");
    assert_eq!(padded(100), "0100");
    assert_eq!(padded(999), "0999");
    assert_eq!(padded(1000), "1000");
    assert_eq!(padded(123456), "123456");
}

#[test]
fn call_errors_name_function_and_place() {
    let error = CallError::new("boom").annotate("parse_json", Span::new(7, 1024));
    assert_eq!(
        error.message,
        "function call error for \"parse_json\" at (7:1024): boom"
    );
    assert!(error.labels.is_empty() && error.notes.is_empty());
    let span = Span::new(3, 9);
    assert_eq!((span.start, span.end), (3, 9));
}

#[test]
fn argument_lists_report_the_first_fault() {
    let parameters = || {
        vec![
            Parameter {
                keyword: "value".to_string(),
                kind: Kind::bytes().or_integer(),
                required: true,
            },
            Parameter {
                keyword: "limit".to_string(),
                kind: Kind::integer(),
                required: true,
            },
            Parameter {
                keyword: "mode".to_string(),
                kind: Kind::never(),
                required: false,
            },
        ]
    };
    let mode = 5u8;
    let good: VmArgumentList<u8> = VmArgumentList::new(
        parameters(),
        vec![
            Some(VmArgument::Value(Value::Integer(1))),
            Some(VmArgument::Value(Value::Integer(2))),
            Some(VmArgument::Any(&mode)),
        ],
    );
    assert!(good.check_arguments().is_ok());
    let optional_absent: VmArgumentList<u8> = VmArgumentList::new(
        parameters(),
        vec![
            Some(VmArgument::Value(Value::from_text("x"))),
            Some(VmArgument::Value(Value::Integer(2))),
            None,
        ],
    );
    assert!(optional_absent.check_arguments().is_ok());
    let both_wrong: VmArgumentList<u8> = VmArgumentList::new(
        parameters(),
        vec![Some(VmArgument::Value(Value::Null)), None, None],
    );
    assert_eq!(
        both_wrong.check_arguments().unwrap_err().message,
        "invalid argument type for: value"
    );
    let missing: VmArgumentList<u8> = VmArgumentList::new(
        parameters(),
        vec![Some(VmArgument::Value(Value::Integer(1))), None, None],
    );
    assert_eq!(
        missing.check_arguments().unwrap_err().message,
        "missing required argument: limit"
    );
    let mismatch: VmArgumentList<u8> = VmArgumentList::new(
        parameters(),
        vec![
            Some(VmArgument::Value(Value::Integer(1))),
            Some(VmArgument::Value(Value::Integer(1))),
            Some(VmArgument::Value(Value::Integer(1))),
        ],
    );
    assert_eq!(
        mismatch.check_arguments().unwrap_err().message,
        "invalid argument type for: mode"
    );
}

#[test]
fn runtime_holds_variables() {
    let mut store = Runtime::new();
    assert_eq!(store.variable("x"), None);
    store.insert_variable("x".to_string(), Value::Integer(1));
    store.insert_variable("y".to_string(), Value::Integer(2));
    store.insert_variable("x".to_string(), Value::Integer(3));
    assert_eq!(store.variable("x"), Some(&Value::Integer(3)));
    assert_eq!(store.take_variable("x"), Some(Value::Integer(3)));
    assert_eq!(store.take_variable("x"), None);
    assert_eq!(store.variable("y"), Some(&Value::Integer(2)));
}

#[test]
fn sink_settings_have_a_default_interval() {
    assert_eq!(default_api_key_reload_interval(), 30);
    let batch = BatchSettings {
        max_events: Some(100),
        max_bytes: None,
        max_timeout: 5,
    };
    let config = BasicSinkConfig::new("https://example.test/v1".to_string(), batch.clone());
    assert_eq!(config.api_key_reload_interval, 30);
    assert_eq!(config.api_endpoint, "https://example.test/v1");
    assert_eq!(config.batch, batch);
}

#[test]
fn tap_payloads_unfold_into_one_payload_for_each_event() {
    type Payload = TapPayload<&'static str, u32, char>;
    let logs: Payload = TapPayload::Log("out.a".to_string(), vec!["one", "two", "three"]);
    assert_eq!(
        logs.into_payloads(),
        vec![
            OutputEventsPayload::Log(Log {
                output_id: "out.a".to_string(),
                event: "one"
            }),
            OutputEventsPayload::Log(Log {
                output_id: "out.a".to_string(),
                event: "two"
            }),
            OutputEventsPayload::Log(Log {
                output_id: "out.a".to_string(),
                event: "three"
            }),
        ]
    );
    let metrics: Payload = TapPayload::Metric("out.b".to_string(), vec![1, 2]);
    assert_eq!(
        metrics.into_payloads(),
        vec![
            OutputEventsPayload::Metric(Metric {
                output_id: "out.b".to_string(),
                event: 1
            }),
            OutputEventsPayload::Metric(Metric {
                output_id: "out.b".to_string(),
                event: 2
            }),
        ]
    );
    let traces: Payload = TapPayload::Trace("out.c".to_string(), vec!['x']);
    assert_eq!(
        traces.into_payloads(),
        vec![OutputEventsPayload::Trace(Trace {
            output_id: "out.c".to_string(),
            event: 'x'
        })]
    );
    let none: Payload = TapPayload::Log("out.a".to_string(), Vec::new());
    assert_eq!(none.into_payloads(), Vec::new());
    for (heard, told) in [
        (TapNotification::Matched, EventNotificationType::Matched),
        (
            TapNotification::NotMatched,
            EventNotificationType::NotMatched,
        ),
    ] {
        let payload: Payload = TapPayload::Notification("component".to_string(), heard);
        assert_eq!(
            payload.into_payloads(),
            vec![OutputEventsPayload::Notification(EventNotification {
                component_id: "component".to_string(),
                notification: told
            })]
        );
    }
}

#[test]
fn byte_strings_are_read_lossily() {
    assert_eq!(read_lossy(&b"plain".to_vec()), "plain");
    assert_eq!(read_lossy(&"h\u{e9}llo \u{65e5}\u{672c}".as_bytes().to_vec()), "h\u{e9}llo \u{65e5}\u{672c}");
    assert_eq!(read_lossy(&Vec::new()), "");
    // Each byte that cannot begin a character gives a replacement character
    // of its own.
    assert_eq!(read_lossy(&vec![0xff, 0xff]), "\u{fffd}\u{fffd}");
    assert_eq!(read_lossy(&vec![b'a', 0xc3, b'b']), "a\u{fffd}b");
    // A character that is cut short gives one.
    assert_eq!(read_lossy(&vec![0xe6, 0x97]), "\u{fffd}");
}
