#![allow(non_snake_case)]

use dynform::{InputsData, JsonNumber, JsonValue, Path, PathError, ValueKind};

fn s(text: &str) -> JsonValue {
    JsonValue::String(text.to_string())
}

fn n(value: u64) -> JsonValue {
    JsonValue::Number(JsonNumber::PosInt(value))
}

fn arr(items: Vec<JsonValue>) -> JsonValue {
    JsonValue::Array(items)
}

fn obj(entries: Vec<(&str, JsonValue)>) -> JsonValue {
    JsonValue::Object(entries.into_iter().map(|(k, v)| (k.to_string(), v)).collect())
}

fn empty() -> JsonValue {
    obj(vec![])
}

fn sample() -> JsonValue {
    obj(vec![
        ("a", s("b")),
        ("c", arr(vec![s("d"), obj(vec![("e", n(1))]), n(2)])),
        ("f", obj(vec![("g", s("h"))])),
    ])
}

#[test]
fn Path_display() {
    ["", "a.path", "with.0.index"]
        .iter()
        .for_each(|t| assert_eq!(&Path::from(*t).to_string(), t))
}

#[test]
fn Path_add_refs() {
    [
        (&Path::from("left") + &Path::from("right"), "left.right"),
        (&Path::default() + &Path::from("right"), "right"),
        (&Path::from("left") + &Path::default(), "left"),
    ]
    .iter()
    .for_each(|(actual, expected)| assert_eq!(actual.as_str(), *expected))
}

#[test]
fn InputsData_insert_in_empty_data() {
    let mut data = InputsData(empty());
    data.insert_at(&Path::from("some.path"), s("data")).unwrap();
    assert_eq!(data.0, obj(vec![("some", obj(vec![("path", s("data"))]))]));
}

#[test]
fn InputsData_insert_at_empty_object() {
    let mut data = InputsData(obj(vec![("some", empty())]));
    data.insert_at(&Path::from("some.path"), s("data")).unwrap();
    assert_eq!(data.0, obj(vec![("some", obj(vec![("path", s("data"))]))]));
}

#[test]
fn InputsData_insert_in_number_fails() {
    let json = obj(vec![("some", n(42))]);
    let mut data = InputsData(json.clone());
    assert!(data.insert_at(&Path::from("some.path"), s("data")).is_err());
    assert_eq!(data.0, json);
}

#[test]
fn InputsData_insert_at_array_fails_if_not_an_index() {
    let json = obj(vec![("some", arr(vec![]))]);
    let mut data = InputsData(json.clone());
    assert!(data.insert_at(&Path::from("some.path"), s("data")).is_err());
    assert_eq!(data.0, json);
}

#[test]
fn InputsData_insert_in_array_at_first_position() {
    let mut data = InputsData(obj(vec![("some", arr(vec![]))]));
    data.insert_at(&Path::from("some.0"), s("data")).unwrap();
    assert_eq!(data.0, obj(vec![("some", arr(vec![s("data")]))]));
}

#[test]
fn InputsData_insert_in_array_at_middle() {
    let mut data = InputsData(obj(vec![("some", arr(vec![]))]));
    data.insert_at(&Path::from("some.3"), s("data")).unwrap();
    assert_eq!(
        data.0,
        obj(vec![("some", arr(vec![empty(), empty(), empty(), s("data")]))])
    );
}

#[test]
fn InputsData_insert_deeply() {
    let mut data: InputsData = obj(vec![(
        "some",
        obj(vec![(
            "complex",
            arr(vec![empty(), JsonValue::Null, obj(vec![("json", empty())])]),
        )]),
    )])
    .into();
    data.insert_at(&Path::from("some.complex.2.json"), s("data")).unwrap();
    assert_eq!(
        data.0,
        obj(vec![(
            "some",
            obj(vec![(
                "complex",
                arr(vec![empty(), JsonValue::Null, obj(vec![("json", s("data"))])]),
            )]),
        )])
    );
}

#[test]
fn InputsData_get_at_empty_path() {
    let data: InputsData = obj(vec![("a", s("b"))]).into();
    assert_eq!(data.get_at(&Path::from("")), Some(&data.0));
    assert_eq!(data.get_at(&Path::from(".")), Some(&data.0));
    assert_eq!(data.get_at(&Path::from("..")), Some(&data.0));
    assert_eq!(data.get_at(&Path::from("...")), Some(&data.0));
}

#[test]
fn InputsData_get_at() {
    let json = sample();
    let data = InputsData::from(json.clone());
    let c = arr(vec![s("d"), obj(vec![("e", n(1))]), n(2)]);
    let f = obj(vec![("g", s("h"))]);
    [
        ("", Some(json.clone())),
        ("a", Some(s("b"))),
        ("foo", None),
        ("c", Some(c)),
        ("c.0", Some(s("d"))),
        ("c.1", Some(obj(vec![("e", n(1))]))),
        ("c.2", Some(n(2))),
        ("c.3", None),
        ("f", Some(f)),
        ("f.g", Some(s("h"))),
        ("f.foo", None),
    ]
    .iter()
    .map(|(t, exp)| (Path::from(*t), exp))
    .for_each(|(p, expected)| assert_eq!(data.get_at(&p), expected.as_ref()))
}

#[test]
fn InputsData_get_at_same_as_get_at_mut() {
    let mut data: InputsData = sample().into();
    [
        "", "a", "foo", "c", "c.0", "c.1", "c.2", "c.3", "f", "f.g", "f.foo",
    ]
    .iter()
    .map(|t| Path::from(*t))
    .for_each(|p| assert_eq!(data.get_at(&p).cloned(), data.get_at_mut(&p).cloned()))
}

#[test]
fn InputsData_resize_array_from_zero() {
    let mut data: InputsData = obj(vec![("a", arr(vec![]))]).into();
    data.resize_array_at(&Path::from("a"), 5).unwrap();
    assert_eq!(
        data.0,
        obj(vec![("a", arr(vec![empty(), empty(), empty(), empty(), empty()]))])
    )
}

#[test]
fn InputsData_resize_array_that_doesnt_exist_yet() {
    let mut data: InputsData = obj(vec![("a", empty())]).into();
    data.resize_array_at(&Path::from("a.b"), 2).unwrap();
    assert_eq!(
        data.0,
        obj(vec![("a", obj(vec![("b", arr(vec![empty(), empty()]))]))])
    )
}

#[test]
fn InputsData_resize_at_number_will_change_it_into_an_array() {
    let mut data: InputsData = obj(vec![("a", n(42))]).into();
    data.resize_array_at(&Path::from("a"), 1).unwrap();
    assert_eq!(data.0, obj(vec![("a", arr(vec![empty()]))]))
}

#[test]
fn InputsData_remove_at_empty_path() {
    let mut data: InputsData = obj(vec![("a", s("b"))]).into();
    assert_eq!(
        data.remove_at(&Path::from("")).unwrap().unwrap(),
        obj(vec![("a", s("b"))])
    );
    assert_eq!(data.0, empty())
}

#[test]
fn InputsData_remove_at_from_beginning() {
    let mut data: InputsData = obj(vec![("a", arr(vec![n(1), n(2), n(3)]))]).into();
    assert_eq!(data.remove_at(&Path::from("a.0")).unwrap(), Some(n(1)));
    assert_eq!(data.0, obj(vec![("a", arr(vec![n(2), n(3)]))]));
    assert_eq!(data.remove_at(&Path::from("a.0")).unwrap(), Some(n(2)));
    assert_eq!(data.0, obj(vec![("a", arr(vec![n(3)]))]));
    assert_eq!(data.remove_at(&Path::from("a.0")).unwrap(), Some(n(3)));
    assert_eq!(data.0, obj(vec![("a", arr(vec![]))]));
    assert_eq!(data.remove_at(&Path::from("a.0")).unwrap(), None);
    assert_eq!(data.0, obj(vec![("a", arr(vec![]))]));
}

#[test]
fn insert_then_get_on_fresh_document() {
    let mut data = InputsData::default();
    data.insert_at(&Path::from("some.path"), s("data")).unwrap();
    assert_eq!(data.get_at(&Path::from("some.path")), Some(&s("data")));
    assert!(matches!(data.get_at(&Path::from("some")), Some(JsonValue::Object(_))));
}

#[test]
fn insert_into_number_reports_type_mismatch() {
    let json = obj(vec![("some", n(42))]);
    let mut data = InputsData(json.clone());
    match data.insert_at(&Path::from("some.path"), s("data")) {
        Err(PathError::TypeMismatch { base, segment, kind }) => {
            assert_eq!(base.as_str(), "some");
            assert_eq!(segment, "path");
            assert_eq!(kind, ValueKind::Number);
        }
        other => panic!("unexpected outcome: {:?}", other),
    }
    assert_eq!(data.0, json);
}

#[test]
fn insert_into_array_reports_invalid_index() {
    let mut data = InputsData(obj(vec![("some", arr(vec![]))]));
    match data.insert_at(&Path::from("some.path"), s("data")) {
        Err(PathError::InvalidIndex { base, segment }) => {
            assert_eq!(base.as_str(), "some");
            assert_eq!(segment, "path");
        }
        other => panic!("unexpected outcome: {:?}", other),
    }
}

#[test]
fn failed_insert_changes_nothing() {
    let json = obj(vec![("a", arr(vec![n(5)])), ("b", obj(vec![("c", s("x"))]))]);
    let mut data = InputsData(json.clone());
    assert!(data.insert_at(&Path::from("a.0.x"), n(1)).is_err());
    assert!(data.insert_at(&Path::from("b.c.d.e"), n(1)).is_err());
    assert!(data.insert_at(&Path::from("a.zero.x"), n(1)).is_err());
    assert_eq!(data.0, json);
    assert!(data.insert_at(&Path::from("a.2.x.y"), n(1)).is_ok());
    assert_eq!(
        data.get_at(&Path::from("a")),
        Some(&arr(vec![n(5), empty(), obj(vec![("x", obj(vec![("y", n(1))]))])]))
    );
}

#[test]
fn insert_reads_indexes_as_usize_does() {
    let mut data = InputsData(obj(vec![("a", arr(vec![]))]));
    data.insert_at(&Path::from("a.+1"), n(1)).unwrap();
    assert_eq!(data.0, obj(vec![("a", arr(vec![empty(), n(1)]))]));
    data.insert_at(&Path::from("a.000"), n(0)).unwrap();
    assert_eq!(data.0, obj(vec![("a", arr(vec![n(0), n(1)]))]));
    assert!(data.insert_at(&Path::from("a.-1"), n(2)).is_err());
    assert!(data.insert_at(&Path::from("a.+"), n(2)).is_err());
    assert!(data
        .insert_at(&Path::from("a.99999999999999999999999"), n(2))
        .is_err());
    assert_eq!(data.0, obj(vec![("a", arr(vec![n(0), n(1)]))]));
}

#[test]
fn insert_overwrites_existing_value() {
    let mut data = InputsData(obj(vec![("a", n(1)), ("b", n(2))]));
    data.insert_at(&Path::from("a"), s("x")).unwrap();
    assert_eq!(data.0, obj(vec![("a", s("x")), ("b", n(2))]));
    data.insert_at(&Path::from(""), n(3)).unwrap();
    assert_eq!(data.0, n(3));
}

#[test]
fn resize_truncates_longer_arrays() {
    let mut data: InputsData = obj(vec![("a", arr(vec![n(1), n(2), n(3)]))]).into();
    data.resize_array_at(&Path::from("a"), 1).unwrap();
    assert_eq!(data.0, obj(vec![("a", arr(vec![n(1)]))]));
    data.resize_array_at(&Path::from("a"), 3).unwrap();
    assert_eq!(data.0, obj(vec![("a", arr(vec![n(1), empty(), empty()]))]));
}

#[test]
fn resize_below_a_scalar_fails() {
    let json = obj(vec![("a", n(42))]);
    let mut data: InputsData = json.clone().into();
    assert!(matches!(
        data.resize_array_at(&Path::from("a.b"), 2),
        Err(PathError::TypeMismatch { kind: ValueKind::Number, .. })
    ));
    assert_eq!(data.0, json);
}

#[test]
fn remove_at_root_returns_whole_document() {
    let mut data: InputsData = sample().into();
    assert_eq!(data.remove_at(&Path::from("..")).unwrap(), Some(sample()));
    assert_eq!(data.0, empty());
}

#[test]
fn remove_from_string_fails() {
    let json = obj(vec![("a", s("b"))]);
    let mut data: InputsData = json.clone().into();
    match data.remove_at(&Path::from("a.x")) {
        Err(PathError::TypeMismatch { base, segment, kind }) => {
            assert_eq!(base.as_str(), "a");
            assert_eq!(segment, "x");
            assert_eq!(kind, ValueKind::String);
        }
        other => panic!("unexpected outcome: {:?}", other),
    }
    assert_eq!(data.0, json);
}

#[test]
fn remove_below_nothing_fails() {
    let json = obj(vec![("a", empty())]);
    let mut data: InputsData = json.clone().into();
    match data.remove_at(&Path::from("x.y.z")) {
        Err(PathError::MissingBase { base }) => assert_eq!(base.as_str(), "x.y"),
        other => panic!("unexpected outcome: {:?}", other),
    }
    assert_eq!(data.0, json);
}

#[test]
fn remove_with_bad_index_fails() {
    let json = obj(vec![("a", arr(vec![n(1)]))]);
    let mut data: InputsData = json.clone().into();
    match data.remove_at(&Path::from("a.first")) {
        Err(PathError::InvalidIndex { base, segment }) => {
            assert_eq!(base.as_str(), "a");
            assert_eq!(segment, "first");
        }
        other => panic!("unexpected outcome: {:?}", other),
    }
    assert_eq!(data.0, json);
}

#[test]
fn remove_mapping_entry_keeps_order_of_the_rest() {
    let mut data: InputsData = obj(vec![("a", n(1)), ("b", n(2)), ("c", n(3))]).into();
    assert_eq!(data.remove_at(&Path::from("b")).unwrap(), Some(n(2)));
    assert_eq!(data.0, obj(vec![("a", n(1)), ("c", n(3))]));
    assert_eq!(data.remove_at(&Path::from("b")).unwrap(), None);
    assert_eq!(data.0, obj(vec![("a", n(1)), ("c", n(3))]));
}

#[test]
fn get_at_mut_writes_in_place() {
    let mut data: InputsData = sample().into();
    *data.get_at_mut(&Path::from("c.1.e")).unwrap() = s("changed");
    assert_eq!(data.get_at(&Path::from("c.1.e")), Some(&s("changed")));
    assert!(data.get_at_mut(&Path::from("c.1.e.x")).is_none());
}

#[test]
fn path_segments_skip_empty_pieces() {
    for t in ["", ".", "..", "..."] {
        assert!(Path::from(t).get_segments().is_empty());
    }
    assert_eq!(Path::from(".a..b.").get_segments(), vec!["a", "b"]);
    assert_eq!(Path::from("some.0.x").get_segments(), vec!["some", "0", "x"]);
}

#[test]
fn path_join_with_root_is_identity() {
    for t in ["", "a", "a.b", ".x."] {
        let a = Path::from(t);
        assert_eq!((&Path::default() + a.clone()).to_string(), a.to_string());
        assert_eq!((&a + &Path::default()).to_string(), a.to_string());
    }
    assert_eq!((&Path::from("a.b") + Path::from("c")).to_string(), "a.b.c");
}

#[test]
fn path_from_segments_joins_with_dots() {
    assert_eq!(Path::from_segments(&["a", "b", "c"]).as_str(), "a.b.c");
    assert_eq!(Path::from_segments(&[]).as_str(), "");
    assert_eq!(Path::empty().as_str(), "");
    assert_eq!(Path::from(String::from("x.y")).as_str(), "x.y");
}

#[test]
fn paths_with_same_segments_are_equal() {
    assert_eq!(Path::from("a..b"), Path::from("a.b"));
    assert_eq!(Path::from(""), Path::from("..."));
    assert_ne!(Path::from("a.b"), Path::from("a.c"));
    assert_ne!(Path::from("a.b"), Path::from("a"));
}

#[test]
fn value_kind_and_clone() {
    let v = sample();
    assert_eq!(v.clone(), v);
    assert_eq!(v.kind(), ValueKind::Object);
    assert_eq!(JsonValue::Null.kind(), ValueKind::Null);
    assert_eq!(arr(vec![]).kind(), ValueKind::Array);
    assert_eq!(JsonValue::empty_object(), empty());
}
