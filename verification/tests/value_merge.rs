//! The value model and its deep merge.

use cice_core::resource::{merge, value_eq, ResourceData};

fn text(v: &str) -> ResourceData {
    ResourceData::Text(v.to_string())
}

fn obj(entries: Vec<(&str, ResourceData)>) -> ResourceData {
    ResourceData::Object(
        entries.into_iter().map(|(k, v)| (k.to_string(), v)).collect(),
    )
}

#[test]
fn task_test_json_merge() {
    // Test inserting new keys
    let mut a = obj(vec![("key1", text("value1")), ("key2", text("value2"))]);
    let b = obj(vec![("key3", text("value3"))]);
    merge(&mut a, b);
    assert_eq!(
        a,
        obj(vec![
            ("key1", text("value1")),
            ("key2", text("value2")),
            ("key3", text("value3")),
        ])
    );

    // Test overriding existing keys
    let mut a = obj(vec![("key1", text("value1")), ("key2", text("value2"))]);
    let b = obj(vec![("key2", text("new_value2")), ("key3", text("value3"))]);
    merge(&mut a, b);
    assert_eq!(
        a,
        obj(vec![
            ("key1", text("value1")),
            ("key2", text("new_value2")),
            ("key3", text("value3")),
        ])
    );

    // Test overriding existing keys in nested json
    let mut a = obj(vec![
        ("key1", text("value1")),
        ("key2", text("value2")),
        (
            "key3",
            obj(vec![("key3-1", text("value3-1")), ("key3-2", text("value3-2"))]),
        ),
    ]);
    let b = obj(vec![
        ("key2", text("new_value2")),
        ("key3", obj(vec![("key3-1", text("newvalue3-1"))])),
    ]);
    merge(&mut a, b);
    assert_eq!(
        a,
        obj(vec![
            ("key1", text("value1")),
            ("key2", text("new_value2")),
            (
                "key3",
                obj(vec![("key3-1", text("newvalue3-1")), ("key3-2", text("value3-2"))]),
            ),
        ])
    );
}

#[test]
fn utils_test_json_merge() {
    // Test inserting new keys
    let mut a = obj(vec![("key1", text("value1")), ("key2", text("value2"))]);
    let b = obj(vec![("key3", text("value3"))]);
    merge(&mut a, b);
    assert_eq!(
        a,
        obj(vec![
            ("key1", text("value1")),
            ("key2", text("value2")),
            ("key3", text("value3")),
        ])
    );

    // Test overriding existing keys
    let mut a = obj(vec![("key1", text("value1")), ("key2", text("value2"))]);
    let b = obj(vec![("key2", text("new_value2")), ("key3", text("value3"))]);
    merge(&mut a, b);
    assert_eq!(
        a,
        obj(vec![
            ("key1", text("value1")),
            ("key2", text("new_value2")),
            ("key3", text("value3")),
        ])
    );

    // Test overriding existing keys in nested json
    let mut a = obj(vec![
        ("key1", text("value1")),
        ("key2", text("value2")),
        (
            "key3",
            obj(vec![("key3-1", text("value3-1")), ("key3-2", text("value3-2"))]),
        ),
    ]);
    let b = obj(vec![
        ("key2", text("new_value2")),
        ("key3", obj(vec![("key3-1", text("newvalue3-1"))])),
    ]);
    merge(&mut a, b);
    assert_eq!(
        a,
        obj(vec![
            ("key1", text("value1")),
            ("key2", text("new_value2")),
            (
                "key3",
                obj(vec![("key3-1", text("newvalue3-1")), ("key3-2", text("value3-2"))]),
            ),
        ])
    );
}

#[test]
fn merge_is_idempotent_on_a_nested_value() {
    let make = || {
        obj(vec![
            ("flag", ResourceData::Bool(true)),
            ("count", ResourceData::Number(3)),
            ("items", ResourceData::List(vec![ResourceData::Number(1), ResourceData::Null])),
            ("nested", obj(vec![("inner", text("x"))])),
        ])
    };
    let mut a = make();
    merge(&mut a, make());
    assert_eq!(a, make());
}

#[test]
fn merge_of_disjoint_maps_is_the_union() {
    let mut a = obj(vec![("left", ResourceData::Number(1))]);
    let b = obj(vec![("right", ResourceData::Number(2))]);
    merge(&mut a, b);
    assert_eq!(
        a,
        obj(vec![("left", ResourceData::Number(1)), ("right", ResourceData::Number(2))])
    );
}

#[test]
fn merge_prefers_the_override_on_scalar_conflicts() {
    let mut a = obj(vec![("k", ResourceData::Number(1)), ("other", text("kept"))]);
    let b = obj(vec![("k", text("two"))]);
    merge(&mut a, b);
    assert_eq!(a, obj(vec![("k", text("two")), ("other", text("kept"))]));
}

#[test]
fn merge_replaces_non_map_pairings_wholesale() {
    let mut a = ResourceData::List(vec![ResourceData::Number(1)]);
    let b = ResourceData::Number(9);
    merge(&mut a, b);
    assert_eq!(a, ResourceData::Number(9));

    let mut c = ResourceData::Number(9);
    let d = obj(vec![("k", ResourceData::Null)]);
    merge(&mut c, d);
    assert_eq!(c, obj(vec![("k", ResourceData::Null)]));
}

#[test]
fn value_eq_distinguishes_values() {
    let a = obj(vec![("k", ResourceData::Number(1))]);
    let b = obj(vec![("k", ResourceData::Number(1))]);
    let c = obj(vec![("k", ResourceData::Number(2))]);
    let d = ResourceData::Null;
    assert!(value_eq(&a, &b));
    assert!(!value_eq(&a, &c));
    assert!(!value_eq(&a, &d));
    assert!(value_eq(&d, &ResourceData::Null));
}

#[test]
fn clone_makes_an_equal_deep_copy() {
    let a = obj(vec![
        ("items", ResourceData::List(vec![text("x"), ResourceData::Bool(false)])),
        ("nested", obj(vec![("inner", ResourceData::Number(-4))])),
    ]);
    let b = a.clone();
    assert_eq!(a, b);
}
