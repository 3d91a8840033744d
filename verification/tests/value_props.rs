use polysite::value::{merge_values, Value};
use polysite::ledger::{filter_new, ledger_has, ledger_record};
use polysite::paths::{join_path, strip_prefix_dir, url_of, with_extension};
use polysite::config::Config;
use polysite::error::Error;
use polysite::metadata::Metadata;
use polysite::snapshot::{SnapshotManager, SnapshotStage};

fn s(x: &str) -> String {
    x.to_string()
}

fn obj(entries: Vec<(&str, Value)>) -> Value {
    Value::Obj(entries.into_iter().map(|(k, v)| (k.to_string(), v)).collect())
}

#[test]
fn merge_nested_maps_merge() {
    let mut a = obj(vec![("x", obj(vec![("p", Value::Int(1))])), ("y", Value::Int(2))]);
    let b = obj(vec![("x", obj(vec![("q", Value::Int(3))])), ("z", Value::Int(4))]);
    merge_values(&mut a, b);
    let expected = obj(vec![
        ("x", obj(vec![("p", Value::Int(1)), ("q", Value::Int(3))])),
        ("y", Value::Int(2)),
        ("z", Value::Int(4)),
    ]);
    assert_eq!(a, expected);
}

#[test]
fn merge_arrays_concatenate() {
    let mut a = obj(vec![("xs", Value::Arr(vec![Value::Int(1), Value::Int(2)]))]);
    let b = obj(vec![("xs", Value::Arr(vec![Value::Int(3)]))]);
    merge_values(&mut a, b);
    let expected = obj(vec![(
        "xs",
        Value::Arr(vec![Value::Int(1), Value::Int(2), Value::Int(3)]),
    )]);
    assert_eq!(a, expected);
}

#[test]
fn merge_scalars_right_wins() {
    let mut a = obj(vec![("k", Value::Int(1)), ("s", Value::Str(s("old")))]);
    let b = obj(vec![("k", Value::Bool(true)), ("s", Value::Str(s("new")))]);
    merge_values(&mut a, b);
    let expected = obj(vec![("k", Value::Bool(true)), ("s", Value::Str(s("new")))]);
    assert_eq!(a, expected);
}

#[test]
fn merge_type_mismatch_replaces_wholesale() {
    let mut a = obj(vec![("k", obj(vec![("inner", Value::Int(1))]))]);
    let b = obj(vec![("k", Value::Int(5))]);
    merge_values(&mut a, b);
    assert_eq!(a, obj(vec![("k", Value::Int(5))]));
}

#[test]
fn merge_idempotent_without_arrays() {
    let a = obj(vec![
        ("n", Value::Int(7)),
        ("m", obj(vec![("inner", Value::Str(s("v"))), ("b", Value::Bool(false))])),
        ("z", Value::Null),
    ]);
    let mut merged = a.duplicate();
    merge_values(&mut merged, a.duplicate());
    assert_eq!(merged, a);
}

#[test]
fn merge_associative_on_aligned_maps() {
    let a = obj(vec![("k", obj(vec![("x", Value::Int(1))])), ("n", Value::Int(1))]);
    let b = obj(vec![("k", obj(vec![("y", Value::Int(2))])), ("n", Value::Int(2))]);
    let c = obj(vec![("k", obj(vec![("z", Value::Int(3))])), ("m", Value::Int(3))]);
    let mut left = a.duplicate();
    merge_values(&mut left, b.duplicate());
    merge_values(&mut left, c.duplicate());
    let mut bc = b.duplicate();
    merge_values(&mut bc, c.duplicate());
    let mut right = a.duplicate();
    merge_values(&mut right, bc);
    assert_eq!(left, right);
}

#[test]
fn bytes_round_trip_exact() {
    let b: Vec<u8> = vec![0, 1, 2, 127, 128, 254, 255];
    let encoded = Value::from_bytes(&b);
    assert_eq!(encoded.as_bytes(), Some(b));
}

#[test]
fn bytes_round_trip_empty() {
    let b: Vec<u8> = Vec::new();
    let encoded = Value::from_bytes(&b);
    assert!(matches!(&encoded, Value::Arr(a) if a.is_empty()));
    assert_eq!(encoded.as_bytes(), Some(b));
}

#[test]
fn bytes_decode_rejects_out_of_range() {
    let v = Value::Arr(vec![Value::Int(1), Value::Int(256)]);
    assert_eq!(v.as_bytes(), None);
    let w = Value::Arr(vec![Value::Int(1), Value::Bool(true)]);
    assert_eq!(w.as_bytes(), None);
    assert_eq!(Value::Null.as_bytes(), None);
}

#[test]
fn bytes_native_payload_decodes() {
    let v = Value::Bytes(vec![9, 8, 7]);
    assert_eq!(v.as_bytes(), Some(vec![9, 8, 7]));
}

#[test]
fn string_bytes_are_their_utf8_encoding() {
    let text = "a\u{e9}\u{20ac}\u{1f600}";
    let v = Value::Str(s(text));
    assert_eq!(v.as_bytes(), Some(text.as_bytes().to_vec()));
    assert_eq!(Value::Str(s("")).as_bytes(), Some(Vec::new()));
}

#[test]
fn ledger_records_pairs() {
    let mut g = Value::empty_obj();
    assert!(!ledger_has(&g, "default", "a.txt"));
    ledger_record(&mut g, "default", "a.txt", Value::Null);
    assert!(ledger_has(&g, "default", "a.txt"));
    assert!(!ledger_has(&g, "default", "b.txt"));
    assert!(!ledger_has(&g, "v2", "a.txt"));
    ledger_record(&mut g, "v2", "a.txt", Value::Null);
    assert!(ledger_has(&g, "v2", "a.txt"));
    assert!(ledger_has(&g, "default", "a.txt"));
}

#[test]
fn schedule_filter_skips_recorded_pairs() {
    let mut g = Value::empty_obj();
    let paths = vec![s("a.txt"), s("b.txt"), s("a.txt"), s("c.txt")];
    let kept = filter_new(&mut g, "default", &paths);
    assert_eq!(kept, vec![s("a.txt"), s("b.txt"), s("c.txt")]);
    let kept_again = filter_new(&mut g, "default", &paths);
    assert!(kept_again.is_empty());
    let other_version = filter_new(&mut g, "draft", &paths);
    assert_eq!(other_version, vec![s("a.txt"), s("b.txt"), s("c.txt")]);
}

#[test]
fn path_join_and_strip() {
    assert_eq!(join_path("site", "posts/a.md"), s("site/posts/a.md"));
    assert_eq!(join_path("site/", "a.md"), s("site/a.md"));
    assert_eq!(join_path("", "a.md"), s("a.md"));
    assert_eq!(strip_prefix_dir("site/posts/a.md", "site"), s("posts/a.md"));
    assert_eq!(strip_prefix_dir("other/a.md", "site"), s("other/a.md"));
    assert_eq!(strip_prefix_dir("a.md", ""), s("a.md"));
}

#[test]
fn path_extension_replacement() {
    assert_eq!(with_extension("posts/a.md", "html"), s("posts/a.html"));
    assert_eq!(with_extension("posts/a", "html"), s("posts/a.html"));
    assert_eq!(with_extension("a.tar.gz", "txt"), s("a.tar.txt"));
    assert_eq!(with_extension("posts/.hidden", "txt"), s("posts/.hidden.txt"));
    assert_eq!(url_of("posts/a.html"), s("/posts/a.html"));
}

#[test]
fn config_defaults_and_setters() {
    let c = Config::default();
    assert_eq!(c.source_dir(), s("site"));
    assert_eq!(c.target_dir(), s("dist"));
    assert!(c.target_clean());
    let c = c.set_source_dir("in").set_target_dir("out").set_target_clean(false);
    assert_eq!(c.source_dir(), s("in"));
    assert_eq!(c.target_dir(), s("out"));
    assert!(!c.target_clean());
}

#[test]
fn error_messages_name_their_kind() {
    assert_eq!(Error::InvalidMetadata.message(), s("invalid metadata"));
    assert_eq!(Error::InvalidRule.message(), s("invalid rule"));
    let e = Error::user_error(s("boom"));
    assert_eq!(e.message(), s("user error: boom"));
    let u = Error::UnknownRule { rule: s("ghost") };
    assert_eq!(u.message(), s("unknown rule: ghost"));
    assert_eq!(u.duplicate().message(), u.message());
    let f = Error::FileIo { message: s("gone") };
    assert_eq!(f.message(), s("file IO failed: gone"));
    let sj = Error::SerdeJson { message: s("bad") };
    assert_eq!(sj.message(), s("serde conversion failed: bad"));
}

#[test]
fn metadata_lookup_prefers_local() {
    let mut m = Metadata::new();
    assert_eq!(m.duplicate().get("k"), None);
    m.insert_global("k", Value::Int(1));
    assert_eq!(m.get("k"), Some(Value::Int(1)));
    m.insert_local("k", Value::Int(2));
    assert_eq!(m.get("k"), Some(Value::Int(2)));
    assert_eq!(m.get("absent"), None);
    m.insert_local("_source", Value::Str(s("site/a.md")));
    assert_eq!(m.source(), Some(s("site/a.md")));
    assert_eq!(m.target(), None);
}

#[test]
fn snapshot_manager_minimum_stage() {
    let mut m = SnapshotManager::new();
    assert_eq!(m.current_stage(), None);
    assert!(m.reached(3));
    let mut s1 = SnapshotStage::new();
    s1.push(Value::Int(1));
    s1.push(Value::Int(2));
    let mut s2 = SnapshotStage::new();
    s2.push(Value::Int(3));
    m.push(s1);
    m.push(s2);
    assert_eq!(m.current_stage(), Some(1));
    assert!(m.reached(1));
    assert!(!m.reached(2));
    let cut = m.metadata().unwrap();
    assert_eq!(cut, vec![Value::Int(1), Value::Int(3)]);
}

#[test]
fn duplicate_is_a_deep_copy() {
    let v = obj(vec![
        ("a", Value::Arr(vec![Value::Int(1), Value::Str(s("x"))])),
        ("b", obj(vec![("c", Value::Bytes(vec![1, 2]))])),
        ("f", Value::Float(0x3ff0000000000000)),
    ]);
    assert_eq!(v.duplicate(), v);
}

#[test]
fn object_upsert_keeps_positions() {
    let mut v = obj(vec![("a", Value::Int(1)), ("b", Value::Int(2))]);
    v.obj_insert("a", Value::Int(9));
    v.obj_insert("c", Value::Int(3));
    let expected = obj(vec![("a", Value::Int(9)), ("b", Value::Int(2)), ("c", Value::Int(3))]);
    assert_eq!(v, expected);
    assert_eq!(v.obj_get("b"), Some(&Value::Int(2)));
    assert_eq!(v.obj_get("missing"), None);
    assert_eq!(v.obj_remove("b"), Some(Value::Int(2)));
    assert_eq!(v.obj_get("b"), None);
}
