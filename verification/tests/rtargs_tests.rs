use forester::rtargs::{RtArg, RtArgs, RtValue};

fn named(name: &str, v: RtValue) -> RtArg {
    RtArg { name: name.to_owned(), value: v }
}

#[test]
fn with_appends_new_key() {
    let args = RtArgs::new().with("cursor", RtValue::of_int(1));
    assert_eq!(args.len(), 1);
    assert_eq!(args.find("cursor"), Some(RtValue::Int(1)));
}

#[test]
fn with_replaces_in_place() {
    let args = RtArgs(vec![named("a", RtValue::Int(1)), named("b", RtValue::Int(2))]);
    let args = args.with("a", RtValue::of_int(9));
    assert_eq!(
        args,
        RtArgs(vec![named("a", RtValue::Int(9)), named("b", RtValue::Int(2))])
    );
}

#[test]
fn find_returns_first_match() {
    let args = RtArgs(vec![named("k", RtValue::Int(1)), named("k", RtValue::Int(2))]);
    assert_eq!(args.find("k"), Some(RtValue::Int(1)));
    assert_eq!(args.find("missing"), None);
}

#[test]
fn remove_drops_by_name() {
    let args = RtArgs(vec![
        named("k", RtValue::Int(1)),
        named("other", RtValue::Bool(true)),
        named("k", RtValue::Int(2)),
    ]);
    let args = args.remove("k");
    assert_eq!(args, RtArgs(vec![named("other", RtValue::Bool(true))]));
}

#[test]
fn equality_is_by_ordered_content() {
    let a = RtArgs(vec![named("x", RtValue::Int(1)), named("y", RtValue::Int(2))]);
    let b = RtArgs(vec![named("y", RtValue::Int(2)), named("x", RtValue::Int(1))]);
    assert_ne!(a, b);
    let c = RtArgs(vec![named("x", RtValue::Int(1)), named("y", RtValue::Int(2))]);
    assert_eq!(a, c);
}

#[test]
fn value_accessors() {
    assert_eq!(RtValue::of_int(7).as_int(), Some(7));
    assert_eq!(RtValue::of_bool(true).as_int(), None);
    assert_eq!(
        RtValue::of_str("hi".to_owned()).as_string(),
        Some("hi".to_owned())
    );
    assert_eq!(RtValue::of_int(7).as_string(), None);
}

#[test]
fn clone_keeps_nested_arrays() {
    let v = RtValue::Array(vec![
        RtValue::Int(1),
        RtValue::Array(vec![RtValue::Str("deep".to_owned())]),
    ]);
    assert_eq!(v.clone(), v);
}
