use tinny::{remove_value_at_pointer, upsert_value_at_pointer, Failure, Number, Object, Value};

fn text(s: &str) -> Value {
    Value::String(s.to_string())
}

fn object(members: Vec<(&str, Value)>) -> Value {
    let mut object = Object::new();
    for (key, value) in members {
        object.insert(key.to_string(), value);
    }
    Value::Object(object)
}

fn same(a: &Value, b: &Value) -> bool {
    match (a, b) {
        (Value::Null, Value::Null) => true,
        (Value::Bool(x), Value::Bool(y)) => x == y,
        (Value::Number(x), Value::Number(y)) => x == y,
        (Value::String(x), Value::String(y)) => x == y,
        (Value::Array(x), Value::Array(y)) => {
            x.len() == y.len() && x.iter().zip(y).all(|(v, w)| same(v, w))
        }
        (Value::Object(x), Value::Object(y)) => {
            x.entries().len() == y.entries().len()
                && x.entries().iter().all(|(k, v)| y.get(k).map_or(false, |w| same(v, w)))
        }
        _ => false,
    }
}

fn sample() -> Value {
    object(vec![
        ("svc", object(vec![("db", text("d")), ("api", text("a"))])),
        ("list", Value::Array(vec![text("zero"), object(vec![("k", Value::Bool(true))])])),
        ("leaf", text("l")),
        ("", text("empty")),
        ("a/b", Value::Null),
    ])
}

#[test]
fn pointers_lead_into_objects_and_arrays() {
    let v = sample();
    assert!(same(v.pointer("").unwrap(), &v));
    assert!(same(v.pointer("/svc/db").unwrap(), &text("d")));
    assert!(same(v.pointer("/list/0").unwrap(), &text("zero")));
    assert!(same(v.pointer("/list/1/k").unwrap(), &Value::Bool(true)));
    assert!(same(v.pointer("/").unwrap(), &text("empty")));
    assert!(same(v.pointer("/a~1b").unwrap(), &Value::Null));
    let missing = ["svc", "/svc/x", "/leaf/x", "/list/2", "/list/00", "/list/+0", "/list/-", "//"];
    for missing in missing {
        assert!(v.pointer(missing).is_none());
    }
}

#[test]
fn what_was_set_is_found() {
    let mut v = object(vec![]);
    upsert_value_at_pointer(&mut v, "/service/db/password", text("x")).unwrap();
    assert!(same(v.pointer("/service/db/password").unwrap(), &text("x")));
    let expected =
        object(vec![("service", object(vec![("db", object(vec![("password", text("x"))]))]))]);
    assert!(same(&v, &expected));
}

#[test]
fn the_last_set_counts() {
    let mut twice = sample();
    upsert_value_at_pointer(&mut twice, "/svc/db", text("first")).unwrap();
    upsert_value_at_pointer(&mut twice, "/svc/db", text("second")).unwrap();
    let mut once = sample();
    upsert_value_at_pointer(&mut once, "/svc/db", text("second")).unwrap();
    assert!(same(&twice, &once));
}

#[test]
fn setting_keeps_other_places() {
    let mut v = sample();
    upsert_value_at_pointer(&mut v, "/svc/db/deep", text("x")).unwrap();
    assert!(same(v.pointer("/svc/api").unwrap(), &text("a")));
    assert!(same(v.pointer("/list/0").unwrap(), &text("zero")));
    assert!(same(v.pointer("/leaf").unwrap(), &text("l")));
}

#[test]
fn what_is_no_object_gives_way() {
    let mut v = sample();
    upsert_value_at_pointer(&mut v, "/list/0", text("x")).unwrap();
    assert!(same(v.pointer("/list").unwrap(), &object(vec![("0", text("x"))])));
    let mut root = Value::Number(Number::PosInt(3));
    upsert_value_at_pointer(&mut root, "/a/b", Value::Number(Number::NegInt(-1))).unwrap();
    let expected = object(vec![("a", object(vec![("b", Value::Number(Number::NegInt(-1)))]))]);
    assert!(same(&root, &expected));
}

#[test]
fn removing_undoes_setting() {
    let mut v = sample();
    upsert_value_at_pointer(&mut v, "/svc/new", text("x")).unwrap();
    remove_value_at_pointer(&mut v, "/svc/new").unwrap();
    assert!(same(&v, &sample()));
}

#[test]
fn what_was_removed_is_gone_and_the_rest_stays() {
    let mut v = sample();
    remove_value_at_pointer(&mut v, "/svc/db").unwrap();
    assert!(v.pointer("/svc/db").is_none());
    assert!(same(v.pointer("/svc").unwrap(), &object(vec![("api", text("a"))])));
    assert!(same(v.pointer("/leaf").unwrap(), &text("l")));
    remove_value_at_pointer(&mut v, "/svc").unwrap();
    assert!(v.pointer("/svc").is_none());
}

#[test]
fn only_members_of_objects_can_be_removed() {
    for missing in ["/svc/x", "/x/y", "/list/0", "/leaf/x", "/list/1/k"] {
        let mut v = sample();
        let e = remove_value_at_pointer(&mut v, missing).unwrap_err();
        assert!(matches!(&e, Failure::PointerNotFound(p) if p == missing));
        assert!(same(&v, &sample()));
    }
}

#[test]
fn refused_pointers_change_nothing() {
    let mut v = sample();
    assert!(matches!(
        upsert_value_at_pointer(&mut v, "", text("x")).unwrap_err(),
        Failure::NoToken
    ));
    assert!(matches!(remove_value_at_pointer(&mut v, "").unwrap_err(), Failure::NoToken));
    assert!(matches!(
        upsert_value_at_pointer(&mut v, "/a//b", text("x")).unwrap_err(),
        Failure::EmptyToken(_)
    ));
    assert!(matches!(
        upsert_value_at_pointer(&mut v, "a", text("x")).unwrap_err(),
        Failure::MissingSlash(_)
    ));
    assert!(matches!(
        remove_value_at_pointer(&mut v, "/svc/").unwrap_err(),
        Failure::EmptyToken(_)
    ));
    assert!(same(&v, &sample()));
}

#[test]
fn objects_hold_each_key_once() {
    let mut object = Object::new();
    object.insert("k".to_string(), text("one"));
    object.insert("k".to_string(), text("two"));
    assert_eq!(object.entries().len(), 1);
    assert!(same(object.get("k").unwrap(), &text("two")));
    assert!(object.remove("x").is_none());
    assert!(same(&object.remove("k").unwrap(), &text("two")));
    assert!(object.get("k").is_none());
}

#[test]
fn a_clone_is_the_same_value() {
    assert!(same(&sample().clone(), &sample()));
}
