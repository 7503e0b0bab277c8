//! Places in a JSON tree: finding, setting and removing the value at one.

use crate::error::{verdict, CanError, Failure};
use crate::pointer::{
    decode_pointer_tokens, law_path_roundtrip, pointer_steps, pointer_to, steps, texts, tokens,
};
use crate::text::{
    decimal, decimal_text, law_decimal_is_canonical, law_decimal_roundtrip, parse_usize,
};
use crate::value::{lemma_elements, Json, Object, Value};
use vstd::prelude::*;

verus! {

/// The value that stands in `value` under `key`: a member of an object, or an
/// element of an array where the key is its index in decimal.
pub open spec fn child(value: Json, key: Seq<char>) -> Option<Json> {
    match value {
        Json::Object(map) => if map.contains_key(key) {
            Some(map[key])
        } else {
            None
        },
        Json::Array(items) => match decimal(key) {
            Some(n) if n < items.len() => Some(items[n as int]),
            _ => None,
        },
        _ => None,
    }
}

/// The value that the keys lead to, one after the other.
pub open spec fn value_at(value: Json, keys: Seq<Seq<char>>) -> Option<Json>
    decreases keys.len(),
{
    if keys.len() == 0 {
        Some(value)
    } else {
        match child(value, keys[0]) {
            Some(inner) => value_at(inner, keys.skip(1)),
            None => None,
        }
    }
}

/// The value that a pointer leads to.
pub open spec fn value_at_pointer(value: Json, pointer: Seq<char>) -> Option<Json> {
    match steps(pointer) {
        Some(keys) => value_at(value, keys),
        None => None,
    }
}

/// The members of an object; any other value counts as an object without
/// members.
pub open spec fn members_of(value: Json) -> Map<Seq<char>, Json> {
    match value {
        Json::Object(map) => map,
        _ => Map::empty(),
    }
}

/// `value` with `leaf` where the keys lead to. Whatever stands on the way and
/// is no object gives place to one.
pub open spec fn with_value(value: Json, keys: Seq<Seq<char>>, leaf: Json) -> Json
    decreases keys.len(),
{
    if keys.len() == 0 {
        leaf
    } else {
        let map = members_of(value);
        let inner = if map.contains_key(keys[0]) {
            map[keys[0]]
        } else {
            Json::Object(Map::empty())
        };
        Json::Object(map.insert(keys[0], with_value(inner, keys.skip(1), leaf)))
    }
}

/// `value` without what the keys lead to, or `None` where they lead nowhere
/// by way of objects alone.
pub open spec fn without_value(value: Json, keys: Seq<Seq<char>>) -> Option<Json>
    decreases keys.len(),
{
    if keys.len() == 0 || !(value is Object) || !members_of(value).contains_key(keys[0]) {
        None
    } else if keys.len() == 1 {
        Some(Json::Object(members_of(value).remove(keys[0])))
    } else {
        match without_value(members_of(value)[keys[0]], keys.skip(1)) {
            Some(inner) => Some(Json::Object(members_of(value).insert(keys[0], inner))),
            None => None,
        }
    }
}

impl Value {
    fn child(&self, key: &str) -> (inner: Option<&Value>)
        ensures
            match inner {
                Some(v) => child(self@, key@) == Some(v@),
                None => child(self@, key@) is None,
            },
    {
        match self {
            Value::Object(object) => object.get(key),
            Value::Array(values) => {
                proof {
                    lemma_elements(values@);
                }
                let count: usize = values.len();
                match parse_usize(key) {
                    Some(i) => if i < count {
                        Some(&values[i])
                    } else {
                        None
                    },
                    None => None,
                }
            },
            _ => None,
        }
    }

    /// The value that `pointer` leads to.
    pub fn pointer(&self, pointer: &str) -> (found: Option<&Value>)
        ensures
            match found {
                Some(v) => value_at_pointer(self@, pointer@) == Some(v@),
                None => value_at_pointer(self@, pointer@) is None,
            },
    {
        match pointer_steps(pointer) {
            None => None,
            Some(keys) => {
                let mut current: &Value = self;
                let ghost names = texts(keys@);
                assert(names.skip(0) =~= names);
                for i in 0..keys.len()
                    invariant
                        names == texts(keys@),
                        steps(pointer@) == Some(names),
                        value_at(self@, names) == value_at(current@, names.skip(i as int)),
                {
                    assert(names.skip(i as int).skip(1) =~= names.skip(i + 1));
                    assert(names.skip(i as int)[0] == keys@[i as int]@);
                    match current.child(keys[i].as_str()) {
                        Some(inner) => {
                            current = inner;
                        },
                        None => {
                            return None;
                        },
                    }
                }
                Some(current)
            },
        }
    }
}

fn put(root: &mut Value, keys: &Vec<String>, depth: usize, leaf: Value)
    requires
        depth < keys@.len(),
    ensures
        final(root)@ == with_value(old(root)@, texts(keys@).skip(depth as int), leaf@),
    decreases keys@.len() - depth,
{
    let ghost names = texts(keys@).skip(depth as int);
    assert(names.skip(1) =~= texts(keys@).skip(depth + 1));
    let mut taken = Value::Null;
    std::mem::swap(root, &mut taken);
    let mut object = match taken {
        Value::Object(object) => object,
        _ => Object::new(),
    };
    let ghost map = object@;
    assert(map == members_of(old(root)@));
    let key = keys[depth].clone();
    let ghost below = if map.contains_key(key@) {
        map[key@]
    } else {
        Json::Object(Map::empty())
    };
    if keys.len() - depth == 1 {
        object.insert(key, leaf);
        assert(with_value(below, names.skip(1), leaf@) == leaf@);
    } else {
        let mut inner = match object.remove(key.as_str()) {
            Some(inner) => inner,
            None => Value::Object(Object::new()),
        };
        assert(inner@ == below);
        put(&mut inner, keys, depth + 1, leaf);
        object.insert(key, inner);
        assert(object@ =~= map.insert(key@, inner@));
    }
    *root = Value::Object(object);
    assert(names[0] == key@);
    assert(object@ == map.insert(key@, with_value(below, names.skip(1), leaf@)));
}

/// Sets the value at `pointer`. Whatever stands on the way and is no object
/// gives place to one.
pub fn upsert_value_at_pointer(root: &mut Value, pointer: &str, value: Value) -> (result: Result<
    (),
    CanError,
>)
    ensures
        match tokens(pointer@) {
            Err(e) => verdict(result) == Err::<(), _>(e) && final(root)@ == old(root)@,
            Ok(keys) => if keys.len() == 0 {
                &&& verdict(result) == Err::<(), Failure<Seq<char>>>(Failure::NoToken)
                &&& final(root)@ == old(root)@
            } else {
                result is Ok && final(root)@ == with_value(old(root)@, keys, value@)
            },
        },
{
    let keys = decode_pointer_tokens(pointer)?;
    if keys.len() == 0 {
        return Err(Failure::NoToken);
    }
    assert(texts(keys@).skip(0) =~= texts(keys@));
    put(root, &keys, 0, value);
    Ok(())
}

fn cut(root: &mut Value, keys: &Vec<String>, depth: usize) -> (found: bool)
    requires
        depth < keys@.len(),
    ensures
        match without_value(old(root)@, texts(keys@).skip(depth as int)) {
            Some(rest) => found && final(root)@ == rest,
            None => !found && final(root)@ == old(root)@,
        },
    decreases keys@.len() - depth,
{
    let ghost names = texts(keys@).skip(depth as int);
    assert(names.skip(1) =~= texts(keys@).skip(depth + 1));
    let mut taken = Value::Null;
    std::mem::swap(root, &mut taken);
    match taken {
        Value::Object(mut object) => {
            let ghost map = object@;
            let key = keys[depth].clone();
            let found = match object.remove(key.as_str()) {
                Some(mut inner) => {
                    if keys.len() - depth == 1 {
                        true
                    } else {
                        let found = cut(&mut inner, keys, depth + 1);
                        object.insert(key, inner);
                        assert(object@ =~= map.insert(key@, inner@));
                        assert(!found ==> object@ =~= map);
                        found
                    }
                },
                None => {
                    assert(object@ =~= map);
                    false
                },
            };
            *root = Value::Object(object);
            found
        },
        other => {
            *root = other;
            false
        },
    }
}

/// Removes the value at `pointer`, which must lead there by way of objects.
pub fn remove_value_at_pointer(root: &mut Value, pointer: &str) -> (result: Result<(), CanError>)
    ensures
        match tokens(pointer@) {
            Err(e) => verdict(result) == Err::<(), _>(e) && final(root)@ == old(root)@,
            Ok(keys) => if keys.len() == 0 {
                &&& verdict(result) == Err::<(), Failure<Seq<char>>>(Failure::NoToken)
                &&& final(root)@ == old(root)@
            } else {
                match without_value(old(root)@, keys) {
                    Some(rest) => result is Ok && final(root)@ == rest,
                    None => {
                        &&& verdict(result) == Err::<(), Failure<Seq<char>>>(
                            Failure::PointerNotFound(pointer@),
                        )
                        &&& final(root)@ == old(root)@
                    },
                }
            },
        },
{
    let keys = decode_pointer_tokens(pointer)?;
    if keys.len() == 0 {
        return Err(Failure::NoToken);
    }
    assert(texts(keys@).skip(0) =~= texts(keys@));
    if cut(root, &keys, 0) {
        Ok(())
    } else {
        Err(Failure::PointerNotFound(pointer.to_owned()))
    }
}

/// Whether the keys lead, by way of objects alone, to an object.
pub open spec fn leads_to_object(value: Json, keys: Seq<Seq<char>>) -> bool
    decreases keys.len(),
{
    &&& value is Object
    &&& keys.len() > 0 ==> {
        &&& members_of(value).contains_key(keys[0])
        &&& leads_to_object(members_of(value)[keys[0]], keys.skip(1))
    }
}

/// Whether two paths have their first `d` keys in common and then part.
pub open spec fn part_at(path: Seq<Seq<char>>, other: Seq<Seq<char>>, d: int) -> bool {
    &&& 0 <= d < path.len()
    &&& d < other.len()
    &&& path.take(d) == other.take(d)
    &&& path[d] != other[d]
}

/// Whether neither path is the beginning of the other.
pub open spec fn apart(path: Seq<Seq<char>>, other: Seq<Seq<char>>) -> bool {
    !path.is_prefix_of(other) && !other.is_prefix_of(path)
}

/// Whether the keys lead to `leaf` by way of objects alone.
pub open spec fn holds(value: Json, keys: Seq<Seq<char>>, leaf: Json) -> bool
    decreases keys.len(),
{
    if keys.len() == 0 {
        value == leaf
    } else {
        &&& value is Object
        &&& members_of(value).contains_key(keys[0])
        &&& holds(members_of(value)[keys[0]], keys.skip(1), leaf)
    }
}

/// Paths that are apart part somewhere.
pub proof fn law_apart_paths_part(path: Seq<Seq<char>>, other: Seq<Seq<char>>)
    ensures
        apart(path, other) <==> exists|d: int| part_at(path, other, d),
    decreases path.len(),
{
    if apart(path, other) {
        assert(path.len() > 0) by {
            if path.len() == 0 {
                assert(path =~= other.subrange(0, 0));
            }
        }
        let front = path.drop_last();
        if front.is_prefix_of(other) {
            let d = front.len() as int;
            assert(other.len() > d) by {
                if other.len() == d {
                    assert(other =~= path.subrange(0, d));
                }
            }
            assert(path.take(d) =~= other.take(d));
            assert(path[d] != other[d]) by {
                if path[d] == other[d] {
                    assert(path =~= other.subrange(0, d + 1));
                }
            }
            assert(part_at(path, other, d));
        } else {
            assert(!other.is_prefix_of(front)) by {
                if other.is_prefix_of(front) {
                    assert(other =~= path.subrange(0, other.len() as int));
                }
            }
            law_apart_paths_part(front, other);
            let d = choose|d: int| part_at(front, other, d);
            assert(front.take(d) =~= path.take(d));
            assert(part_at(path, other, d));
        }
    }
    if exists|d: int| part_at(path, other, d) {
        let d = choose|d: int| part_at(path, other, d);
        if path.is_prefix_of(other) {
            assert(path[d] == other.subrange(0, path.len() as int)[d]);
        }
        if other.is_prefix_of(path) {
            assert(other[d] == path.subrange(0, other.len() as int)[d]);
        }
    }
}

/// What keys lead to by way of objects is found there.
pub proof fn law_held_is_found(value: Json, keys: Seq<Seq<char>>, leaf: Json)
    requires
        holds(value, keys, leaf),
    ensures
        value_at(value, keys) == Some(leaf),
    decreases keys.len(),
{
    if keys.len() > 0 {
        law_held_is_found(members_of(value)[keys[0]], keys.skip(1), leaf);
    }
}

/// What was set at a place is reached by way of objects.
pub proof fn law_set_then_held(value: Json, keys: Seq<Seq<char>>, leaf: Json)
    ensures
        holds(with_value(value, keys, leaf), keys, leaf),
    decreases keys.len(),
{
    if keys.len() > 0 {
        let map = members_of(value);
        let inner = if map.contains_key(keys[0]) {
            map[keys[0]]
        } else {
            Json::Object(Map::empty())
        };
        law_set_then_held(inner, keys.skip(1), leaf);
    }
}

proof fn lemma_apart_tails(path: Seq<Seq<char>>, other: Seq<Seq<char>>)
    requires
        apart(path, other),
    ensures
        path.len() > 0,
        other.len() > 0,
        path[0] == other[0] ==> apart(path.skip(1), other.skip(1)),
{
    if path.len() == 0 {
        assert(path =~= other.subrange(0, 0));
    }
    if other.len() == 0 {
        assert(other =~= path.subrange(0, 0));
    }
    if path[0] == other[0] {
        if path.skip(1).is_prefix_of(other.skip(1)) {
            assert forall|i: int| 0 <= i < path.len() implies path[i] == other[i] by {
                if i > 0 {
                    assert(path.skip(1)[i - 1] == other.skip(1).subrange(0, path.len() - 1)[i - 1]);
                }
            }
            assert(path =~= other.subrange(0, path.len() as int));
        }
        if other.skip(1).is_prefix_of(path.skip(1)) {
            assert forall|i: int| 0 <= i < other.len() implies path[i] == other[i] by {
                if i > 0 {
                    assert(other.skip(1)[i - 1] == path.skip(1).subrange(0, other.len() - 1)[i
                        - 1]);
                }
            }
            assert(other =~= path.subrange(0, other.len() as int));
        }
    }
}

/// What is reached by way of objects stays when a place apart from it is set.
pub proof fn law_set_keeps_held(
    value: Json,
    keys: Seq<Seq<char>>,
    leaf: Json,
    other: Seq<Seq<char>>,
    kept: Json,
)
    requires
        apart(keys, other),
        holds(value, other, kept),
    ensures
        holds(with_value(value, keys, leaf), other, kept),
    decreases keys.len(),
{
    lemma_apart_tails(keys, other);
    if keys[0] == other[0] {
        law_set_keeps_held(
            members_of(value)[keys[0]],
            keys.skip(1),
            leaf,
            other.skip(1),
            kept,
        );
    }
}

/// What is reached by way of objects stays when a place apart from it is
/// removed.
pub proof fn law_remove_keeps_held(
    value: Json,
    keys: Seq<Seq<char>>,
    other: Seq<Seq<char>>,
    kept: Json,
)
    requires
        apart(keys, other),
        without_value(value, keys) is Some,
        holds(value, other, kept),
    ensures
        holds(without_value(value, keys)->0, other, kept),
    decreases keys.len(),
{
    lemma_apart_tails(keys, other);
    if keys[0] == other[0] {
        if keys.len() == 1 {
            assert(keys =~= other.subrange(0, 1));
        } else {
            law_remove_keeps_held(
                members_of(value)[keys[0]],
                keys.skip(1),
                other.skip(1),
                kept,
            );
        }
    }
}

/// What was set at a place is found there.
pub proof fn law_set_then_found(value: Json, keys: Seq<Seq<char>>, leaf: Json)
    ensures
        value_at(with_value(value, keys, leaf), keys) == Some(leaf),
    decreases keys.len(),
{
    if keys.len() > 0 {
        let map = members_of(value);
        let inner = if map.contains_key(keys[0]) {
            map[keys[0]]
        } else {
            Json::Object(Map::empty())
        };
        law_set_then_found(inner, keys.skip(1), leaf);
    }
}

/// Setting a place twice leaves what setting it the second time alone does.
pub proof fn law_last_set_counts(value: Json, keys: Seq<Seq<char>>, first: Json, second: Json)
    ensures
        with_value(with_value(value, keys, first), keys, second) == with_value(
            value,
            keys,
            second,
        ),
    decreases keys.len(),
{
    if keys.len() > 0 {
        let map = members_of(value);
        let inner = if map.contains_key(keys[0]) {
            map[keys[0]]
        } else {
            Json::Object(Map::empty())
        };
        law_last_set_counts(inner, keys.skip(1), first, second);
        let once = members_of(with_value(value, keys, first));
        let twice = members_of(with_value(with_value(value, keys, first), keys, second));
        assert(twice =~= members_of(with_value(value, keys, second)));
    }
}

/// Setting a place leaves every place whose path parts from it as it was,
/// unless something was found there by way of an array that gives way to an
/// object.
pub proof fn law_set_keeps_others(
    value: Json,
    keys: Seq<Seq<char>>,
    leaf: Json,
    other: Seq<Seq<char>>,
    d: int,
)
    requires
        part_at(keys, other, d),
        value_at(value, other) is None || forall|i: int|
            0 <= i <= d ==> !(#[trigger] value_at(value, keys.take(i)) matches Some(
                Json::Array(_),
            )),
    ensures
        value_at(with_value(value, keys, leaf), other) == value_at(value, other),
    decreases d,
{
    let map = members_of(value);
    assert(value_at(value, keys.take(0)) == Some(value));
    if d > 0 {
        assert(keys.take(d)[0] == other.take(d)[0]);
        let inner = if map.contains_key(keys[0]) {
            map[keys[0]]
        } else {
            Json::Object(Map::empty())
        };
        assert(keys.skip(1).take(d - 1) =~= keys.take(d).skip(1));
        assert(other.skip(1).take(d - 1) =~= other.take(d).skip(1));
        if value is Object && map.contains_key(keys[0]) {
            assert forall|i: int| 0 <= i <= d - 1 implies #[trigger] value_at(
                inner,
                keys.skip(1).take(i),
            ) == value_at(value, keys.take(i + 1)) by {
                assert(keys.take(i + 1).skip(1) =~= keys.skip(1).take(i));
            }
        } else {
            assert(value_at(inner, other.skip(1)) is None);
        }
        law_set_keeps_others(inner, keys.skip(1), leaf, other.skip(1), d - 1);
    }
}

/// What was set at a place can be removed from it.
pub proof fn law_set_then_removable(value: Json, keys: Seq<Seq<char>>, leaf: Json)
    requires
        keys.len() > 0,
    ensures
        without_value(with_value(value, keys, leaf), keys) is Some,
    decreases keys.len(),
{
    if keys.len() > 1 {
        let map = members_of(value);
        let inner = if map.contains_key(keys[0]) {
            map[keys[0]]
        } else {
            Json::Object(Map::empty())
        };
        law_set_then_removable(inner, keys.skip(1), leaf);
    }
}

/// Removing undoes setting where the place was free and its parent there.
pub proof fn law_remove_undoes_set(value: Json, keys: Seq<Seq<char>>, leaf: Json)
    requires
        keys.len() > 0,
        leads_to_object(value, keys.drop_last()),
        value_at(value, keys) is None,
    ensures
        without_value(with_value(value, keys, leaf), keys) == Some(value),
    decreases keys.len(),
{
    let map = members_of(value);
    if keys.len() == 1 {
        assert(value_at(map[keys[0]], keys.skip(1)) == Some(map[keys[0]]));
        let inner = with_value(Json::Object(Map::empty()), keys.skip(1), leaf);
        assert(map.insert(keys[0], inner).remove(keys[0]) =~= map);
    } else {
        assert(keys.drop_last()[0] == keys[0]);
        assert(keys.drop_last().skip(1) =~= keys.skip(1).drop_last());
        let inner = map[keys[0]];
        law_remove_undoes_set(inner, keys.skip(1), leaf);
        assert(map.insert(keys[0], with_value(inner, keys.skip(1), leaf)).insert(keys[0], inner)
            =~= map);
    }
}

/// A place can be removed exactly where something is found there whose parent
/// is reached by way of objects.
pub proof fn law_removable(value: Json, keys: Seq<Seq<char>>)
    requires
        keys.len() > 0,
    ensures
        without_value(value, keys) is Some <==> (value_at(value, keys) is Some && leads_to_object(
            value,
            keys.drop_last(),
        )),
    decreases keys.len(),
{
    let map = members_of(value);
    if keys.len() == 1 {
        assert(value_at(map[keys[0]], keys.skip(1)) == Some(map[keys[0]]));
    } else {
        assert(keys.drop_last()[0] == keys[0]);
        assert(keys.drop_last().skip(1) =~= keys.skip(1).drop_last());
        law_removable(map[keys[0]], keys.skip(1));
    }
}

/// What was removed from a place is no longer found there.
pub proof fn law_removed_then_gone(value: Json, keys: Seq<Seq<char>>)
    requires
        without_value(value, keys) is Some,
    ensures
        value_at(without_value(value, keys)->0, keys) is None,
    decreases keys.len(),
{
    if keys.len() > 1 {
        law_removed_then_gone(members_of(value)[keys[0]], keys.skip(1));
    }
}

/// Removing a place leaves every place whose path parts from it as it was.
pub proof fn law_remove_keeps_others(
    value: Json,
    keys: Seq<Seq<char>>,
    other: Seq<Seq<char>>,
    d: int,
)
    requires
        part_at(keys, other, d),
        without_value(value, keys) is Some,
    ensures
        value_at(without_value(value, keys)->0, other) == value_at(value, other),
    decreases d,
{
    if d > 0 {
        assert(keys.take(d)[0] == other.take(d)[0]);
        assert(keys.skip(1).take(d - 1) =~= keys.take(d).skip(1));
        assert(other.skip(1).take(d - 1) =~= other.take(d).skip(1));
        law_remove_keeps_others(members_of(value)[keys[0]], keys.skip(1), other.skip(1), d - 1);
    }
}

/// A path leads on from where its beginning leads to.
pub proof fn law_paths_lead_on(value: Json, path: Seq<Seq<char>>, more: Seq<Seq<char>>)
    ensures
        value_at(value, Seq::empty()) == Some(value),
        value_at(value, path + more) == match value_at(value, path) {
            Some(inner) => value_at(inner, more),
            None => None,
        },
    decreases path.len(),
{
    if path.len() == 0 {
        assert(path + more =~= more);
    } else {
        assert((path + more)[0] == path[0]);
        assert((path + more).skip(1) =~= path.skip(1) + more);
        match child(value, path[0]) {
            Some(inner) => {
                law_paths_lead_on(inner, path.skip(1), more);
            },
            None => {},
        }
    }
}

/// A key leads from an object to its member of that name, and nowhere where it
/// has none.
pub proof fn law_members_are_found(map: Map<Seq<char>, Json>, key: Seq<char>)
    ensures
        map.contains_key(key) ==> value_at(Json::Object(map), seq![key]) == Some(map[key]),
        !map.contains_key(key) ==> value_at(Json::Object(map), seq![key]) is None,
{
    assert(seq![key].skip(1) =~= Seq::empty());
    if map.contains_key(key) {
        assert(value_at(map[key], seq![key].skip(1)) == Some(map[key]));
    }
}

/// A key leads from an array to the element whose index it is in decimal
/// notation, and nowhere where it is none.
pub proof fn law_elements_are_found(items: Seq<Json>, key: Seq<char>, i: nat)
    ensures
        i < items.len() && key == decimal_text(i) ==> value_at(Json::Array(items), seq![key])
            == Some(items[i as int]),
        i >= items.len() && key == decimal_text(i) ==> value_at(Json::Array(items), seq![key])
            is None,
        value_at(Json::Array(items), seq![key]) is Some ==> exists|j: nat|
            j < items.len() && key == #[trigger] decimal_text(j),
{
    assert(seq![key].skip(1) =~= Seq::empty());
    law_decimal_roundtrip(i);
    law_decimal_is_canonical(key);
    if i < items.len() {
        assert(value_at(items[i as int], seq![key].skip(1)) == Some(items[i as int]));
    }
    if value_at(Json::Array(items), seq![key]) is Some {
        let j = decimal(key)->0;
        assert(j < items.len() && key == decimal_text(j));
    }
}

/// No key leads on from what is neither an object nor an array.
pub proof fn law_leaves_end_paths(value: Json, path: Seq<Seq<char>>)
    requires
        !(value is Object),
        !(value is Array),
        path.len() > 0,
    ensures
        value_at(value, path) is None,
{
}

/// A pointer leads where its keys lead, and one without keys nowhere.
pub proof fn law_pointers_lead_where_keys_do(value: Json, pointer: Seq<char>)
    ensures
        steps(pointer) is None ==> value_at_pointer(value, pointer) is None,
        steps(pointer) is Some ==> value_at_pointer(value, pointer) == value_at(
            value,
            steps(pointer)->0,
        ),
        forall|keys: Seq<Seq<char>>|
            value_at_pointer(value, #[trigger] pointer_to(keys)) == value_at(value, keys),
{
    assert forall|keys: Seq<Seq<char>>|
        value_at_pointer(value, #[trigger] pointer_to(keys)) == value_at(value, keys) by {
        law_path_roundtrip(keys);
    }
}

/// A path leads by way of objects to an object exactly where every beginning of
/// it leads to one.
pub proof fn law_object_paths(value: Json, path: Seq<Seq<char>>)
    ensures
        leads_to_object(value, path) <==> forall|i: int|
            0 <= i <= path.len() ==> (#[trigger] value_at(value, path.take(i)) matches Some(
                Json::Object(_),
            )),
    decreases path.len(),
{
    assert(path.take(0) =~= Seq::empty());
    assert(value_at(value, path.take(0)) == Some(value));
    if path.len() > 0 && value is Object {
        let map = members_of(value);
        assert(path.take(1).skip(1) =~= Seq::empty());
        if map.contains_key(path[0]) {
            let inner = map[path[0]];
            law_object_paths(inner, path.skip(1));
            assert forall|i: int| 0 < i <= path.len() implies #[trigger] value_at(
                value,
                path.take(i),
            ) == value_at(inner, path.skip(1).take(i - 1)) by {
                assert(path.take(i).skip(1) =~= path.skip(1).take(i - 1));
                assert(path.take(i)[0] == path[0]);
            }
            if forall|i: int|
                0 <= i <= path.len() ==> (#[trigger] value_at(value, path.take(i)) matches Some(
                    Json::Object(_),
                )) {
                assert forall|i: int| 0 <= i <= path.skip(1).len() implies (#[trigger] value_at(
                    inner,
                    path.skip(1).take(i),
                ) matches Some(Json::Object(_))) by {
                    assert(value_at(value, path.take(i + 1)) == value_at(
                        inner,
                        path.skip(1).take(i + 1 - 1),
                    ));
                }
            }
        } else {
            assert(value_at(value, path.take(1)) is None);
        }
    }
}

/// What is held is what is found where the parent is reached by way of objects.
pub proof fn law_held(value: Json, path: Seq<Seq<char>>, leaf: Json)
    requires
        path.len() > 0,
    ensures
        holds(value, path, leaf) <==> value_at(value, path) == Some(leaf) && leads_to_object(
            value,
            path.drop_last(),
        ),
    decreases path.len(),
{
    let map = members_of(value);
    if path.len() == 1 {
        assert(value_at(map[path[0]], path.skip(1)) == Some(map[path[0]]));
        assert(holds(map[path[0]], path.skip(1), leaf) <==> map[path[0]] == leaf);
    } else {
        assert(path.drop_last()[0] == path[0]);
        assert(path.drop_last().skip(1) =~= path.skip(1).drop_last());
        law_held(map[path[0]], path.skip(1), leaf);
    }
}

/// Below a place that was set is what was set there, and every place above it
/// is an object.
pub proof fn law_set_above_and_below(
    value: Json,
    path: Seq<Seq<char>>,
    leaf: Json,
    more: Seq<Seq<char>>,
)
    ensures
        value_at(with_value(value, path, leaf), path + more) == value_at(leaf, more),
        path.len() > 0 ==> leads_to_object(with_value(value, path, leaf), path.drop_last()),
{
    law_set_then_found(value, path, leaf);
    law_paths_lead_on(with_value(value, path, leaf), path, more);
    if path.len() > 0 {
        law_set_then_held(value, path, leaf);
        law_held(with_value(value, path, leaf), path, leaf);
    }
}

/// Setting in what is no object is setting in an object without members.
pub proof fn law_set_in_other_values(value: Json, path: Seq<Seq<char>>, leaf: Json)
    requires
        !(value is Object),
        path.len() > 0,
    ensures
        with_value(value, path, leaf) == with_value(Json::Object(Map::empty()), path, leaf),
{
}

/// Setting at a path is setting, under its first key, at the rest of it; a
/// member that is missing counts as an object without members.
pub proof fn law_set_goes_down(
    map: Map<Seq<char>, Json>,
    key: Seq<char>,
    rest: Seq<Seq<char>>,
    leaf: Json,
)
    ensures
        ({
            let below = if map.contains_key(key) {
                map[key]
            } else {
                Json::Object(Map::empty())
            };
            with_value(Json::Object(map), seq![key] + rest, leaf) == Json::Object(
                map.insert(key, with_value(below, rest, leaf)),
            )
        }),
        with_value(Json::Object(map), Seq::empty(), leaf) == leaf,
{
    assert((seq![key] + rest).skip(1) =~= rest);
}

/// Setting what was found at a place that was removed gives the tree back.
pub proof fn law_set_undoes_remove(value: Json, path: Seq<Seq<char>>)
    requires
        without_value(value, path) is Some,
    ensures
        value_at(value, path) is Some,
        with_value(without_value(value, path)->0, path, value_at(value, path)->0) == value,
    decreases path.len(),
{
    let map = members_of(value);
    let inner = map[path[0]];
    if path.len() == 1 {
        assert(value_at(inner, path.skip(1)) == Some(inner));
        assert(with_value(Json::Object(Map::empty()), path.skip(1), inner) == inner);
        assert(map.remove(path[0]).insert(path[0], inner) =~= map);
    } else {
        law_set_undoes_remove(inner, path.skip(1));
        let rest = without_value(inner, path.skip(1))->0;
        assert(map.insert(path[0], rest).insert(path[0], inner) =~= map);
    }
}

} // verus!
