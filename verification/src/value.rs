//! JSON values.

use vstd::prelude::*;

verus! {

/// A JSON number.
#[derive(Clone, Copy, Debug, PartialEq, Eq, Structural)]
pub enum Number {
    /// An integer that is not negative.
    PosInt(u64),
    /// A negative integer.
    NegInt(i64),
    /// The bits of a double-precision number.
    Float(u64),
}

/// A JSON value.
#[derive(Debug)]
pub enum Value {
    Null,
    Bool(bool),
    Number(Number),
    String(String),
    Array(Vec<Value>),
    Object(Object),
}

/// The members of a JSON object. No key occurs twice.
#[derive(Debug)]
pub struct Object {
    entries: Vec<(String, Value)>,
}

/// What a JSON value is, apart from how it is held in memory.
#[verifier::ext_equal]
pub enum Json {
    Null,
    Bool(bool),
    Number(Number),
    String(Seq<char>),
    Array(Seq<Json>),
    Object(Map<Seq<char>, Json>),
}

spec fn distinct(entries: Seq<(String, Value)>) -> bool {
    forall|i: int, j: int| 0 <= i < j < entries.len() ==> entries[i].0@ != entries[j].0@
}

spec fn members(entries: Seq<(String, Value)>) -> Map<Seq<char>, Json>
    decreases entries,
{
    if entries.len() == 0 {
        Map::empty()
    } else {
        members(entries.drop_last()).insert(entries.last().0@, entries.last().1.json())
    }
}

/// The JSON values that `values` hold, in order.
pub open spec fn elements(values: Seq<Value>) -> Seq<Json>
    decreases values,
{
    if values.len() == 0 {
        Seq::empty()
    } else {
        elements(values.drop_last()).push(values.last().json())
    }
}

/// Each element is what the value at its place is.
pub proof fn lemma_elements(values: Seq<Value>)
    ensures
        elements(values).len() == values.len(),
        forall|i: int| 0 <= i < values.len() ==> #[trigger] elements(values)[i] == values[i].json(),
    decreases values.len(),
{
    if values.len() > 0 {
        lemma_elements(values.drop_last());
    }
}

impl Object {
    #[verifier::type_invariant]
    spec fn keys_differ(self) -> bool {
        distinct(self.entries@)
    }

    /// The value of each key.
    pub closed spec fn map(self) -> Map<Seq<char>, Json>
        decreases self,
    {
        members(self.entries@)
    }
}

impl Value {
    /// What the value is.
    pub open spec fn json(self) -> Json
        decreases self,
    {
        match self {
            Value::Null => Json::Null,
            Value::Bool(b) => Json::Bool(b),
            Value::Number(n) => Json::Number(n),
            Value::String(s) => Json::String(s@),
            Value::Array(values) => Json::Array(elements(values@)),
            Value::Object(object) => Json::Object(object.map()),
        }
    }
}

impl View for Value {
    type V = Json;

    open spec fn view(&self) -> Json {
        self.json()
    }
}

impl View for Object {
    type V = Map<Seq<char>, Json>;

    open spec fn view(&self) -> Map<Seq<char>, Json> {
        self.map()
    }
}

proof fn lemma_members(entries: Seq<(String, Value)>)
    requires
        distinct(entries),
    ensures
        forall|i: int|
            0 <= i < entries.len() ==> members(entries).contains_key((#[trigger] entries[i]).0@)
                && members(entries)[entries[i].0@] == entries[i].1.json(),
        forall|k: Seq<char>| #[trigger]
            members(entries).contains_key(k) ==> exists|i: int|
                0 <= i < entries.len() && (#[trigger] entries[i]).0@ == k,
    decreases entries.len(),
{
    if entries.len() > 0 {
        lemma_members(entries.drop_last());
        let rest = entries.drop_last();
        assert forall|i: int| 0 <= i < entries.len() implies members(entries).contains_key(
            (#[trigger] entries[i]).0@,
        ) && members(entries)[entries[i].0@] == entries[i].1.json() by {
            if i < rest.len() {
                assert(rest[i] == entries[i]);
            }
        }
        assert forall|k: Seq<char>| #[trigger]
            members(entries).contains_key(k) implies exists|i: int|
                0 <= i < entries.len() && (#[trigger] entries[i]).0@ == k by {
            if k == entries.last().0@ {
                assert(entries[entries.len() - 1].0@ == k);
            } else {
                assert(members(rest).contains_key(k));
                let i = choose|i: int| 0 <= i < rest.len() && (#[trigger] rest[i]).0@ == k;
                assert(entries[i].0@ == k);
            }
        }
    }
}

proof fn lemma_members_are(entries: Seq<(String, Value)>, map: Map<Seq<char>, Json>)
    requires
        distinct(entries),
        forall|i: int|
            0 <= i < entries.len() ==> map.contains_key((#[trigger] entries[i]).0@)
                && map[entries[i].0@] == entries[i].1.json(),
        forall|k: Seq<char>| #[trigger]
            map.contains_key(k) ==> exists|i: int|
                0 <= i < entries.len() && (#[trigger] entries[i]).0@ == k,
    ensures
        members(entries) == map,
{
    lemma_members(entries);
    assert forall|k: Seq<char>| members(entries).contains_key(k) == map.contains_key(k) && (
    map.contains_key(k) ==> members(entries)[k] == map[k]) by {
        if members(entries).contains_key(k) {
            let i = choose|i: int| 0 <= i < entries.len() && (#[trigger] entries[i]).0@ == k;
            assert(map.contains_key(entries[i].0@));
        }
        if map.contains_key(k) {
            let i = choose|i: int| 0 <= i < entries.len() && (#[trigger] entries[i]).0@ == k;
            assert(members(entries).contains_key(entries[i].0@));
        }
    }
    assert(members(entries) =~= map);
}

impl Object {
    /// An object without members.
    pub fn new() -> (object: Object)
        ensures
            object@ == Map::<Seq<char>, Json>::empty(),
    {
        Object { entries: Vec::new() }
    }

    fn position(&self, key: &str) -> (at: Option<usize>)
        ensures
            match at {
                Some(i) => i < self.entries@.len() && self.entries@[i as int].0@ == key@,
                None => forall|i: int|
                    0 <= i < self.entries@.len() ==> (#[trigger] self.entries@[i]).0@ != key@,
            },
    {
        let wanted = key.to_owned();
        for i in 0..self.entries.len()
            invariant
                wanted@ == key@,
                forall|j: int| 0 <= j < i ==> (#[trigger] self.entries@[j]).0@ != key@,
        {
            if self.entries[i].0 == wanted {
                return Some(i);
            }
        }
        None
    }

    /// The value of `key`.
    pub fn get(&self, key: &str) -> (value: Option<&Value>)
        ensures
            match value {
                Some(v) => self@.contains_key(key@) && v@ == self@[key@],
                None => !self@.contains_key(key@),
            },
    {
        proof {
            use_type_invariant(self);
            lemma_members(self.entries@);
        }
        match self.position(key) {
            Some(i) => Some(&self.entries[i].1),
            None => None,
        }
    }

    /// Sets the value of `key`, in place of any it had.
    pub fn insert(&mut self, key: String, value: Value)
        ensures
            final(self)@ == old(self)@.insert(key@, value@),
    {
        proof {
            use_type_invariant(&*self);
            lemma_members(self.entries@);
        }
        let at = self.position(key.as_str());
        let mut entries: Vec<(String, Value)> = Vec::new();
        std::mem::swap(&mut self.entries, &mut entries);
        let ghost before = entries@;
        let ghost after = old(self)@.insert(key@, value@);
        match at {
            Some(i) => {
                entries.set(i, (key, value));
                proof {
                    assert forall|k: Seq<char>| #[trigger]
                        after.contains_key(k) implies exists|j: int|
                        0 <= j < entries@.len() && (#[trigger] entries@[j]).0@ == k by {
                        if k == key@ {
                            assert(entries@[i as int].0@ == k);
                        } else {
                            let j = choose|j: int|
                                0 <= j < before.len() && (#[trigger] before[j]).0@ == k;
                            assert(entries@[j].0@ == k);
                        }
                    }
                    lemma_members_are(entries@, after);
                }
            },
            None => {
                entries.push((key, value));
                assert(entries@.drop_last() =~= before);
            },
        }
        self.entries = entries;
    }

    /// Takes the value of `key` out, if it has one.
    pub fn remove(&mut self, key: &str) -> (value: Option<Value>)
        ensures
            final(self)@ == old(self)@.remove(key@),
            match value {
                Some(v) => old(self)@.contains_key(key@) && v@ == old(self)@[key@],
                None => !old(self)@.contains_key(key@),
            },
    {
        proof {
            use_type_invariant(&*self);
            lemma_members(self.entries@);
        }
        match self.position(key) {
            Some(i) => {
                let mut entries: Vec<(String, Value)> = Vec::new();
                std::mem::swap(&mut self.entries, &mut entries);
                let ghost before = entries@;
                let ghost after = old(self)@.remove(key@);
                let (_, value) = entries.remove(i);
                proof {
                    assert forall|k: Seq<char>| #[trigger]
                        after.contains_key(k) implies exists|j: int|
                        0 <= j < entries@.len() && (#[trigger] entries@[j]).0@ == k by {
                        let j = choose|j: int|
                            0 <= j < before.len() && (#[trigger] before[j]).0@ == k;
                        if j < i {
                            assert(entries@[j] == before[j]);
                        } else {
                            assert(entries@[j - 1] == before[j]);
                        }
                    }
                    assert forall|j: int| 0 <= j < entries@.len() implies after.contains_key(
                        (#[trigger] entries@[j]).0@,
                    ) && after[entries@[j].0@] == entries@[j].1.json() by {
                        let k = if j < i { j } else { j + 1 };
                        assert(entries@[j] == before[k]);
                    }
                    lemma_members_are(entries@, after);
                }
                self.entries = entries;
                Some(value)
            },
            None => {
                assert(self@.remove(key@) =~= self@);
                None
            },
        }
    }

    /// The members, in the order in which they are held.
    pub fn entries(&self) -> (entries: &Vec<(String, Value)>)
        ensures
            forall|i: int, j: int| 0 <= i < j < entries@.len() ==> entries@[i].0@ != entries@[j].0@,
            forall|i: int|
                0 <= i < entries@.len() ==> self@.contains_key((#[trigger] entries@[i]).0@)
                    && self@[entries@[i].0@] == entries@[i].1@,
            forall|k: Seq<char>| #[trigger]
                self@.contains_key(k) ==> exists|i: int|
                    0 <= i < entries@.len() && (#[trigger] entries@[i]).0@ == k,
    {
        proof {
            use_type_invariant(self);
            lemma_members(self.entries@);
        }
        &self.entries
    }

    fn duplicate(&self) -> (copy: Object)
        ensures
            copy@ == self@,
        decreases self,
    {
        proof {
            use_type_invariant(self);
        }
        let mut entries: Vec<(String, Value)> = Vec::new();
        for i in 0..self.entries.len()
            invariant
                distinct(self.entries@),
                entries@.len() == i,
                forall|j: int|
                    0 <= j < i ==> (#[trigger] entries@[j]).0@ == self.entries@[j].0@
                        && entries@[j].1.json() == self.entries@[j].1.json(),
                members(entries@) == members(self.entries@.take(i as int)),
        {
            let ghost before = entries@;
            let key = self.entries[i].0.clone();
            let value = self.entries[i].1.duplicate();
            entries.push((key, value));
            assert(entries@.drop_last() =~= before);
            assert(self.entries@.take(i + 1).drop_last() =~= self.entries@.take(i as int));
        }
        assert(self.entries@.take(self.entries@.len() as int) =~= self.entries@);
        Object { entries }
    }
}

impl Value {
    fn duplicate(&self) -> (copy: Value)
        ensures
            copy@ == self@,
        decreases self,
    {
        match self {
            Value::Null => Value::Null,
            Value::Bool(b) => Value::Bool(*b),
            Value::Number(n) => Value::Number(*n),
            Value::String(s) => Value::String(s.clone()),
            Value::Array(values) => {
                let mut copies: Vec<Value> = Vec::new();
                for i in 0..values.len()
                    invariant
                        elements(copies@) == elements(values@.take(i as int)),
                        decreases_to!(*self => *values),
                {
                    let ghost before = copies@;
                    copies.push(values[i].duplicate());
                    assert(copies@.drop_last() =~= before);
                    assert(values@.take(i + 1).drop_last() =~= values@.take(i as int));
                }
                assert(values@.take(values@.len() as int) =~= values@);
                Value::Array(copies)
            },
            Value::Object(object) => Value::Object(object.duplicate()),
        }
    }
}

impl Clone for Value {
    fn clone(&self) -> (copy: Value)
        ensures
            copy@ == self@,
    {
        self.duplicate()
    }
}

impl Clone for Object {
    fn clone(&self) -> (copy: Object)
        ensures
            copy@ == self@,
    {
        self.duplicate()
    }
}

/// A value is what its variant says of what it holds.
pub proof fn law_values_are_what_they_hold(value: Value)
    ensures
        match value {
            Value::Null => value@ == Json::Null,
            Value::Bool(b) => value@ == Json::Bool(b),
            Value::Number(n) => value@ == Json::Number(n),
            Value::String(s) => value@ == Json::String(s@),
            Value::Array(values) => {
                &&& value@ is Array
                &&& value@->Array_0.len() == values@.len()
                &&& forall|i: int|
                    0 <= i < values@.len() ==> #[trigger] value@->Array_0[i] == values@[i]@
            },
            Value::Object(object) => value@ == Json::Object(object@),
        },
{
    match value {
        Value::Array(values) => {
            lemma_elements(values@);
        },
        _ => {},
    }
}

} // verus!
