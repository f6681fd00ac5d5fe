//! A JSON value model for API payloads, and the records read from them.

use vstd::prelude::*;
use crate::text::{same_text, to_owned_string, opt_seq};

verus! {

/// A JSON number: a non-negative integer, a negative integer, or any other
/// number kept as its decimal text.
#[derive(Debug, PartialEq)]
pub enum JsonNumber {
    Unsigned(u64),
    Negative(i64),
    Decimal(String),
}

/// A JSON value. Object members keep their order; keys are looked up by first match.
#[derive(Debug, PartialEq)]
pub enum JsonValue {
    Null,
    Bool(bool),
    Number(JsonNumber),
    Text(String),
    Array(Vec<JsonValue>),
    Object(Vec<(String, JsonValue)>),
}

/// Position of the first member named `key`.
pub open spec fn member_index(m: Seq<(String, JsonValue)>, key: Seq<char>) -> Option<int> {
    if exists|i: int| 0 <= i < m.len() && (#[trigger] m[i]).0@ == key {
        Some(
            choose|i: int|
                0 <= i < m.len() && (#[trigger] m[i]).0@ == key && forall|j: int|
                    0 <= j < i ==> (#[trigger] m[j]).0@ != key,
        )
    } else {
        None
    }
}

proof fn lemma_member_index(m: Seq<(String, JsonValue)>, key: Seq<char>, i: int)
    requires
        0 <= i < m.len(),
        m[i].0@ == key,
        forall|j: int| 0 <= j < i ==> (#[trigger] m[j]).0@ != key,
    ensures
        member_index(m, key) == Some(i),
{
    assert(m[i].0@ == key);
    let k = choose|k: int|
        0 <= k < m.len() && (#[trigger] m[k]).0@ == key && forall|j: int|
            0 <= j < k ==> (#[trigger] m[j]).0@ != key;
    assert(0 <= k < m.len() && m[k].0@ == key);
    if k < i {
        assert(m[k].0@ != key);
    } else if k > i {
        assert(m[i].0@ != key);
    }
}

/// What `member_index` gives: the first member named `key`, or `None` when absent.
#[verifier::rlimit(30)]
pub proof fn lemma_member_index_props(m: Seq<(String, JsonValue)>, key: Seq<char>)
    ensures
        match member_index(m, key) {
            Some(i) => 0 <= i < m.len() && m[i].0@ == key && forall|j: int| 0 <= j < i ==> (#[trigger] m[j]).0@ != key,
            None => forall|j: int| 0 <= j < m.len() ==> (#[trigger] m[j]).0@ != key,
        },
    decreases m.len(),
{
    if exists|i: int| 0 <= i < m.len() && (#[trigger] m[i]).0@ == key {
        if m[0].0@ == key {
            lemma_member_index(m, key, 0);
        } else {
            let t = m.drop_first();
            let k = choose|k: int| 0 <= k < m.len() && (#[trigger] m[k]).0@ == key;
            assert(t[k - 1] == m[k]);
            lemma_member_index_props(t, key);
            let q = member_index(t, key)->0;
            assert forall|j: int| 0 <= j < q + 1 implies (#[trigger] m[j]).0@ != key by {
                if j > 0 {
                    assert(m[j] == t[j - 1]);
                }
            }
            assert(m[q + 1] == t[q]);
            lemma_member_index(m, key, q + 1);
        }
    }
}

/// The member `key` of an object (`Value::get`); `None` for other values.
#[verifier::opaque]
pub open spec fn field(v: JsonValue, key: Seq<char>) -> Option<JsonValue> {
    match v {
        JsonValue::Object(m) => match member_index(m@, key) {
            Some(i) => Some(m@[i].1),
            None => None,
        },
        _ => None,
    }
}

/// The text of a string value (`Value::as_str`).
pub open spec fn text_of(v: Option<JsonValue>) -> Option<Seq<char>> {
    match v {
        Some(JsonValue::Text(s)) => Some(s@),
        _ => None,
    }
}

/// A non-negative integer value (`Value::as_u64`).
pub open spec fn u64_of(v: Option<JsonValue>) -> Option<u64> {
    match v {
        Some(JsonValue::Number(JsonNumber::Unsigned(n))) => Some(n),
        _ => None,
    }
}

/// A boolean value (`Value::as_bool`).
pub open spec fn bool_of(v: Option<JsonValue>) -> Option<bool> {
    match v {
        Some(JsonValue::Bool(b)) => Some(b),
        _ => None,
    }
}

/// The elements of an array value (`Value::as_array`).
pub open spec fn array_of(v: Option<JsonValue>) -> Option<Seq<JsonValue>> {
    match v {
        Some(JsonValue::Array(a)) => Some(a@),
        _ => None,
    }
}

/// The text of member `key`.
pub open spec fn text_field(v: JsonValue, key: Seq<char>) -> Option<Seq<char>> {
    text_of(field(v, key))
}

impl JsonValue {
    /// The member `key`, when this is an object that has it.
    pub fn get(&self, key: &str) -> (r: Option<&JsonValue>)
        ensures
            match field(*self, key@) {
                Some(x) => r matches Some(y) && *y == x,
                None => r is None,
            },
    {
        reveal(field);
        match self {
            JsonValue::Object(m) => {
                let mut i: usize = 0;
                while i < m.len()
                    invariant
                        *self == JsonValue::Object(*m),
                        i <= m@.len(),
                        forall|j: int| 0 <= j < i ==> (#[trigger] m@[j]).0@ != key@,
                    decreases m.len() - i,
                {
                    if same_text(m[i].0.as_str(), key) {
                        proof {
                            reveal(field);
                            lemma_member_index(m@, key@, i as int);
                            assert(field(*self, key@) == Some(m@[i as int].1));
                        }
                        return Some(&m[i].1);
                    }
                    i = i + 1;
                }
                None
            },
            _ => None,
        }
    }

    pub fn as_str(&self) -> (r: Option<&str>)
        ensures
            match r {
                Some(s) => text_of(Some(*self)) == Some(s@),
                None => text_of(Some(*self)) is None,
            },
    {
        match self {
            JsonValue::Text(s) => Some(s.as_str()),
            _ => None,
        }
    }

    pub fn as_u64(&self) -> (r: Option<u64>)
        ensures
            r == u64_of(Some(*self)),
    {
        match self {
            JsonValue::Number(JsonNumber::Unsigned(n)) => Some(*n),
            _ => None,
        }
    }

    pub fn as_bool(&self) -> (r: Option<bool>)
        ensures
            r == bool_of(Some(*self)),
    {
        match self {
            JsonValue::Bool(b) => Some(*b),
            _ => None,
        }
    }

    pub fn as_array(&self) -> (r: Option<&Vec<JsonValue>>)
        ensures
            match r {
                Some(a) => array_of(Some(*self)) == Some(a@),
                None => array_of(Some(*self)) is None,
            },
    {
        match self {
            JsonValue::Array(a) => Some(a),
            _ => None,
        }
    }

    /// The text of member `key`, when it is a string.
    pub fn str_field(&self, key: &str) -> (r: Option<&str>)
        ensures
            match r {
                Some(s) => text_field(*self, key@) == Some(s@),
                None => text_field(*self, key@) is None,
            },
    {
        match self.get(key) {
            Some(v) => v.as_str(),
            None => None,
        }
    }

    /// The non-negative integer member `key`.
    pub fn u64_field(&self, key: &str) -> (r: Option<u64>)
        ensures
            r == u64_of(field(*self, key@)),
    {
        match self.get(key) {
            Some(v) => v.as_u64(),
            None => None,
        }
    }

    /// The boolean member `key`.
    pub fn bool_field(&self, key: &str) -> (r: Option<bool>)
        ensures
            r == bool_of(field(*self, key@)),
    {
        match self.get(key) {
            Some(v) => v.as_bool(),
            None => None,
        }
    }

    /// The array member `key`.
    pub fn array_field(&self, key: &str) -> (r: Option<&Vec<JsonValue>>)
        ensures
            match r {
                Some(a) => array_of(field(*self, key@)) == Some(a@),
                None => array_of(field(*self, key@)) is None,
            },
    {
        match self.get(key) {
            Some(v) => v.as_array(),
            None => None,
        }
    }
}


/// Whether `v` is an object or null, the values that accept members.
pub open spec fn accepts_members(v: JsonValue) -> bool {
    v is Object || v is Null
}

proof fn lemma_member_index_update(m0: Seq<(String, JsonValue)>, i: int, x: (String, JsonValue), key: Seq<char>)
    requires
        0 <= i < m0.len(),
        m0[i].0@ == key,
        x.0@ == key,
        forall|j: int| 0 <= j < i ==> (#[trigger] m0[j]).0@ != key,
    ensures
        member_index(m0.update(i, x), key) == Some(i),
        forall|k: Seq<char>| k != key ==> #[trigger] member_index(m0.update(i, x), k) == member_index(m0, k),
{
    let m = m0.update(i, x);
    lemma_member_index(m, key, i);
    assert forall|k: Seq<char>| k != key implies #[trigger] member_index(m, k) == member_index(m0, k) by {
        lemma_member_index_props(m0, k);
        lemma_member_index_props(m, k);
        match member_index(m0, k) {
            Some(q) => {
                assert(q != i);
                assert(m[q] == m0[q]);
                assert forall|j: int| 0 <= j < q implies (#[trigger] m[j]).0@ != k by {
                    if j != i {
                        assert(m[j] == m0[j]);
                    }
                }
                lemma_member_index(m, k, q);
            },
            None => {
                if member_index(m, k) is Some {
                    let q = member_index(m, k)->0;
                    if q != i {
                        assert(m[q] == m0[q]);
                    }
                }
            },
        }
    }
}

proof fn lemma_member_index_push(m0: Seq<(String, JsonValue)>, x: (String, JsonValue), key: Seq<char>)
    requires
        x.0@ == key,
        forall|j: int| 0 <= j < m0.len() ==> (#[trigger] m0[j]).0@ != key,
    ensures
        member_index(m0.push(x), key) == Some(m0.len() as int),
        forall|k: Seq<char>| k != key ==> #[trigger] member_index(m0.push(x), k) == member_index(m0, k),
{
    let m = m0.push(x);
    assert forall|j: int| 0 <= j < m0.len() implies (#[trigger] m[j]).0@ != key by {
        assert(m[j] == m0[j]);
    }
    lemma_member_index(m, key, m0.len() as int);
    assert forall|k: Seq<char>| k != key implies #[trigger] member_index(m, k) == member_index(m0, k) by {
        lemma_member_index_props(m0, k);
        lemma_member_index_props(m, k);
        match member_index(m0, k) {
            Some(q) => {
                assert(m[q] == m0[q]);
                assert forall|j: int| 0 <= j < q implies (#[trigger] m[j]).0@ != k by {
                    assert(m[j] == m0[j]);
                }
                lemma_member_index(m, k, q);
            },
            None => {
                if member_index(m, k) is Some {
                    let q = member_index(m, k)->0;
                    if q < m0.len() {
                        assert(m[q] == m0[q]);
                    }
                }
            },
        }
    }
}

fn find_member(m: &Vec<(String, JsonValue)>, key: &str) -> (r: Option<usize>)
    ensures
        match r {
            Some(i) => i < m@.len() && m@[i as int].0@ == key@ && forall|j: int| 0 <= j < i ==> (#[trigger] m@[j]).0@ != key@,
            None => forall|j: int| 0 <= j < m@.len() ==> (#[trigger] m@[j]).0@ != key@,
        },
{
    let mut i: usize = 0;
    while i < m.len()
        invariant
            i <= m@.len(),
            forall|j: int| 0 <= j < i ==> (#[trigger] m@[j]).0@ != key@,
        decreases m.len() - i,
    {
        if same_text(m[i].0.as_str(), key) {
            return Some(i);
        }
        i = i + 1;
    }
    None
}

impl JsonValue {
    /// Sets member `key` (`value[key] = v`): replaces an existing member, else adds
    /// one; null becomes an object first. Other members are unchanged.
    #[verifier::rlimit(40)]
    pub fn set(&mut self, key: &str, v: JsonValue)
        requires
            accepts_members(*old(self)),
        ensures
            *final(self) is Object,
            field(*final(self), key@) == Some(v),
            forall|k: Seq<char>| k != key@ ==> #[trigger] field(*final(self), k) == field(*old(self), k),
    {
        reveal(field);
        let mut taken = JsonValue::Null;
        std::mem::swap(&mut taken, self);
        let mut m: Vec<(String, JsonValue)> = match taken {
            JsonValue::Object(m) => m,
            _ => Vec::new(),
        };
        let ghost m0 = m@;
        let found = find_member(&m, key);
        if let Some(i) = found {
            let name = to_owned_string(key);
            proof {
                lemma_member_index_update(m0, i as int, (name, v), key@);
            }
            m.set(i, (name, v));
        } else {
            let name = to_owned_string(key);
            proof {
                lemma_member_index_push(m0, (name, v), key@);
            }
            m.push((name, v));
        }
        *self = JsonValue::Object(m);
        proof {
            assert(m0 == match *old(self) {
                JsonValue::Object(mm) => mm@,
                _ => Seq::<(String, JsonValue)>::empty(),
            });
            assert forall|k: Seq<char>| k != key@ implies #[trigger] field(*self, k) == field(*old(self), k) by {
                lemma_member_index_props(m0, k);
            }
        }
    }
}

/// A text value.
pub fn text_value(s: &str) -> (r: JsonValue)
    ensures
        text_of(Some(r)) == Some(s@),
{
    JsonValue::Text(to_owned_string(s))
}

/// An empty object.
pub fn empty_object() -> (r: JsonValue)
    ensures
        r is Object,
        forall|k: Seq<char>| #[trigger] field(r, k) is None,
{
    reveal(field);
    let r = JsonValue::Object(Vec::new());
    assert forall|k: Seq<char>| #[trigger] field(r, k) is None by {
        lemma_member_index_props(Seq::<(String, JsonValue)>::empty(), k);
    }
    r
}

/// Whether `v` is the JSON form of an optional text: that text, or null.
pub open spec fn holds_opt_text(v: Option<JsonValue>, t: Option<String>) -> bool {
    match t {
        Some(s) => text_of(v) == Some(s@),
        None => v == Some(JsonValue::Null),
    }
}

/// A text value, or null for `None` (how `json!` writes an `Option<String>`).
pub fn opt_text_value(s: &Option<String>) -> (r: JsonValue)
    ensures
        match s {
            Some(t) => text_of(Some(r)) == Some(t@),
            None => r == JsonValue::Null,
        },
{
    match s {
        Some(t) => text_value(t.as_str()),
        None => JsonValue::Null,
    }
}

/// A non-negative integer value.
pub fn number_value(n: u64) -> (r: JsonValue)
    ensures
        u64_of(Some(r)) == Some(n),
{
    JsonValue::Number(JsonNumber::Unsigned(n))
}

fn take_at(m: &mut Vec<(String, JsonValue)>, i: usize) -> (r: JsonValue)
    requires
        i < old(m)@.len(),
    ensures
        r == old(m)@[i as int].1,
        final(m)@ == old(m)@.update(i as int, (old(m)@[i as int].0, JsonValue::Null)),
{
    let pair = m.remove(i);
    let (name, value) = pair;
    m.insert(i, (name, JsonValue::Null));
    assert(m@ =~= old(m)@.update(i as int, (old(m)@[i as int].0, JsonValue::Null)));
    value
}

proof fn lemma_take_fields(m1: Vec<(String, JsonValue)>, m0: Vec<(String, JsonValue)>, i: int, key: Seq<char>)
    requires
        0 <= i < m0@.len(),
        m0@[i].0@ == key,
        forall|j: int| 0 <= j < i ==> (#[trigger] m0@[j]).0@ != key,
        m1@ == m0@.update(i, (m0@[i].0, JsonValue::Null)),
    ensures
        field(JsonValue::Object(m0), key) == Some(m0@[i].1),
        forall|k: Seq<char>| k != key ==> #[trigger] field(JsonValue::Object(m1), k) == field(JsonValue::Object(m0), k),
{
    reveal(field);
    lemma_member_index(m0@, key, i);
    lemma_member_index_update(m0@, i, (m0@[i].0, JsonValue::Null), key);
    assert forall|k: Seq<char>| k != key implies #[trigger] field(JsonValue::Object(m1), k) == field(JsonValue::Object(m0), k) by {
        lemma_member_index_props(m0@, k);
        assert(member_index(m1@, k) == member_index(m0@, k));
        match member_index(m0@, k) {
            Some(q) => {
                assert(q != i);
                assert(m1@[q] == m0@[q]);
            },
            None => {},
        }
    }
}

proof fn lemma_absent_field(m: Vec<(String, JsonValue)>, key: Seq<char>)
    requires
        forall|j: int| 0 <= j < m@.len() ==> (#[trigger] m@[j]).0@ != key,
    ensures
        field(JsonValue::Object(m), key) is None,
{
    reveal(field);
    lemma_member_index_props(m@, key);
}

impl JsonValue {
    /// Takes out the member `key` (what `value.get(key).cloned()` reads), leaving
    /// null in its place; other members are unchanged.
    pub fn take_member(&mut self, key: &str) -> (r: Option<JsonValue>)
        ensures
            r == field(*old(self), key@),
            forall|k: Seq<char>| k != key@ ==> #[trigger] field(*final(self), k) == field(*old(self), k),
    {
        let mut taken = JsonValue::Null;
        std::mem::swap(&mut taken, self);
        match taken {
            JsonValue::Object(mut m) => {
                match find_member(&m, key) {
                    Some(i) => {
                        let ghost before = m;
                        let value = take_at(&mut m, i);
                        proof {
                            lemma_take_fields(m, before, i as int, key@);
                        }
                        *self = JsonValue::Object(m);
                        Some(value)
                    },
                    None => {
                        proof {
                            lemma_absent_field(m, key@);
                        }
                        *self = JsonValue::Object(m);
                        None
                    },
                }
            },
            other => {
                proof {
                    reveal(field);
                }
                *self = other;
                None
            },
        }
    }
}

} // verus!
