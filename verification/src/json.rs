//! JSON values as the library reads them: tool arguments and tool results.
//! The application converts `serde_json::Value` to and from this type.

use vstd::prelude::*;
use crate::text::str_eq;

verus! {

/// A JSON number: a non-negative integer, a negative integer, or any other
/// number, kept as its decimal text.
#[derive(Debug, Clone, PartialEq)]
pub enum JsonNumber {
    PosInt(u64),
    NegInt(i64),
    Float(String),
}

/// A JSON value. Object members keep their order; keys are unique.
#[derive(Debug, PartialEq)]
pub enum JsonValue {
    Null,
    Bool(bool),
    Number(JsonNumber),
    String(String),
    Array(Vec<JsonValue>),
    Object(Vec<(String, JsonValue)>),
}

/// The index of the first member named `key`, or the number of members.
pub open spec fn member_index(members: Seq<(String, JsonValue)>, key: Seq<char>) -> nat
    decreases members.len(),
{
    if members.len() == 0 {
        0
    } else if members[0].0@ == key {
        0
    } else {
        1 + member_index(members.drop_first(), key)
    }
}

proof fn lemma_member_index(members: Seq<(String, JsonValue)>, key: Seq<char>)
    ensures
        member_index(members, key) <= members.len(),
        member_index(members, key) < members.len() ==> members[member_index(
            members,
            key,
        ) as int].0@ == key,
        forall|i: int| 0 <= i < member_index(members, key) ==> members[i].0@ != key,
    decreases members.len(),
{
    if members.len() > 0 && members[0].0@ != key {
        lemma_member_index(members.drop_first(), key);
        assert forall|i: int| 0 <= i < member_index(members, key) implies members[i].0@ != key by {
            if i > 0 {
                assert(members[i] == members.drop_first()[i - 1]);
            }
        }
    }
}

impl JsonValue {
    /// The member named `key` of an object; `None` for a missing key or a value
    /// that is not an object (`serde_json::Value::get`).
    pub open spec fn spec_get(self, key: Seq<char>) -> Option<JsonValue> {
        match self {
            JsonValue::Object(members) => {
                let i = member_index(members@, key);
                if i < members@.len() {
                    Some(members@[i as int].1)
                } else {
                    None
                }
            },
            _ => None,
        }
    }

    /// The text of a string value.
    pub open spec fn spec_as_str(self) -> Option<Seq<char>> {
        match self {
            JsonValue::String(s) => Some(s@),
            _ => None,
        }
    }

    /// A number that is a non-negative integer.
    pub open spec fn spec_as_u64(self) -> Option<u64> {
        match self {
            JsonValue::Number(JsonNumber::PosInt(n)) => Some(n),
            _ => None,
        }
    }

    /// A number that is an integer representable as `i64`.
    pub open spec fn spec_as_i64(self) -> Option<i64> {
        match self {
            JsonValue::Number(JsonNumber::PosInt(n)) => if n <= i64::MAX {
                Some(n as i64)
            } else {
                None
            },
            JsonValue::Number(JsonNumber::NegInt(n)) => Some(n),
            _ => None,
        }
    }

    /// The member named `key` of an object (`serde_json::Value::get`).
    pub fn get(&self, key: &str) -> (r: Option<&JsonValue>)
        ensures
            match r {
                Some(v) => self.spec_get(key@) == Some(*v),
                None => self.spec_get(key@) is None,
            },
    {
        match self {
            JsonValue::Object(members) => {
                let n = members.len();
                let mut i: usize = 0;
                proof {
                    assert(members@.skip(0) =~= members@);
                    lemma_member_index(members@, key@);
                }
                while i < n && !str_eq(members[i].0.as_str(), key)
                    invariant
                        n == members@.len(),
                        i <= n,
                        member_index(members@, key@) == i + member_index(
                            members@.skip(i as int),
                            key@,
                        ),
                    decreases n - i,
                {
                    proof {
                        assert(members@.skip(i as int).drop_first() =~= members@.skip(i + 1));
                    }
                    i = i + 1;
                }
                if i < n {
                    Some(&members[i].1)
                } else {
                    None
                }
            },
            _ => None,
        }
    }

    /// The text of a string value (`serde_json::Value::as_str`).
    pub fn as_str(&self) -> (r: Option<&str>)
        ensures
            match r {
                Some(s) => self.spec_as_str() == Some(s@),
                None => self.spec_as_str() is None,
            },
    {
        match self {
            JsonValue::String(s) => Some(s.as_str()),
            _ => None,
        }
    }

    /// A non-negative integer number (`serde_json::Value::as_u64`).
    pub fn as_u64(&self) -> (r: Option<u64>)
        ensures
            r == self.spec_as_u64(),
    {
        match self {
            JsonValue::Number(JsonNumber::PosInt(n)) => Some(*n),
            _ => None,
        }
    }

    /// An integer number that fits `i64` (`serde_json::Value::as_i64`).
    pub fn as_i64(&self) -> (r: Option<i64>)
        ensures
            r == self.spec_as_i64(),
    {
        match self {
            JsonValue::Number(JsonNumber::PosInt(n)) => if *n <= i64::MAX as u64 {
                Some(*n as i64)
            } else {
                None
            },
            JsonValue::Number(JsonNumber::NegInt(n)) => Some(*n),
            _ => None,
        }
    }
}


/// The mathematical form of a JSON value.
pub enum JsonSpec {
    Null,
    Bool(bool),
    Number(JsonNumber),
    Str(Seq<char>),
    Array(Seq<JsonSpec>),
    Object(Seq<(Seq<char>, JsonSpec)>),
}

/// The mathematical form of a JSON value.
pub open spec fn json_view(v: JsonValue) -> JsonSpec
    decreases v, 0nat,
{
    match v {
        JsonValue::Null => JsonSpec::Null,
        JsonValue::Bool(b) => JsonSpec::Bool(b),
        JsonValue::Number(n) => JsonSpec::Number(n),
        JsonValue::String(s) => JsonSpec::Str(s@),
        JsonValue::Array(items) => JsonSpec::Array(json_view_seq(items@)),
        JsonValue::Object(members) => JsonSpec::Object(json_view_members(members@)),
    }
}

/// The mathematical forms of a sequence of JSON values.
pub open spec fn json_view_seq(items: Seq<JsonValue>) -> Seq<JsonSpec>
    decreases items, 1nat,
{
    if items.len() == 0 {
        Seq::empty()
    } else {
        json_view_seq(items.drop_last()).push(json_view(items.last()))
    }
}

/// The mathematical forms of object members.
pub open spec fn json_view_members(members: Seq<(String, JsonValue)>) -> Seq<(Seq<char>, JsonSpec)>
    decreases members, 1nat,
{
    if members.len() == 0 {
        Seq::empty()
    } else {
        json_view_members(members.drop_last()).push(
            (members.last().0@, json_view(members.last().1)),
        )
    }
}

impl JsonNumber {
    /// A copy of this number.
    pub fn duplicate(&self) -> (r: JsonNumber)
        ensures
            r == *self,
    {
        match self {
            JsonNumber::PosInt(n) => JsonNumber::PosInt(*n),
            JsonNumber::NegInt(n) => JsonNumber::NegInt(*n),
            JsonNumber::Float(t) => JsonNumber::Float(t.clone()),
        }
    }
}

impl JsonValue {
    /// A deep copy of this value.
    pub fn duplicate(&self) -> (r: JsonValue)
        ensures
            json_view(r) == json_view(*self),
        decreases self,
    {
        match self {
            JsonValue::Null => JsonValue::Null,
            JsonValue::Bool(b) => JsonValue::Bool(*b),
            JsonValue::Number(n) => JsonValue::Number(n.duplicate()),
            JsonValue::String(s) => JsonValue::String(s.clone()),
            JsonValue::Array(items) => {
                let mut out: Vec<JsonValue> = Vec::new();
                let n = items.len();
                let mut i: usize = 0;
                proof {
                    broadcast use vstd::std_specs::vec::axiom_vec_index_decreases;
                    assert forall|j: int| 0 <= j < n implies decreases_to!(*self => #[trigger] items@[j]) by {
                        assert(decreases_to!(*items => items@[j]));
                    }
                    assert(items@.take(0) =~= Seq::<JsonValue>::empty());
                }
                while i < n
                    invariant
                        n == items@.len(),
                        i <= n,
                        out@.len() == i,
                        json_view_seq(out@) == json_view_seq(items@.take(i as int)),
                        forall|j: int| 0 <= j < n ==> decreases_to!(*self => #[trigger] items@[j]),
                    decreases n - i,
                {
                    let item = items[i].duplicate();
                    let ghost before = out@;
                    out.push(item);
                    proof {
                        assert(out@.drop_last() =~= before);
                        assert(items@.take(i + 1).drop_last() =~= items@.take(i as int));
                    }
                    i = i + 1;
                }
                proof {
                    assert(items@.take(n as int) =~= items@);
                }
                JsonValue::Array(out)
            },
            JsonValue::Object(members) => {
                let mut out: Vec<(String, JsonValue)> = Vec::new();
                let n = members.len();
                let mut i: usize = 0;
                proof {
                    broadcast use vstd::std_specs::vec::axiom_vec_index_decreases;
                    assert forall|j: int| 0 <= j < n implies decreases_to!(*self => #[trigger] members@[j]) by {
                        assert(decreases_to!(*members => members@[j]));
                    }
                    assert(members@.take(0) =~= Seq::<(String, JsonValue)>::empty());
                }
                while i < n
                    invariant
                        n == members@.len(),
                        i <= n,
                        out@.len() == i,
                        json_view_members(out@) == json_view_members(members@.take(i as int)),
                        forall|j: int| 0 <= j < n ==> decreases_to!(*self => #[trigger] members@[j]),
                    decreases n - i,
                {
                    let value = members[i].1.duplicate();
                    let key = members[i].0.clone();
                    let ghost before = out@;
                    out.push((key, value));
                    proof {
                        assert(out@.drop_last() =~= before);
                        assert(members@.take(i + 1).drop_last() =~= members@.take(i as int));
                    }
                    i = i + 1;
                }
                proof {
                    assert(members@.take(n as int) =~= members@);
                }
                JsonValue::Object(out)
            },
        }
    }
}

/// The members of an object in their mathematical form, one for one.
pub proof fn lemma_json_view_members(members: Seq<(String, JsonValue)>)
    ensures
        json_view_members(members).len() == members.len(),
        forall|i: int|
            0 <= i < members.len() ==> #[trigger] json_view_members(members)[i] == (
                members[i].0@,
                json_view(members[i].1),
            ),
    decreases members.len(),
{
    if members.len() > 0 {
        lemma_json_view_members(members.drop_last());
    }
}

/// The index of the first member named `key`, or the number of members.
pub open spec fn spec_member_index(members: Seq<(Seq<char>, JsonSpec)>, key: Seq<char>) -> nat
    decreases members.len(),
{
    if members.len() == 0 {
        0
    } else if members[0].0 == key {
        0
    } else {
        1 + spec_member_index(members.drop_first(), key)
    }
}

proof fn lemma_member_index_view(members: Seq<(String, JsonValue)>, key: Seq<char>)
    ensures
        spec_member_index(json_view_members(members), key) == member_index(members, key),
    decreases members.len(),
{
    lemma_json_view_members(members);
    if members.len() > 0 && members[0].0@ != key {
        lemma_json_view_members(members.drop_first());
        assert(json_view_members(members).drop_first() =~= json_view_members(members.drop_first()));
        lemma_member_index_view(members.drop_first(), key);
    }
}

/// `v` with the member `key` set to `value`: replaced where it is, added
/// at the end where it is not. A value that is not an object is unchanged
/// (`serde_json::Map::insert` on `as_object_mut`).
pub open spec fn json_insert(v: JsonSpec, key: Seq<char>, value: JsonSpec) -> JsonSpec {
    match v {
        JsonSpec::Object(m) => {
            let i = spec_member_index(m, key);
            if i < m.len() {
                JsonSpec::Object(m.update(i as int, (key, value)))
            } else {
                JsonSpec::Object(m.push((key, value)))
            }
        },
        _ => v,
    }
}

/// Whether `v` is the object `{"error": message}`.
pub open spec fn is_error_object(v: JsonSpec, message: Seq<char>) -> bool {
    v == JsonSpec::Object(seq![("error"@, JsonSpec::Str(message))])
}

impl JsonValue {
    /// Sets the member `key` of an object to `value`; other values are left as they are.
    pub fn insert_member(&mut self, key: &str, value: JsonValue)
        ensures
            json_view(*final(self)) == json_insert(json_view(*old(self)), key@, json_view(value)),
    {
        if let JsonValue::Object(members) = self {
            let n = members.len();
            let mut i: usize = 0;
            proof {
                assert(members@.skip(0) =~= members@);
                lemma_member_index(members@, key@);
                lemma_member_index_view(members@, key@);
                lemma_json_view_members(members@);
            }
            while i < n && !str_eq(members[i].0.as_str(), key)
                invariant
                    n == members@.len(),
                    i <= n,
                    member_index(members@, key@) == i + member_index(members@.skip(i as int), key@),
                decreases n - i,
            {
                proof {
                    assert(members@.skip(i as int).drop_first() =~= members@.skip(i + 1));
                }
                i = i + 1;
            }
            let ghost before = members@;
            let ghost value_view = json_view(value);
            if i < n {
                members.set(i, (key.to_owned(), value));
                proof {
                    lemma_json_view_members(members@);
                    assert(json_view_members(members@) =~= json_view_members(before).update(
                        i as int,
                        (key@, value_view),
                    ));
                }
            } else {
                members.push((key.to_owned(), value));
                proof {
                    assert(members@.drop_last() =~= before);
                }
            }
        }
    }
}

/// The object `{"error": message}`.
pub fn error_object(message: String) -> (r: JsonValue)
    ensures
        is_error_object(json_view(r), message@),
{
    let ghost text = message@;
    let key = String::from_str("error");
    let mut members: Vec<(String, JsonValue)> = Vec::new();
    members.push((key, JsonValue::String(message)));
    proof {
        assert(members@.drop_last() =~= Seq::<(String, JsonValue)>::empty());
        assert(json_view_members(Seq::<(String, JsonValue)>::empty()) == Seq::<
            (Seq<char>, JsonSpec),
        >::empty());
        assert(members@.last().0@ == "error"@);
        assert(json_view(members@.last().1) == JsonSpec::Str(text));
        assert(json_view_members(members@) =~= seq![
            ("error"@, JsonSpec::Str(message@)),
        ]);
    }
    JsonValue::Object(members)
}

proof fn lemma_json_view_members_push(members: Seq<(String, JsonValue)>, member: (String, JsonValue))
    ensures
        json_view_members(members.push(member)) == json_view_members(members).push(
            (member.0@, json_view(member.1)),
        ),
{
    assert(members.push(member).drop_last() =~= members);
}

/// A string value.
pub fn json_string(text: &str) -> (r: JsonValue)
    ensures
        json_view(r) == JsonSpec::Str(text@),
{
    JsonValue::String(text.to_owned())
}

/// The members of an object under construction.
pub struct JsonMembers {
    members: Vec<(String, JsonValue)>,
}

impl JsonMembers {
    /// The members so far, in their mathematical form.
    pub closed spec fn view_members(&self) -> Seq<(Seq<char>, JsonSpec)> {
        json_view_members(self.members@)
    }

    /// No members yet.
    pub fn new() -> (r: JsonMembers)
        ensures
            r.view_members() == Seq::<(Seq<char>, JsonSpec)>::empty(),
    {
        JsonMembers { members: Vec::new() }
    }

    /// Adds the member `key` with `value` at the end.
    pub fn with(self, key: &str, value: JsonValue) -> (r: JsonMembers)
        ensures
            r.view_members() == self.view_members().push((key@, json_view(value))),
    {
        let mut members = self.members;
        let ghost before = members@;
        let member = (key.to_owned(), value);
        proof {
            lemma_json_view_members_push(before, member);
        }
        members.push(member);
        JsonMembers { members }
    }

    /// The object with these members.
    pub fn build(self) -> (r: JsonValue)
        ensures
            json_view(r) == JsonSpec::Object(self.view_members()),
    {
        JsonValue::Object(self.members)
    }
}

/// An array of strings.
pub fn json_string_array(items: &[&str]) -> (r: JsonValue)
    ensures
        json_view(r) == JsonSpec::Array(
            Seq::new(items@.len(), |i: int| JsonSpec::Str(items@[i]@)),
        ),
{
    let mut out: Vec<JsonValue> = Vec::new();
    let n = items.len();
    let mut i: usize = 0;
    while i < n
        invariant
            n == items@.len(),
            i <= n,
            out@.len() == i,
            json_view_seq(out@) == Seq::new(i as nat, |k: int| JsonSpec::Str(items@[k]@)),
        decreases n - i,
    {
        let ghost before = out@;
        let text = items[i].to_owned();
        let item = JsonValue::String(text);
        assert(json_view(item) == JsonSpec::Str(items@[i as int]@));
        out.push(item);
        proof {
            assert(out@.drop_last() =~= before);
            assert(json_view_seq(out@) == json_view_seq(before).push(JsonSpec::Str(items@[i as int]@)));
            assert(json_view_seq(out@) =~= Seq::new((i + 1) as nat, |k: int| JsonSpec::Str(items@[k]@)));
        }
        i = i + 1;
    }
    JsonValue::Array(out)
}

/// The schema of one parameter: its JSON type and description.
pub open spec fn param_spec(kind: Seq<char>, description: Seq<char>) -> JsonSpec {
    JsonSpec::Object(seq![("type"@, JsonSpec::Str(kind)), ("description"@, JsonSpec::Str(description))])
}

/// The schema of one parameter.
pub fn param(kind: &str, description: &str) -> (r: JsonValue)
    ensures
        json_view(r) == param_spec(kind@, description@),
{
    let r = JsonMembers::new().with("type", json_string(kind)).with("description", json_string(description)).build();
    proof {
        assert(Seq::<(Seq<char>, JsonSpec)>::empty().push(("type"@, JsonSpec::Str(kind@))).push(
            ("description"@, JsonSpec::Str(description@)),
        ) =~= seq![("type"@, JsonSpec::Str(kind@)), ("description"@, JsonSpec::Str(description@))]);
    }
    r
}

/// The schema of a tool's parameters: an object with these properties, of
/// which `required` must be given.
pub open spec fn object_schema_spec(
    properties: Seq<(Seq<char>, JsonSpec)>,
    required: Seq<Seq<char>>,
) -> JsonSpec {
    JsonSpec::Object(
        seq![
            ("type"@, JsonSpec::Str("object"@)),
            ("properties"@, JsonSpec::Object(properties)),
            ("required"@, JsonSpec::Array(Seq::new(required.len(), |i: int| JsonSpec::Str(required[i])))),
        ],
    )
}

/// The schema of a tool's parameters.
pub fn object_schema(properties: JsonMembers, required: &[&str]) -> (r: JsonValue)
    ensures
        json_view(r) == object_schema_spec(
            properties.view_members(),
            Seq::new(required@.len(), |i: int| required@[i]@),
        ),
{
    let props = properties.build();
    let req = json_string_array(required);
    let r = JsonMembers::new().with("type", json_string("object")).with("properties", props).with(
        "required",
        req,
    ).build();
    proof {
        let names = Seq::new(required@.len(), |i: int| required@[i]@);
        let items = Seq::new(required@.len(), |i: int| JsonSpec::Str(required@[i]@));
        assert(items =~= Seq::new(names.len(), |i: int| JsonSpec::Str(names[i])));
        assert(Seq::<(Seq<char>, JsonSpec)>::empty().push(("type"@, JsonSpec::Str("object"@))).push(
            ("properties"@, JsonSpec::Object(properties.view_members())),
        ).push(("required"@, JsonSpec::Array(items))) =~= seq![
            ("type"@, JsonSpec::Str("object"@)),
            ("properties"@, JsonSpec::Object(properties.view_members())),
            ("required"@, JsonSpec::Array(items)),
        ]);
    }
    r
}

} // verus!
