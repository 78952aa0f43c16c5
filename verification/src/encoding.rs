//! JSON values written as text by serde_json, and the nesting depth that
//! bounds the recursion of that writing.

use vstd::prelude::*;
use crate::json::{json_view, json_view_members, json_view_seq, JsonNumber, JsonSpec, JsonValue};
use serde_json::Value;

verus! {

/// How deeply a JSON value nests: 0 for a scalar, one more than its deepest
/// item or member for an array or an object.
pub open spec fn json_depth(v: JsonSpec) -> nat
    decreases v, 0nat,
{
    match v {
        JsonSpec::Array(items) => 1 + items_depth(items),
        JsonSpec::Object(members) => 1 + members_depth(members),
        _ => 0,
    }
}

/// The depth of the deepest item, or 0.
pub open spec fn items_depth(items: Seq<JsonSpec>) -> nat
    decreases items, 1nat,
{
    if items.len() == 0 {
        0
    } else {
        let a = items_depth(items.drop_last());
        let b = json_depth(items.last());
        if a >= b {
            a
        } else {
            b
        }
    }
}

/// The depth of the deepest member value, or 0.
pub open spec fn members_depth(members: Seq<(Seq<char>, JsonSpec)>) -> nat
    decreases members, 1nat,
{
    if members.len() == 0 {
        0
    } else {
        let a = members_depth(members.drop_last());
        let b = json_depth(members.last().1);
        if a >= b {
            a
        } else {
            b
        }
    }
}

/// The deepest nesting written as text: serde_json and the conversion to
/// its values recurse once per level.
pub const MAX_JSON_DEPTH: usize = 512;

/// Whether a value nests at most `limit` deep.
pub fn within_depth(v: &JsonValue, limit: usize) -> (r: bool)
    ensures
        r == (json_depth(json_view(*v)) <= limit),
    decreases v,
{
    match v {
        JsonValue::Array(items) => {
            if limit == 0 {
                return false;
            }
            let n = items.len();
            let mut i: usize = 0;
            proof {
                broadcast use vstd::std_specs::vec::axiom_vec_index_decreases;
                assert forall|j: int| 0 <= j < n implies decreases_to!(*v => #[trigger] items@[j]) by {
                    assert(decreases_to!(*items => items@[j]));
                }
                assert(items@.take(0) =~= Seq::<JsonValue>::empty());
            }
            while i < n
                invariant
                    n == items@.len(),
                    i <= n,
                    limit > 0,
                    items_depth(json_view_seq(items@.take(i as int))) <= limit - 1,
                    forall|j: int| 0 <= j < n ==> decreases_to!(*v => #[trigger] items@[j]),
                ensures
                    i < n ==> items_depth(json_view_seq(items@.take(i + 1))) > limit - 1,
                    i == n ==> items_depth(json_view_seq(items@.take(i as int))) <= limit - 1,
                decreases n - i,
            {
                proof {
                    assert(items@.take(i + 1).drop_last() =~= items@.take(i as int));
                    assert(json_view_seq(items@.take(i + 1)).drop_last() =~= json_view_seq(
                        items@.take(i as int),
                    ));
                }
                if !within_depth(&items[i], limit - 1) {
                    break;
                }
                i = i + 1;
            }
            proof {
                assert(items@.take(n as int) =~= items@);
                if i < n {
                    lemma_view_seq_len(items@);
                    lemma_items_depth_prefix(json_view_seq(items@), (i + 1) as nat);
                    assert(json_view_seq(items@.take(i + 1)) =~= json_view_seq(items@).take(i + 1))
                        by {
                        lemma_view_seq_take(items@, i + 1);
                    }
                }
            }
            i == n
        },
        JsonValue::Object(members) => {
            if limit == 0 {
                return false;
            }
            let n = members.len();
            let mut i: usize = 0;
            proof {
                broadcast use vstd::std_specs::vec::axiom_vec_index_decreases;
                assert forall|j: int| 0 <= j < n implies decreases_to!(*v => #[trigger] members@[j]) by {
                    assert(decreases_to!(*members => members@[j]));
                }
                assert(members@.take(0) =~= Seq::<(String, JsonValue)>::empty());
            }
            while i < n
                invariant
                    n == members@.len(),
                    i <= n,
                    limit > 0,
                    members_depth(json_view_members(members@.take(i as int))) <= limit - 1,
                    forall|j: int| 0 <= j < n ==> decreases_to!(*v => #[trigger] members@[j]),
                ensures
                    i < n ==> members_depth(json_view_members(members@.take(i + 1))) > limit - 1,
                    i == n ==> members_depth(json_view_members(members@.take(i as int))) <= limit
                        - 1,
                decreases n - i,
            {
                proof {
                    assert(members@.take(i + 1).drop_last() =~= members@.take(i as int));
                    assert(json_view_members(members@.take(i + 1)).drop_last() =~= json_view_members(
                        members@.take(i as int),
                    ));
                }
                if !within_depth(&members[i].1, limit - 1) {
                    break;
                }
                i = i + 1;
            }
            proof {
                assert(members@.take(n as int) =~= members@);
                if i < n {
                    crate::json::lemma_json_view_members(members@);
                    lemma_members_depth_prefix(json_view_members(members@), (i + 1) as nat);
                    assert(json_view_members(members@.take(i + 1)) =~= json_view_members(
                        members@,
                    ).take(i + 1)) by {
                        lemma_view_members_take(members@, i + 1);
                    }
                }
            }
            i == n
        },
        _ => true,
    }
}

/// A prefix nests no deeper than the whole.
proof fn lemma_items_depth_prefix(items: Seq<JsonSpec>, k: nat)
    requires
        k <= items.len(),
    ensures
        items_depth(items.take(k as int)) <= items_depth(items),
    decreases items.len(),
{
    if k < items.len() {
        assert(items.drop_last().take(k as int) =~= items.take(k as int));
        lemma_items_depth_prefix(items.drop_last(), k);
    } else {
        assert(items.take(k as int) =~= items);
    }
}

proof fn lemma_members_depth_prefix(members: Seq<(Seq<char>, JsonSpec)>, k: nat)
    requires
        k <= members.len(),
    ensures
        members_depth(members.take(k as int)) <= members_depth(members),
    decreases members.len(),
{
    if k < members.len() {
        assert(members.drop_last().take(k as int) =~= members.take(k as int));
        lemma_members_depth_prefix(members.drop_last(), k);
    } else {
        assert(members.take(k as int) =~= members);
    }
}

proof fn lemma_view_seq_take(items: Seq<JsonValue>, k: int)
    requires
        0 <= k <= items.len(),
    ensures
        json_view_seq(items.take(k)) == json_view_seq(items).take(k),
    decreases items.len(),
{
    if k < items.len() {
        assert(items.drop_last().take(k) =~= items.take(k));
        lemma_view_seq_take(items.drop_last(), k);
        lemma_view_seq_len(items);
        assert(json_view_seq(items).drop_last() =~= json_view_seq(items.drop_last()));
        assert(json_view_seq(items).drop_last().take(k) =~= json_view_seq(items).take(k));
    } else {
        assert(items.take(k) =~= items);
        lemma_view_seq_len(items);
        assert(json_view_seq(items).take(k) =~= json_view_seq(items));
    }
}

proof fn lemma_view_seq_len(items: Seq<JsonValue>)
    ensures
        json_view_seq(items).len() == items.len(),
    decreases items.len(),
{
    if items.len() > 0 {
        lemma_view_seq_len(items.drop_last());
    }
}

proof fn lemma_view_members_take(members: Seq<(String, JsonValue)>, k: int)
    requires
        0 <= k <= members.len(),
    ensures
        json_view_members(members.take(k)) == json_view_members(members).take(k),
    decreases members.len(),
{
    if k < members.len() {
        assert(members.drop_last().take(k) =~= members.take(k));
        lemma_view_members_take(members.drop_last(), k);
        crate::json::lemma_json_view_members(members);
        assert(json_view_members(members).drop_last() =~= json_view_members(members.drop_last()));
        assert(json_view_members(members).drop_last().take(k) =~= json_view_members(members).take(
            k,
        ));
    } else {
        assert(members.take(k) =~= members);
        crate::json::lemma_json_view_members(members);
        assert(json_view_members(members).take(k) =~= json_view_members(members));
    }
}


/// The forms of a sequence of values, one for one.
pub proof fn lemma_view_seq(items: Seq<JsonValue>)
    ensures
        json_view_seq(items).len() == items.len(),
        forall|i: int| 0 <= i < items.len() ==> #[trigger] json_view_seq(items)[i] == json_view(items[i]),
    decreases items.len(),
{
    if items.len() > 0 {
        lemma_view_seq(items.drop_last());
        assert forall|i: int| 0 <= i < items.len() implies #[trigger] json_view_seq(items)[i] == json_view(items[i]) by {
            if i < items.len() - 1 {
                assert(items.drop_last()[i] == items[i]);
            }
        }
    }
}

/// `serde_json::Value`, carried through opaque.
#[verifier::external_type_specification]
#[verifier::external_body]
pub struct ExSerdeValue(Value);

/// A library number as a `serde_json::Value`; a float's text is read back
/// as a number (`serde_json::from_str`), which fails when the text is not a
/// number. Nothing is claimed of it: the wrappers below, which make the
/// encoding call, state the outcome.
#[verifier::external_body]
fn serde_number(n: &JsonNumber) -> (r: Result<Value, String>) {
    match n {
        JsonNumber::PosInt(u) => Ok(Value::from(*u)),
        JsonNumber::NegInt(i) => Ok(Value::from(*i)),
        JsonNumber::Float(t) => serde_json::from_str(t).map(Value::Number).map_err(|error| error.to_string()),
    }
}

/// Converts a library value to a `serde_json::Value`, variant for variant,
/// recursing once per level; it is called only by the wrappers below, whose
/// `requires` bound the depth and whose contracts state the outcome.
#[verifier::external_body]
fn serde_value(v: &JsonValue) -> (r: Result<Value, String>) {
    Ok(match v {
        JsonValue::Null => Value::Null,
        JsonValue::Bool(b) => Value::Bool(*b),
        JsonValue::Number(n) => serde_number(n)?,
        JsonValue::String(s) => Value::String(s.clone()),
        JsonValue::Array(a) => Value::Array(a.iter().map(serde_value).collect::<Result<_, _>>()?),
        JsonValue::Object(m) => Value::Object(
            m.iter().map(|(k, x)| Ok((k.clone(), serde_value(x)?))).collect::<Result<_, String>>()?,
        ),
    })
}

/// What `serde_json::to_string` writes for a JSON value (object members in
/// key order, the last of equal keys kept), or the error text when a
/// float's text is not a number.
pub uninterp spec fn json_text(v: JsonSpec) -> Result<Seq<char>, Seq<char>>;

/// What `serde_json::to_vec` writes for a JSON value, as bytes, or the error
/// text when a float's text is not a number.
pub uninterp spec fn json_bytes(v: JsonSpec) -> Result<Seq<u8>, Seq<char>>;

/// `serde_json::to_string` on the value: the contract claims the outcome
/// named `json_text` for the value.
#[verifier::external_body]
pub(crate) fn encode_json(v: &JsonValue) -> (r: Result<String, String>)
    requires
        json_depth(json_view(*v)) <= MAX_JSON_DEPTH,
    ensures
        match r {
            Ok(t) => json_text(json_view(*v)) == Ok::<Seq<char>, Seq<char>>(t@),
            Err(e) => json_text(json_view(*v)) == Err::<Seq<char>, Seq<char>>(e@),
        },
{
    serde_value(v).and_then(|value| serde_json::to_string(&value).map_err(|error| error.to_string()))
}

/// `serde_json::to_vec` on the value: the contract claims the outcome named
/// `json_bytes` for the value.
#[verifier::external_body]
pub(crate) fn encode_json_bytes(v: &JsonValue) -> (r: Result<Vec<u8>, String>)
    requires
        json_depth(json_view(*v)) <= MAX_JSON_DEPTH,
    ensures
        match r {
            Ok(b) => json_bytes(json_view(*v)) == Ok::<Seq<u8>, Seq<char>>(b@),
            Err(e) => json_bytes(json_view(*v)) == Err::<Seq<u8>, Seq<char>>(e@),
        },
{
    serde_value(v).and_then(|value| serde_json::to_vec(&value).map_err(|error| error.to_string()))
}

} // verus!
