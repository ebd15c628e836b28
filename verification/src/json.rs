//! JSON values, as the vault holds them in memory.
//!
//! Reading and writing JSON text is `serde_json`'s work. What it reads is
//! turned into a `Json`, a tree of plain values; the vault's rules are stated
//! and proved over the view of that tree.

use serde_json::Value;
use vstd::prelude::*;

verus! {

/// A JSON value.
///
/// A number is held as the text that stands for it in JSON. An object is held
/// as the list of its members; where a name occurs more than once, the last
/// member of that name counts.
#[derive(Debug, PartialEq, Eq)]
pub enum Json {
    Null,
    Bool(bool),
    Number(String),
    Text(String),
    Array(Vec<Json>),
    Object(Vec<(String, Json)>),
}

/// The value that a `Json` stands for.
pub ghost enum JsonValue {
    Null,
    Bool(bool),
    Number(Seq<char>),
    Text(Seq<char>),
    Array(Seq<JsonValue>),
    Object(Seq<(Seq<char>, JsonValue)>),
}

/// What a `Json` stands for.
pub open spec fn json_value(json: Json) -> JsonValue
    decreases json,
{
    match json {
        Json::Null => JsonValue::Null,
        Json::Bool(b) => JsonValue::Bool(b),
        Json::Number(n) => JsonValue::Number(n@),
        Json::Text(s) => JsonValue::Text(s@),
        Json::Array(items) => JsonValue::Array(
            Seq::new(
                items@.len(),
                |i: int|
                    if 0 <= i < items@.len() {
                        json_value(items@[i])
                    } else {
                        JsonValue::Null
                    },
            ),
        ),
        Json::Object(members) => JsonValue::Object(
            Seq::new(
                members@.len(),
                |i: int|
                    if 0 <= i < members@.len() {
                        (members@[i].0@, json_value(members@[i].1))
                    } else {
                        (Seq::empty(), JsonValue::Null)
                    },
            ),
        ),
    }
}

impl View for Json {
    type V = JsonValue;

    open spec fn view(&self) -> JsonValue {
        json_value(*self)
    }
}

/// What a list of values stands for.
pub open spec fn items_view(items: Seq<Json>) -> Seq<JsonValue> {
    Seq::new(items.len(), |i: int| items[i]@)
}

/// What a list of members stands for.
pub open spec fn members_view(members: Seq<(String, Json)>) -> Seq<(Seq<char>, JsonValue)> {
    Seq::new(members.len(), |i: int| (members[i].0@, members[i].1@))
}

/// The value of the last member of the given name, if there is one.
pub open spec fn lookup(members: Seq<(Seq<char>, JsonValue)>, name: Seq<char>) -> Option<
    JsonValue,
>
    decreases members.len(),
{
    if members.len() == 0 {
        None
    } else if members.last().0 == name {
        Some(members.last().1)
    } else {
        lookup(members.drop_last(), name)
    }
}

/// The value that `serde_json::from_str` reads from a text, if it reads one.
pub uninterp spec fn json_from_text(text: Seq<char>) -> Option<JsonValue>;

/// The text that `serde_json` writes for a value, in the compact form. A
/// number whose text is no JSON number is written as `null`.
pub uninterp spec fn json_to_text(value: JsonValue) -> Seq<char>;

/// What `serde_json` reads back from the text that it writes for a value.
pub open spec fn written_and_read(value: JsonValue) -> Option<JsonValue> {
    json_from_text(json_to_text(value))
}

/// The fields of an object as `serde_json` reads them back from the text that
/// it writes for the object; `None` where it does not read an object back.
pub open spec fn settled_fields(fields: Seq<(Seq<char>, JsonValue)>) -> Option<
    Seq<(Seq<char>, JsonValue)>,
> {
    match written_and_read(JsonValue::Object(fields)) {
        Some(JsonValue::Object(settled)) => Some(settled),
        _ => None,
    }
}

/// An array stands for the values of its items.
pub proof fn lemma_array_view(items: Vec<Json>)
    ensures
        Json::Array(items)@ == JsonValue::Array(items_view(items@)),
{
    assert(Json::Array(items)@->Array_0 =~= items_view(items@));
}

/// An object stands for the names and values of its members.
pub proof fn lemma_object_view(members: Vec<(String, Json)>)
    ensures
        Json::Object(members)@ == JsonValue::Object(members_view(members@)),
{
    assert(Json::Object(members)@->Object_0 =~= members_view(members@));
}

/// A name that no member has is not found.
pub proof fn lemma_lookup_absent(members: Seq<(Seq<char>, JsonValue)>, name: Seq<char>)
    requires
        forall|i: int| 0 <= i < members.len() ==> members[i].0 != name,
    ensures
        lookup(members, name) is None,
    decreases members.len(),
{
    if members.len() > 0 {
        lemma_lookup_absent(members.drop_last(), name);
    }
}

/// The last member of a name is the one that is found.
pub proof fn lemma_lookup_last(members: Seq<(Seq<char>, JsonValue)>, name: Seq<char>, at: int)
    requires
        0 <= at < members.len(),
        members[at].0 == name,
        forall|i: int| at < i < members.len() ==> members[i].0 != name,
    ensures
        lookup(members, name) == Some(members[at].1),
    decreases members.len(),
{
    if at < members.len() - 1 {
        lemma_lookup_last(members.drop_last(), name, at);
    }
}

impl Clone for Json {
    #[verifier::loop_isolation(false)]
    fn clone(&self) -> (copy: Json)
        ensures
            copy@ == self@,
        decreases self,
    {
        match self {
            Json::Null => Json::Null,
            Json::Bool(b) => Json::Bool(*b),
            Json::Number(n) => Json::Number(n.clone()),
            Json::Text(s) => Json::Text(s.clone()),
            Json::Array(items) => {
                let mut out: Vec<Json> = Vec::new();
                let mut i: usize = 0;
                while i < items.len()
                    invariant
                        i <= items.len(),
                        out@.len() == i,
                        forall|k: int| 0 <= k < i ==> out@[k]@ == items@[k]@,
                    decreases items.len() - i,
                {
                    proof {
                        vstd::std_specs::vec::axiom_vec_index_decreases(*items, i as int);
                    }
                    let item = items[i].clone();
                    out.push(item);
                    i += 1;
                }
                let copy = Json::Array(out);
                assert(copy@->Array_0 =~= self@->Array_0);
                copy
            },
            Json::Object(members) => {
                let mut out: Vec<(String, Json)> = Vec::new();
                let mut i: usize = 0;
                while i < members.len()
                    invariant
                        i <= members.len(),
                        out@.len() == i,
                        forall|k: int|
                            0 <= k < i ==> out@[k].0@ == members@[k].0@ && out@[k].1@
                                == members@[k].1@,
                    decreases members.len() - i,
                {
                    proof {
                        vstd::std_specs::vec::axiom_vec_index_decreases(*members, i as int);
                    }
                    let name = members[i].0.clone();
                    let value = members[i].1.clone();
                    out.push((name, value));
                    i += 1;
                }
                let copy = Json::Object(out);
                assert(copy@->Object_0 =~= self@->Object_0);
                copy
            },
        }
    }
}

impl Json {
    /// Whether two values stand for the same, members in the same order.
    #[verifier::loop_isolation(false)]
    pub fn same(&self, other: &Json) -> (equal: bool)
        ensures
            equal == (self@ == other@),
        decreases self,
    {
        match (self, other) {
            (Json::Null, Json::Null) => true,
            (Json::Bool(a), Json::Bool(b)) => *a == *b,
            (Json::Number(a), Json::Number(b)) => *a == *b,
            (Json::Text(a), Json::Text(b)) => *a == *b,
            (Json::Array(a), Json::Array(b)) => {
                proof {
                    lemma_array_view(*a);
                    lemma_array_view(*b);
                }
                if a.len() != b.len() {
                    assert(items_view(a@).len() != items_view(b@).len());
                    return false;
                }
                let mut i: usize = 0;
                while i < a.len()
                    invariant
                        i <= a.len(),
                        a.len() == b.len(),
                        forall|k: int| 0 <= k < i ==> a@[k]@ == b@[k]@,
                    decreases a.len() - i,
                {
                    proof {
                        vstd::std_specs::vec::axiom_vec_index_decreases(*a, i as int);
                    }
                    if !a[i].same(&b[i]) {
                        assert(items_view(a@)[i as int] != items_view(b@)[i as int]);
                        return false;
                    }
                    i += 1;
                }
                assert(items_view(a@) =~= items_view(b@));
                true
            },
            (Json::Object(a), Json::Object(b)) => {
                proof {
                    lemma_object_view(*a);
                    lemma_object_view(*b);
                }
                if a.len() != b.len() {
                    assert(members_view(a@).len() != members_view(b@).len());
                    return false;
                }
                let mut i: usize = 0;
                while i < a.len()
                    invariant
                        i <= a.len(),
                        a.len() == b.len(),
                        forall|k: int|
                            0 <= k < i ==> a@[k].0@ == b@[k].0@ && a@[k].1@ == b@[k].1@,
                    decreases a.len() - i,
                {
                    proof {
                        vstd::std_specs::vec::axiom_vec_index_decreases(*a, i as int);
                    }
                    if !(a[i].0 == b[i].0) || !a[i].1.same(&b[i].1) {
                        assert(members_view(a@)[i as int] != members_view(b@)[i as int]);
                        return false;
                    }
                    i += 1;
                }
                assert(members_view(a@) =~= members_view(b@));
                true
            },
            _ => false,
        }
    }
}

/// Whether two lists of members stand for the same.
pub fn same_members(a: &Vec<(String, Json)>, b: &Vec<(String, Json)>) -> (equal: bool)
    ensures
        equal == (members_view(a@) == members_view(b@)),
{
    if a.len() != b.len() {
        assert(members_view(a@).len() != members_view(b@).len());
        return false;
    }
    let mut i: usize = 0;
    while i < a.len()
        invariant
            i <= a.len(),
            a.len() == b.len(),
            forall|k: int| 0 <= k < i ==> a@[k].0@ == b@[k].0@ && a@[k].1@ == b@[k].1@,
        decreases a.len() - i,
    {
        if !(a[i].0 == b[i].0) || !a[i].1.same(&b[i].1) {
            assert(members_view(a@)[i as int] != members_view(b@)[i as int]);
            return false;
        }
        i += 1;
    }
    assert(members_view(a@) =~= members_view(b@));
    true
}

/// `serde_json::Value`, the tree that `serde_json` reads and writes.
#[verifier::external_type_specification]
#[verifier::external_body]
pub struct ExValue(Value);

/// Turns a `serde_json::Value` into a `Json`, variant by variant. A number
/// becomes the text that `serde_json::Number`'s `to_string` gives for it.
#[verifier::external_body]
fn json_of_value(value: Value) -> Json {
    match value {
        Value::Null => Json::Null,
        Value::Bool(b) => Json::Bool(b),
        Value::Number(n) => Json::Number(n.to_string()),
        Value::String(s) => Json::Text(s),
        Value::Array(a) => Json::Array(a.into_iter().map(json_of_value).collect()),
        Value::Object(m) => Json::Object(
            m.into_iter().map(|(k, v)| (k, json_of_value(v))).collect(),
        ),
    }
}

/// Turns a `Json` into a `serde_json::Value`, variant by variant. A number is
/// read by `serde_json::from_str` as a `serde_json::Number`; a text that is no
/// number becomes `null`.
#[verifier::external_body]
fn value_of_json(json: &Json) -> Value {
    match json {
        Json::Null => Value::Null,
        Json::Bool(b) => Value::Bool(*b),
        Json::Number(n) => serde_json::from_str(n).map_or(Value::Null, Value::Number),
        Json::Text(s) => Value::String(s.clone()),
        Json::Array(a) => Value::Array(a.iter().map(value_of_json).collect()),
        Json::Object(m) => Value::Object(
            m.iter().map(|(k, v)| (k.clone(), value_of_json(v))).collect(),
        ),
    }
}

/// `serde_json::from_str`, read as a `serde_json::Value` and turned into a
/// `Json`: the value that the text holds, or nothing where the text is not
/// JSON.
#[verifier::external_body]
pub(crate) fn decode_json(text: &str) -> (json: Option<Json>)
    ensures
        json matches Some(j) ==> json_from_text(text@) == Some(j@),
        json is None ==> json_from_text(text@) is None,
{
    serde_json::from_str::<Value>(text).ok().map(json_of_value)
}

/// `to_string` of `serde_json::Value`, on the value that the `Json` turns
/// into: its JSON text, in the compact form.
#[verifier::external_body]
pub(crate) fn encode_json(json: &Json) -> (text: String)
    ensures
        text@ == json_to_text(json@),
{
    value_of_json(json).to_string()
}

/// Writes the fields as the text of an object and reads them back: the
/// fields as any later reading of a stored container gives them.
pub fn settle_fields(fields: Vec<(String, Json)>) -> (settled: Option<Vec<(String, Json)>>)
    ensures
        settled matches Some(f) ==> settled_fields(members_view(fields@)) == Some(
            members_view(f@),
        ),
        settled is None ==> settled_fields(members_view(fields@)) is None,
{
    proof {
        lemma_object_view(fields);
    }
    let object = Json::Object(fields);
    let mut text = encode_json(&object);
    let read = decode_json(text.as_str());
    crate::sensitive::wipe_text(&mut text);
    match read {
        Some(Json::Object(settled)) => {
            proof {
                lemma_object_view(settled);
            }
            Some(settled)
        },
        _ => None,
    }
}

/// Whether a text is the given one.
pub fn text_is(text: &String, wanted: &str) -> (same: bool)
    ensures
        same == (text@ == wanted@),
{
    let other = String::from_str(wanted);
    *text == other
}

/// Finds the last member of the given name.
pub fn find_member(members: &Vec<(String, Json)>, name: &str) -> (found: Option<usize>)
    ensures
        found matches Some(at) ==> {
            &&& at < members.len()
            &&& members@[at as int].0@ == name@
            &&& forall|k: int| at < k < members.len() ==> members@[k].0@ != name@
            &&& lookup(members_view(members@), name@) == Some(members@[at as int].1@)
        },
        found is None ==> {
            &&& forall|k: int| 0 <= k < members.len() ==> members@[k].0@ != name@
            &&& lookup(members_view(members@), name@) is None
        },
{
    let wanted = String::from_str(name);
    let ghost all = members_view(members@);
    let mut i: usize = members.len();
    while i > 0
        invariant
            i <= members.len(),
            all == members_view(members@),
            wanted@ == name@,
            forall|k: int| i <= k < members.len() ==> members@[k].0@ != name@,
        decreases i,
    {
        if members[i - 1].0 == wanted {
            proof {
                assert forall|k: int| i - 1 < k < all.len() implies all[k].0 != name@ by {
                    assert(all[k].0 == members@[k].0@);
                }
                lemma_lookup_last(all, name@, i - 1);
            }
            return Some(i - 1);
        }
        i -= 1;
    }
    proof {
        assert forall|k: int| 0 <= k < all.len() implies all[k].0 != name@ by {
            assert(all[k].0 == members@[k].0@);
        }
        lemma_lookup_absent(all, name@);
    }
    None
}

} // verus!
