//! Credential records.
//!
//! In the container's JSON text a record is an object with three members:
//! `uid` and `type`, both strings, and `credential`, an object of fields. A
//! field named `twoFactor` holds the base32 secret of the record's one-time
//! passwords. A record as a listing shows it has a boolean there instead,
//! which says whether a secret is set.

use crate::error::VaultError;
use crate::json::{
    find_member, lemma_lookup_last, lemma_object_view, lookup, members_view, same_members,
    text_is, Json, JsonValue,
};
use vstd::prelude::*;

verus! {

/// One credential.
#[derive(Debug, PartialEq, Eq)]
pub struct CredentialRecord {
    /// What tells the record from every other one in its container.
    pub uid: String,
    /// What sort of credential it is.
    pub kind: String,
    /// The fields of the credential.
    pub credential: Vec<(String, Json)>,
}

/// What a `CredentialRecord` stands for.
pub ghost struct RecordView {
    pub uid: Seq<char>,
    pub kind: Seq<char>,
    pub credential: Seq<(Seq<char>, JsonValue)>,
}

impl View for CredentialRecord {
    type V = RecordView;

    open spec fn view(&self) -> RecordView {
        RecordView {
            uid: self.uid@,
            kind: self.kind@,
            credential: members_view(self.credential@),
        }
    }
}

/// The JSON object of a record.
pub open spec fn record_json(record: RecordView) -> JsonValue {
    JsonValue::Object(
        seq![
            ("uid"@, JsonValue::Text(record.uid)),
            ("type"@, JsonValue::Text(record.kind)),
            ("credential"@, JsonValue::Object(record.credential)),
        ],
    )
}

/// The record that a JSON value holds: the value is an object whose `uid` and
/// `type` are strings and whose `credential` is an object. Other members are
/// passed over.
pub open spec fn json_record(value: JsonValue) -> Option<RecordView> {
    match value {
        JsonValue::Object(members) => match (
            lookup(members, "uid"@),
            lookup(members, "type"@),
            lookup(members, "credential"@),
        ) {
            (
                Some(JsonValue::Text(uid)),
                Some(JsonValue::Text(kind)),
                Some(JsonValue::Object(credential)),
            ) => Some(RecordView { uid, kind, credential }),
            _ => None,
        },
        _ => None,
    }
}

/// The members that do not have the given name.
pub open spec fn not_named(name: Seq<char>) -> spec_fn((Seq<char>, JsonValue)) -> bool {
    |member: (Seq<char>, JsonValue)| member.0 != name
}

/// The two-factor secret among the fields: the `twoFactor` field, where it is
/// a string that is not empty.
pub open spec fn two_factor_secret(fields: Seq<(Seq<char>, JsonValue)>) -> Option<Seq<char>> {
    match lookup(fields, "twoFactor"@) {
        Some(JsonValue::Text(secret)) => if secret.len() > 0 {
            Some(secret)
        } else {
            None
        },
        _ => None,
    }
}

/// The fields as a listing shows them: without any field named `twoFactor`,
/// and behind them one of that name which says whether a secret is set.
pub open spec fn redacted_fields(fields: Seq<(Seq<char>, JsonValue)>) -> Seq<
    (Seq<char>, JsonValue),
> {
    fields.filter(not_named("twoFactor"@)).push(
        ("twoFactor"@, JsonValue::Bool(two_factor_secret(fields) is Some)),
    )
}

/// The record as a listing shows it.
pub open spec fn redacted_record(record: RecordView) -> RecordView {
    RecordView {
        uid: record.uid,
        kind: record.kind,
        credential: redacted_fields(record.credential),
    }
}

/// No field named `twoFactor` holds anything but a boolean.
pub open spec fn shows_no_secret(fields: Seq<(Seq<char>, JsonValue)>) -> bool {
    forall|i: int|
        0 <= i < fields.len() && (#[trigger] fields[i]).0 == "twoFactor"@ ==> fields[i].1 is Bool
}

/// The names of a record's members differ from one another.
pub proof fn lemma_member_names()
    ensures
        "uid"@ != "type"@,
        "uid"@ != "credential"@,
        "type"@ != "credential"@,
{
    reveal_strlit("uid");
    reveal_strlit("type");
    reveal_strlit("credential");
    assert("uid"@.len() == 3);
    assert("type"@.len() == 4);
    assert("credential"@.len() == 10);
}

/// A record is read back from its own JSON object.
pub proof fn lemma_record_json_round_trip(record: RecordView)
    ensures
        json_record(record_json(record)) == Some(record),
{
    lemma_member_names();
    let members = record_json(record)->Object_0;
    lemma_lookup_last(members, "uid"@, 0);
    lemma_lookup_last(members, "type"@, 1);
    lemma_lookup_last(members, "credential"@, 2);
}

/// What a listing shows of a record holds no secret, and its `twoFactor`
/// field says whether the record has one.
pub proof fn lemma_redacted_fields(fields: Seq<(Seq<char>, JsonValue)>)
    ensures
        shows_no_secret(redacted_fields(fields)),
        lookup(redacted_fields(fields), "twoFactor"@) == Some(
            JsonValue::Bool(two_factor_secret(fields) is Some),
        ),
        two_factor_secret(redacted_fields(fields)) is None,
{
    let kept = fields.filter(not_named("twoFactor"@));
    let shown = redacted_fields(fields);
    assert forall|i: int| 0 <= i < shown.len() && (#[trigger] shown[i]).0
        == "twoFactor"@ implies shown[i].1 is Bool by {
        if i < kept.len() {
            fields.lemma_filter_pred(not_named("twoFactor"@), i);
            assert(not_named("twoFactor"@)(kept[i]));
        }
    }
    assert(shown.last().0 == "twoFactor"@);
}

/// Copies a list of members.
pub fn clone_members(members: &Vec<(String, Json)>) -> (copy: Vec<(String, Json)>)
    ensures
        members_view(copy@) == members_view(members@),
{
    let mut copy: Vec<(String, Json)> = Vec::new();
    let mut i: usize = 0;
    while i < members.len()
        invariant
            i <= members.len(),
            copy@.len() == i,
            forall|k: int|
                0 <= k < i ==> copy@[k].0@ == members@[k].0@ && copy@[k].1@ == members@[k].1@,
        decreases members.len() - i,
    {
        let name = members[i].0.clone();
        let value = members[i].1.clone();
        copy.push((name, value));
        i += 1;
    }
    assert(members_view(copy@) =~= members_view(members@));
    copy
}

/// The secret among the fields, if one is set.
pub fn find_two_factor_secret(fields: &Vec<(String, Json)>) -> (secret: Option<String>)
    ensures
        secret matches Some(s) ==> two_factor_secret(members_view(fields@)) == Some(s@),
        secret is None ==> two_factor_secret(members_view(fields@)) is None,
{
    match find_member(fields, "twoFactor") {
        Some(at) => match &fields[at].1 {
            Json::Text(text) => {
                if text.as_str().is_empty() {
                    None
                } else {
                    Some(text.clone())
                }
            },
            _ => None,
        },
        None => None,
    }
}

/// The fields as a listing shows them.
pub fn redact_fields(fields: &Vec<(String, Json)>) -> (shown: Vec<(String, Json)>)
    ensures
        members_view(shown@) == redacted_fields(members_view(fields@)),
{
    let has_secret = find_two_factor_secret(fields).is_some();
    let ghost all = members_view(fields@);
    let ghost keep = not_named("twoFactor"@);
    let mut shown: Vec<(String, Json)> = Vec::new();
    let mut i: usize = 0;
    proof {
        assert(all.take(0) =~= Seq::empty());
        reveal_with_fuel(Seq::filter, 1);
        assert(members_view(shown@) =~= all.take(0).filter(keep));
    }
    while i < fields.len()
        invariant
            i <= fields.len(),
            all == members_view(fields@),
            keep == not_named("twoFactor"@),
            members_view(shown@) == all.take(i as int).filter(keep),
        decreases fields.len() - i,
    {
        let ghost before = members_view(shown@);
        proof {
            assert(all.take(i as int + 1) =~= all.take(i as int).push(all[i as int]));
            all.take(i as int).lemma_filter_push(all[i as int], keep);
        }
        if !text_is(&fields[i].0, "twoFactor") {
            let name = fields[i].0.clone();
            let value = fields[i].1.clone();
            shown.push((name, value));
            proof {
                assert(members_view(shown@) =~= before.push(all[i as int]));
            }
        }
        i += 1;
    }
    proof {
        assert(all.take(fields.len() as int) =~= all);
    }
    let ghost kept = members_view(shown@);
    shown.push((String::from_str("twoFactor"), Json::Bool(has_secret)));
    proof {
        assert(members_view(shown@) =~= kept.push(("twoFactor"@, JsonValue::Bool(has_secret))));
    }
    shown
}

impl Clone for CredentialRecord {
    fn clone(&self) -> (copy: CredentialRecord)
        ensures
            copy@ == self@,
    {
        CredentialRecord {
            uid: self.uid.clone(),
            kind: self.kind.clone(),
            credential: clone_members(&self.credential),
        }
    }
}

impl CredentialRecord {
    /// The JSON object of the record.
    pub fn to_json(&self) -> (json: Json)
        ensures
            json@ == record_json(self@),
    {
        let fields = clone_members(&self.credential);
        let mut members: Vec<(String, Json)> = Vec::new();
        members.push((String::from_str("uid"), Json::Text(self.uid.clone())));
        members.push((String::from_str("type"), Json::Text(self.kind.clone())));
        proof {
            lemma_object_view(fields);
        }
        members.push((String::from_str("credential"), Json::Object(fields)));
        proof {
            lemma_object_view(members);
            assert(members_view(members@) =~= record_json(self@)->Object_0);
        }
        Json::Object(members)
    }

    /// Reads a record from a JSON value; `None` where the value is no record.
    pub fn from_json(json: &Json) -> (record: Option<CredentialRecord>)
        ensures
            record matches Some(r) ==> json_record(json@) == Some(r@),
            record is None ==> json_record(json@) is None,
    {
        match json {
            Json::Object(members) => {
                proof {
                    lemma_object_view(*members);
                }
                let uid = match find_member(members, "uid") {
                    Some(at) => match &members[at].1 {
                        Json::Text(text) => text.clone(),
                        _ => {
                            return None;
                        },
                    },
                    None => {
                        return None;
                    },
                };
                let kind = match find_member(members, "type") {
                    Some(at) => match &members[at].1 {
                        Json::Text(text) => text.clone(),
                        _ => {
                            return None;
                        },
                    },
                    None => {
                        return None;
                    },
                };
                let credential = match find_member(members, "credential") {
                    Some(at) => match &members[at].1 {
                        Json::Object(fields) => {
                            proof {
                                lemma_object_view(*fields);
                            }
                            clone_members(fields)
                        },
                        _ => {
                            return None;
                        },
                    },
                    None => {
                        return None;
                    },
                };
                Some(CredentialRecord { uid, kind, credential })
            },
            _ => None,
        }
    }

    /// Whether two records stand for the same, fields in the same order.
    pub fn same(&self, other: &CredentialRecord) -> (equal: bool)
        ensures
            equal == (self@ == other@),
    {
        self.uid == other.uid && self.kind == other.kind && same_members(
            &self.credential,
            &other.credential,
        )
    }

    /// The record as a listing shows it: whether a two-factor secret is set,
    /// and never the secret.
    pub fn redacted(&self) -> (shown: CredentialRecord)
        ensures
            shown@ == redacted_record(self@),
    {
        CredentialRecord {
            uid: self.uid.clone(),
            kind: self.kind.clone(),
            credential: redact_fields(&self.credential),
        }
    }

    /// The record's two-factor secret.
    pub fn two_factor_secret(&self) -> (secret: Result<String, VaultError>)
        ensures
            secret matches Ok(s) ==> two_factor_secret(self@.credential) == Some(s@),
            secret matches Err(e) ==> e == VaultError::ValidationFailed && two_factor_secret(
                self@.credential,
            ) is None,
    {
        match find_two_factor_secret(&self.credential) {
            Some(s) => Ok(s),
            None => Err(VaultError::ValidationFailed),
        }
    }
}

} // verus!
