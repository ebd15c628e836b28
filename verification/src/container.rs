//! The container: the list of records that is encrypted and stored as one.
//!
//! No two records of a container have the same identifier: `wf` says so.
//! Every way to make a container establishes it, and every way to change one
//! keeps it.

use crate::error::VaultError;
use crate::json::{lemma_array_view, members_view, Json, JsonValue};
use crate::record::{
    json_record, lemma_record_json_round_trip, record_json, redacted_record, two_factor_secret,
    CredentialRecord, RecordView,
};
use vstd::prelude::*;

verus! {

/// What a list of records stands for.
pub open spec fn records_view(records: Seq<CredentialRecord>) -> Seq<RecordView> {
    Seq::new(records.len(), |i: int| records[i]@)
}

/// Some record has the identifier.
pub open spec fn has_uid(records: Seq<RecordView>, uid: Seq<char>) -> bool {
    exists|i: int| 0 <= i < records.len() && (#[trigger] records[i]).uid == uid
}

/// No two records have the same identifier.
pub open spec fn distinct_uids(records: Seq<RecordView>) -> bool {
    forall|i: int, j: int|
        0 <= i < j < records.len() ==> (#[trigger] records[i]).uid != (#[trigger] records[j]).uid
}

/// The records that do not have the given identifier.
pub open spec fn other_than(uid: Seq<char>) -> spec_fn(RecordView) -> bool {
    |record: RecordView| record.uid != uid
}

/// The records with the kind and the fields of the one that has the given
/// identifier replaced.
pub open spec fn updated(
    records: Seq<RecordView>,
    uid: Seq<char>,
    kind: Seq<char>,
    credential: Seq<(Seq<char>, JsonValue)>,
) -> Seq<RecordView> {
    Seq::new(
        records.len(),
        |i: int|
            if records[i].uid == uid {
                RecordView { uid, kind, credential }
            } else {
                records[i]
            },
    )
}

/// The records without the one that has the given identifier.
pub open spec fn removed(records: Seq<RecordView>, uid: Seq<char>) -> Seq<RecordView> {
    records.filter(other_than(uid))
}

/// The records as a listing shows them.
pub open spec fn redacted_records(records: Seq<RecordView>) -> Seq<RecordView> {
    Seq::new(records.len(), |i: int| redacted_record(records[i]))
}

/// The two-factor secret of the record that has the given identifier.
pub open spec fn secret_of(records: Seq<RecordView>, uid: Seq<char>) -> Result<
    Seq<char>,
    VaultError,
> {
    if !has_uid(records, uid) {
        Err(VaultError::NotFound)
    } else {
        let at = choose|i: int| 0 <= i < records.len() && (#[trigger] records[i]).uid == uid;
        match two_factor_secret(records[at].credential) {
            Some(secret) => Ok(secret),
            None => Err(VaultError::ValidationFailed),
        }
    }
}

/// The JSON array of a list of records.
pub open spec fn records_json(records: Seq<RecordView>) -> JsonValue {
    JsonValue::Array(Seq::new(records.len(), |i: int| record_json(records[i])))
}

/// The container that a JSON value holds: the value is an array, each of its
/// items is a record, and no two of them have the same identifier.
pub open spec fn json_records(value: JsonValue) -> Option<Seq<RecordView>> {
    match value {
        JsonValue::Array(items) => {
            let records = Seq::new(items.len(), |i: int| json_record(items[i])->0);
            if (forall|i: int| 0 <= i < items.len() ==> (#[trigger] json_record(items[i])) is Some)
                && distinct_uids(records) {
                Some(records)
            } else {
                None
            }
        },
        _ => None,
    }
}

/// The length of the longest identifier among the records.
pub open spec fn longest_uid(records: Seq<RecordView>) -> nat
    decreases records.len(),
{
    if records.len() == 0 {
        0
    } else {
        let rest = longest_uid(records.drop_last());
        if records.last().uid.len() > rest {
            records.last().uid.len()
        } else {
            rest
        }
    }
}

/// No identifier among the records is longer than the longest.
pub proof fn lemma_longest_uid(records: Seq<RecordView>, i: int)
    requires
        0 <= i < records.len(),
    ensures
        records[i].uid.len() <= longest_uid(records),
    decreases records.len(),
{
    if i < records.len() - 1 {
        lemma_longest_uid(records.drop_last(), i);
    }
}

/// The identifier that a new record gets for a proposed one: the proposed
/// one, with as many `0` behind it as it takes for no record to have it.
pub open spec fn unused_uid(records: Seq<RecordView>, candidate: Seq<char>) -> Seq<char>
    decreases longest_uid(records) + 1 - candidate.len(),
{
    if has_uid(records, candidate) {
        proof {
            let at = choose|i: int| 0 <= i < records.len() && (#[trigger] records[i]).uid
                == candidate;
            lemma_longest_uid(records, at);
        }
        unused_uid(records, candidate.push('0'))
    } else {
        candidate
    }
}

/// No record has the identifier that a new record gets.
pub proof fn lemma_unused_uid(records: Seq<RecordView>, candidate: Seq<char>)
    ensures
        !has_uid(records, unused_uid(records, candidate)),
        !has_uid(records, candidate) ==> unused_uid(records, candidate) == candidate,
    decreases longest_uid(records) + 1 - candidate.len(),
{
    if has_uid(records, candidate) {
        let at = choose|i: int| 0 <= i < records.len() && (#[trigger] records[i]).uid == candidate;
        lemma_longest_uid(records, at);
        lemma_unused_uid(records, candidate.push('0'));
    }
}

/// Among records with distinct identifiers, taking out the one at a place is
/// taking out the one with its identifier.
pub proof fn lemma_removed_at(records: Seq<RecordView>, at: int)
    requires
        distinct_uids(records),
        0 <= at < records.len(),
    ensures
        removed(records, records[at].uid) == records.remove(at),
    decreases records.len(),
{
    let uid = records[at].uid;
    let keep = other_than(uid);
    let front = records.drop_last();
    assert(records =~= front.push(records.last()));
    front.lemma_filter_push(records.last(), keep);
    if at == records.len() - 1 {
        lemma_removed_absent(front, uid);
        assert(front =~= records.remove(at));
    } else {
        assert(front[at] == records[at]);
        lemma_removed_at(front, at);
        assert(keep(records.last()));
        assert(front.remove(at).push(records.last()) =~= records.remove(at));
    }
}

/// Taking out a record that is not there changes nothing.
pub proof fn lemma_removed_absent(records: Seq<RecordView>, uid: Seq<char>)
    requires
        !has_uid(records, uid),
    ensures
        removed(records, uid) == records,
    decreases records.len(),
{
    let keep = other_than(uid);
    if records.len() == 0 {
        reveal_with_fuel(Seq::filter, 1);
        assert(records.filter(keep) =~= records);
    } else {
        let front = records.drop_last();
        assert(records =~= front.push(records.last()));
        front.lemma_filter_push(records.last(), keep);
        assert forall|i: int| 0 <= i < front.len() implies (#[trigger] front[i]).uid != uid by {
            assert(front[i] == records[i]);
        }
        lemma_removed_absent(front, uid);
        assert(records[records.len() - 1].uid != uid);
    }
}

/// The container is read back from its own JSON array.
pub proof fn lemma_records_json_round_trip(records: Seq<RecordView>)
    requires
        distinct_uids(records),
    ensures
        json_records(records_json(records)) == Some(records),
{
    let items = records_json(records)->Array_0;
    assert forall|i: int| 0 <= i < items.len() implies (#[trigger] json_record(items[i]))
        == Some(records[i]) by {
        lemma_record_json_round_trip(records[i]);
    }
    assert(Seq::new(items.len(), |i: int| json_record(items[i])->0) =~= records);
}

/// A container of credential records.
pub struct Container {
    records: Vec<CredentialRecord>,
}

impl View for Container {
    type V = Seq<RecordView>;

    closed spec fn view(&self) -> Seq<RecordView> {
        records_view(self.records@)
    }
}

impl Container {
    /// No two records have the same identifier.
    pub open spec fn wf(&self) -> bool {
        distinct_uids(self@)
    }

    /// The empty container.
    pub fn new() -> (container: Container)
        ensures
            container@ == Seq::<RecordView>::empty(),
            container.wf(),
    {
        let container = Container { records: Vec::new() };
        assert(container@ =~= Seq::<RecordView>::empty());
        container
    }

    /// The number of records.
    pub fn len(&self) -> (n: usize)
        ensures
            n == self@.len(),
    {
        self.records.len()
    }

    /// The records, secrets and all.
    pub fn records(&self) -> (records: &Vec<CredentialRecord>)
        ensures
            records_view(records@) == self@,
    {
        &self.records
    }

    /// Whether two containers hold the same records in the same order.
    pub fn same(&self, other: &Container) -> (equal: bool)
        ensures
            equal == (self@ == other@),
    {
        if self.records.len() != other.records.len() {
            assert(self@.len() != other@.len());
            return false;
        }
        let mut i: usize = 0;
        while i < self.records.len()
            invariant
                i <= self.records.len(),
                self.records.len() == other.records.len(),
                forall|k: int| 0 <= k < i ==> self@[k] == other@[k],
            decreases self.records.len() - i,
        {
            if !self.records[i].same(&other.records[i]) {
                assert(self@[i as int] != other@[i as int]);
                return false;
            }
            i += 1;
        }
        assert(self@ =~= other@);
        true
    }

    /// The place of the first record that has the identifier.
    pub fn position(&self, uid: &str) -> (place: Option<usize>)
        ensures
            place matches Some(at) ==> {
                &&& at < self@.len()
                &&& self@[at as int].uid == uid@
                &&& forall|k: int| 0 <= k < at ==> self@[k].uid != uid@
            },
            place is Some <==> has_uid(self@, uid@),
    {
        let wanted = String::from_str(uid);
        let mut i: usize = 0;
        while i < self.records.len()
            invariant
                i <= self.records.len(),
                wanted@ == uid@,
                forall|k: int| 0 <= k < i ==> (#[trigger] self@[k]).uid != uid@,
            decreases self.records.len() - i,
        {
            if self.records[i].uid == wanted {
                assert(self@[i as int].uid == uid@);
                return Some(i);
            }
            i += 1;
        }
        None
    }

    /// Reads a container from a JSON value. A value that is no array of
    /// records, or in which an identifier occurs twice, is refused as a whole.
    pub fn from_json(json: &Json) -> (container: Result<Container, VaultError>)
        ensures
            container matches Ok(c) ==> json_records(json@) == Some(c@) && c.wf(),
            container matches Err(e) ==> e == VaultError::Corrupted && json_records(json@) is None,
    {
        match json {
            Json::Array(items) => {
                proof {
                    lemma_array_view(*items);
                }
                let ghost values = json@->Array_0;
                let mut container = Container::new();
                let mut i: usize = 0;
                while i < items.len()
                    invariant
                        i <= items.len(),
                        values == json@->Array_0,
                        values.len() == items@.len(),
                        forall|k: int| 0 <= k < items@.len() ==> values[k] == items@[k]@,
                        container@.len() == i,
                        container.wf(),
                        forall|k: int|
                            0 <= k < i ==> (#[trigger] json_record(values[k])) == Some(
                                container@[k],
                            ),
                    decreases items.len() - i,
                {
                    match CredentialRecord::from_json(&items[i]) {
                        None => {
                            assert(json_record(values[i as int]) is None);
                            return Err(VaultError::Corrupted);
                        },
                        Some(record) => {
                            if container.position(record.uid.as_str()).is_some() {
                                proof {
                                    let held = Seq::new(
                                        values.len(),
                                        |k: int| json_record(values[k])->0,
                                    );
                                    let twin = choose|k: int|
                                        0 <= k < container@.len() && (
                                        #[trigger] container@[k]).uid == record@.uid;
                                    assert(json_record(values[twin]) == Some(container@[twin]));
                                    assert(held[twin].uid == held[i as int].uid);
                                }
                                return Err(VaultError::Corrupted);
                            }
                            container.push_distinct(record);
                        },
                    }
                    i += 1;
                }
                proof {
                    assert(Seq::new(values.len(), |k: int| json_record(values[k])->0)
                        =~= container@);
                }
                Ok(container)
            },
            _ => Err(VaultError::Corrupted),
        }
    }

    /// The JSON array of the container.
    pub fn to_json(&self) -> (json: Json)
        requires
            self.wf(),
        ensures
            json@ == records_json(self@),
            json_records(json@) == Some(self@),
    {
        let mut items: Vec<Json> = Vec::new();
        let mut i: usize = 0;
        while i < self.records.len()
            invariant
                i <= self.records.len(),
                items@.len() == i,
                forall|k: int| 0 <= k < i ==> items@[k]@ == record_json(self@[k]),
            decreases self.records.len() - i,
        {
            let item = self.records[i].to_json();
            items.push(item);
            i += 1;
        }
        proof {
            lemma_array_view(items);
            assert(Json::Array(items)@->Array_0 =~= records_json(self@)->Array_0);
            lemma_records_json_round_trip(self@);
        }
        Json::Array(items)
    }

    /// Puts a record behind the others.
    fn push_distinct(&mut self, record: CredentialRecord)
        requires
            old(self).wf(),
            !has_uid(old(self)@, record@.uid),
        ensures
            final(self)@ == old(self)@.push(record@),
            final(self).wf(),
    {
        let ghost before = self@;
        self.records.push(record);
        proof {
            assert(records_view(self.records@) =~= before.push(record@));
            assert forall|i: int, j: int| 0 <= i < j < before.len() + 1 implies (
            #[trigger] before.push(record@)[i]).uid != (#[trigger] before.push(record@)[j]).uid by {
                if j < before.len() {
                    assert(before[i].uid != before[j].uid);
                } else {
                    assert(before[i].uid != record@.uid);
                }
            }
        }
    }

    /// An identifier that no record has: the proposed one where it is free.
    pub fn unused_uid(&self, candidate: String) -> (uid: String)
        ensures
            uid@ == unused_uid(self@, candidate@),
            !has_uid(self@, uid@),
    {
        let mut uid = candidate;
        proof {
            lemma_unused_uid(self@, candidate@);
        }
        while self.position(uid.as_str()).is_some()
            invariant
                unused_uid(self@, uid@) == unused_uid(self@, candidate@),
            decreases longest_uid(self@) + 1 - uid@.len(),
        {
            proof {
                let at = choose|i: int| 0 <= i < self@.len() && (#[trigger] self@[i]).uid == uid@;
                lemma_longest_uid(self@, at);
                reveal_strlit("0");
                assert(uid@ + "0"@ =~= uid@.push('0'));
            }
            uid.append("0");
        }
        uid
    }

    /// Adds a record of the given kind and fields. Its identifier is the
    /// proposed one, or one made from it where a record has that already.
    pub fn add(
        &mut self,
        candidate: String,
        kind: String,
        credential: Vec<(String, Json)>,
    ) -> (added: CredentialRecord)
        requires
            old(self).wf(),
        ensures
            added@ == (RecordView {
                uid: unused_uid(old(self)@, candidate@),
                kind: kind@,
                credential: members_view(credential@),
            }),
            !has_uid(old(self)@, added@.uid),
            final(self)@ == old(self)@.push(added@),
            final(self).wf(),
    {
        let uid = self.unused_uid(candidate);
        let record = CredentialRecord { uid, kind, credential };
        let added = record.clone();
        self.push_distinct(record);
        added
    }

    /// Gives the record that has the identifier a new kind and new fields.
    pub fn update(&mut self, uid: &str, kind: String, credential: Vec<(String, Json)>) -> (done:
        Result<(), VaultError>)
        requires
            old(self).wf(),
        ensures
            final(self).wf(),
            done is Ok <==> has_uid(old(self)@, uid@),
            done is Ok ==> final(self)@ == updated(
                old(self)@,
                uid@,
                kind@,
                members_view(credential@),
            ),
            done matches Err(e) ==> e == VaultError::NotFound && final(self)@ == old(self)@,
    {
        match self.position(uid) {
            None => Err(VaultError::NotFound),
            Some(at) => {
                let ghost before = self@;
                let record = CredentialRecord { uid: String::from_str(uid), kind, credential };
                let ghost fresh = record@;
                self.records.set(at, record);
                proof {
                    let after = records_view(self.records@);
                    assert forall|i: int| 0 <= i < before.len() implies after[i] == updated(
                        before,
                        uid@,
                        kind@,
                        members_view(credential@),
                    )[i] by {
                        if i != at {
                            assert(before[i].uid != before[at as int].uid);
                        }
                    }
                    assert(after =~= updated(
                        before,
                        uid@,
                        kind@,
                        members_view(credential@),
                    ));
                    assert forall|i: int, j: int| 0 <= i < j < after.len() implies (
                    #[trigger] after[i]).uid != (#[trigger] after[j]).uid by {
                        assert(before[i].uid != before[j].uid);
                    }
                }
                Ok(())
            },
        }
    }

    /// Takes out the record that has the identifier.
    pub fn remove(&mut self, uid: &str) -> (done: Result<(), VaultError>)
        requires
            old(self).wf(),
        ensures
            final(self).wf(),
            done is Ok <==> has_uid(old(self)@, uid@),
            done is Ok ==> final(self)@ == removed(old(self)@, uid@) && final(self)@.len() == old(
                self,
            )@.len() - 1,
            done matches Err(e) ==> e == VaultError::NotFound && final(self)@ == old(self)@,
    {
        match self.position(uid) {
            None => Err(VaultError::NotFound),
            Some(at) => {
                let ghost before = self@;
                let _gone = self.records.remove(at);
                proof {
                    let after = records_view(self.records@);
                    assert(after =~= before.remove(at as int));
                    lemma_removed_at(before, at as int);
                    assert forall|i: int, j: int| 0 <= i < j < after.len() implies (
                    #[trigger] after[i]).uid != (#[trigger] after[j]).uid by {
                        let from_i = if i < at { i } else { i + 1 };
                        let from_j = if j < at { j } else { j + 1 };
                        assert(before[from_i].uid != before[from_j].uid);
                    }
                }
                Ok(())
            },
        }
    }

    /// The records as a listing shows them: each says whether it has a
    /// two-factor secret, none shows the secret.
    pub fn redacted(&self) -> (listing: Vec<CredentialRecord>)
        ensures
            records_view(listing@) == redacted_records(self@),
    {
        let mut listing: Vec<CredentialRecord> = Vec::new();
        let mut i: usize = 0;
        while i < self.records.len()
            invariant
                i <= self.records.len(),
                listing@.len() == i,
                forall|k: int| 0 <= k < i ==> listing@[k]@ == redacted_record(self@[k]),
            decreases self.records.len() - i,
        {
            let shown = self.records[i].redacted();
            listing.push(shown);
            i += 1;
        }
        assert(records_view(listing@) =~= redacted_records(self@));
        listing
    }

    /// A copy of the records, secrets and all.
    pub fn export(&self) -> (copy: Vec<CredentialRecord>)
        ensures
            records_view(copy@) == self@,
    {
        let mut copy: Vec<CredentialRecord> = Vec::new();
        let mut i: usize = 0;
        while i < self.records.len()
            invariant
                i <= self.records.len(),
                copy@.len() == i,
                forall|k: int| 0 <= k < i ==> copy@[k]@ == self@[k],
            decreases self.records.len() - i,
        {
            let record = self.records[i].clone();
            copy.push(record);
            i += 1;
        }
        assert(records_view(copy@) =~= self@);
        copy
    }

    /// The two-factor secret of the record that has the identifier.
    pub fn two_factor_secret(&self, uid: &str) -> (secret: Result<String, VaultError>)
        requires
            self.wf(),
        ensures
            secret matches Ok(s) ==> secret_of(self@, uid@) == Ok::<Seq<char>, VaultError>(s@),
            secret matches Err(e) ==> secret_of(self@, uid@) == Err::<Seq<char>, VaultError>(e),
    {
        match self.position(uid) {
            None => Err(VaultError::NotFound),
            Some(at) => {
                proof {
                    let chosen = choose|i: int|
                        0 <= i < self@.len() && (#[trigger] self@[i]).uid == uid@;
                    if chosen < at {
                        assert(self@[chosen].uid != self@[at as int].uid);
                    } else if at < chosen {
                        assert(self@[at as int].uid != self@[chosen].uid);
                    }
                }
                self.records[at].two_factor_secret()
            },
        }
    }
}

} // verus!
