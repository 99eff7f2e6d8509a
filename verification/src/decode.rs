//! Reading a request and a history out of JSON text.

use vstd::prelude::*;
use serde_json::Value;
use crate::body::{
    JsonModel, PolicyError, double_bits_of, elements_of, is_object, json_document, json_model,
    member, member_names, names_of, parse_document, read_required_integer, read_required_text,
    required_integer, required_text, text_of,
};
use crate::model::{
    EntryView, Header, HistoryEntry, HistoryMap, HistoryView, Request, RequestView, Timestamp,
    entries_view,
};

verus! {

/// A number member that an object must have, as the bits of a double.
pub open spec fn required_bits(members: Map<Seq<char>, JsonModel>, name: Seq<char>) -> Result<
    u64,
    PolicyError,
> {
    if members.contains_key(name) && members[name] is Number {
        Ok(members[name]->Number_0.double_bits)
    } else {
        Err(PolicyError::Parse)
    }
}

/// The history entry that a JSON value spells: an object with strings `api`
/// and `method`, a `counter` that is an integer from zero up, and a number
/// `timestamp`.
pub open spec fn entry_of_model(value: JsonModel) -> Result<EntryView, PolicyError> {
    match value {
        JsonModel::Object(members) => {
            let api = required_text(members, "api"@);
            let method = required_text(members, "method"@);
            let counter = required_integer(members, "counter"@);
            let timestamp = required_bits(members, "timestamp"@);
            if api is Ok && method is Ok && counter is Ok && counter->Ok_0 >= 0 && timestamp is Ok {
                Ok(
                    EntryView {
                        api: api->Ok_0,
                        method: method->Ok_0,
                        counter: counter->Ok_0 as nat,
                        timestamp: Timestamp { bits: timestamp->Ok_0 },
                    },
                )
            } else {
                Err(PolicyError::Parse)
            }
        },
        _ => Err(PolicyError::Parse),
    }
}

/// The entries that a JSON value spells: an array of entries, in order.
pub open spec fn entries_of_model(value: JsonModel) -> Result<Seq<EntryView>, PolicyError> {
    match value {
        JsonModel::Array(items) => if forall|i: int|
            0 <= i < items.len() ==> (#[trigger] entry_of_model(items[i])) is Ok {
            Ok(Seq::new(items.len(), |i: int| entry_of_model(items[i])->Ok_0))
        } else {
            Err(PolicyError::Parse)
        },
        _ => Err(PolicyError::Parse),
    }
}

/// The history that a JSON document spells: an object whose every member is
/// an array of entries, each member a bucket under its name.
pub open spec fn history_of_model(document: JsonModel) -> Result<HistoryView, PolicyError> {
    match document {
        JsonModel::Object(members) => if forall|key: Seq<char>| #[trigger]
            members.contains_key(key) ==> entries_of_model(members[key]) is Ok {
            Ok(
                Map::new(
                    |key: Seq<char>| members.contains_key(key),
                    |key: Seq<char>| entries_of_model(members[key])->Ok_0,
                ),
            )
        } else {
            Err(PolicyError::Parse)
        },
        _ => Err(PolicyError::Parse),
    }
}

/// The history that a text spells.
pub open spec fn history_of_text(text: Seq<char>) -> Result<HistoryView, PolicyError> {
    match json_document(text) {
        Some(document) => history_of_model(document),
        None => Err(PolicyError::Parse),
    }
}

/// Whether a JSON value is an object of strings only.
pub open spec fn is_text_object(value: JsonModel) -> bool {
    value matches JsonModel::Object(members) && forall|name: Seq<char>| #[trigger]
        members.contains_key(name) ==> members[name] is Text
}

/// Whether `headers` holds each member of the object `value` once, name and
/// text.
pub open spec fn headers_spell(headers: Seq<Header>, value: JsonModel) -> bool {
    &&& value is Object
    &&& forall|i: int, j: int| 0 <= i < j < headers.len() ==> headers[i].name@ != headers[j].name@
    &&& forall|i: int|
        0 <= i < headers.len() ==> value->Object_0.contains_key((#[trigger] headers[i]).name@)
            && value->Object_0[headers[i].name@] == JsonModel::Text(headers[i].value@)
    &&& forall|name: Seq<char>| #[trigger]
        value->Object_0.contains_key(name) ==> exists|i: int|
            0 <= i < headers.len() && (#[trigger] headers[i]).name@ == name
}

/// The request that a JSON document spells, but for its headers: an object
/// with strings `method`, `uri`, `path` and `body`, a number `time` and an
/// object `headers` of strings.
pub open spec fn request_of_model(document: JsonModel) -> Result<RequestView, PolicyError> {
    match document {
        JsonModel::Object(members) => {
            let method = required_text(members, "method"@);
            let uri = required_text(members, "uri"@);
            let path = required_text(members, "path"@);
            let body = required_text(members, "body"@);
            let time = required_bits(members, "time"@);
            if method is Ok && uri is Ok && path is Ok && body is Ok && time is Ok
                && members.contains_key("headers"@) && is_text_object(members["headers"@]) {
                Ok(
                    RequestView {
                        method: method->Ok_0,
                        uri: uri->Ok_0,
                        path: path->Ok_0,
                        body: body->Ok_0,
                        time: Timestamp { bits: time->Ok_0 },
                    },
                )
            } else {
                Err(PolicyError::Parse)
            }
        },
        _ => Err(PolicyError::Parse),
    }
}

/// The request that a text spells, but for its headers.
pub open spec fn request_of_text(text: Seq<char>) -> Result<RequestView, PolicyError> {
    match json_document(text) {
        Some(document) => request_of_model(document),
        None => Err(PolicyError::Parse),
    }
}

/// The headers member of the document that a text spells.
pub open spec fn headers_of_text(text: Seq<char>) -> JsonModel
    recommends
        request_of_text(text) is Ok,
{
    json_document(text)->Some_0->Object_0["headers"@]
}

/// Reads a number member that the object `object` must have.
fn read_required_bits(object: &Value, name: &str) -> (r: Result<u64, PolicyError>)
    requires
        json_model(*object) is Object,
    ensures
        r == required_bits(json_model(*object)->Object_0, name@),
{
    match member(object, name) {
        None => Err(PolicyError::Parse),
        Some(value) => match double_bits_of(value) {
            Some(bits) => Ok(bits),
            None => Err(PolicyError::Parse),
        },
    }
}

/// Reads one history entry.
fn read_entry(value: &Value) -> (r: Result<HistoryEntry, PolicyError>)
    ensures
        (match r {
            Ok(entry) => Ok::<EntryView, PolicyError>(entry@),
            Err(e) => Err(e),
        }) == entry_of_model(json_model(*value)),
{
    if !is_object(value) {
        return Err(PolicyError::Parse);
    }
    let api = read_required_text(value, "api");
    let method = read_required_text(value, "method");
    let counter = read_required_integer(value, "counter");
    let timestamp = read_required_bits(value, "timestamp");
    match (api, method, counter, timestamp) {
        (Ok(api), Ok(method), Ok(counter), Ok(bits)) => {
            if counter >= 0 {
                Ok(
                    HistoryEntry {
                        api,
                        method,
                        counter: counter as u64,
                        timestamp: Timestamp { bits },
                    },
                )
            } else {
                Err(PolicyError::Parse)
            }
        },
        _ => Err(PolicyError::Parse),
    }
}

/// Reads the entries of one bucket.
fn read_entries(value: &Value) -> (r: Result<Vec<HistoryEntry>, PolicyError>)
    ensures
        (match r {
            Ok(entries) => Ok::<Seq<EntryView>, PolicyError>(entries_view(entries@)),
            Err(e) => Err(e),
        }) == entries_of_model(json_model(*value)),
{
    let items = match elements_of(value) {
        Some(items) => items,
        None => { return Err(PolicyError::Parse); },
    };
    let ghost models = json_model(*value)->Array_0;
    let mut out: Vec<HistoryEntry> = Vec::new();
    let mut i: usize = 0;
    while i < items.len()
        invariant
            0 <= i <= items@.len(),
            json_model(*value) == JsonModel::Array(models),
            items@.len() == models.len(),
            forall|j: int| 0 <= j < models.len() ==> json_model(#[trigger] items@[j]) == models[j],
            out@.len() == i,
            forall|j: int| 0 <= j < i ==> (#[trigger] entry_of_model(models[j])) is Ok,
            forall|j: int| 0 <= j < i ==> (#[trigger] out@[j])@ == entry_of_model(models[j])->Ok_0,
        decreases items@.len() - i,
    {
        match read_entry(&items[i]) {
            Ok(entry) => {
                out.push(entry);
            },
            Err(_) => {
                assert(!(entry_of_model(models[i as int]) is Ok));
                return Err(PolicyError::Parse);
            },
        }
        i = i + 1;
    }
    assert(entries_view(out@) =~= entries_of_model(json_model(*value))->Ok_0);
    Ok(out)
}

/// Reads a history out of JSON text: an object that holds, under each
/// capability's key, the array of that capability's entries. Anything else
/// is a parse error.
pub fn decode_history(text: &str) -> (r: Result<HistoryMap, PolicyError>)
    ensures
        (match r {
            Ok(history) => history.wf() && history_of_text(text@) == Ok::<HistoryView, PolicyError>(
                history@,
            ),
            Err(e) => history_of_text(text@) == Err::<HistoryView, PolicyError>(e),
        }),
{
    let document = match parse_document(text) {
        Some(document) => document,
        None => { return Err(PolicyError::Parse); },
    };
    if !is_object(&document) {
        return Err(PolicyError::Parse);
    }
    let ghost members = json_model(document)->Object_0;
    let names = member_names(&document);
    let mut out = HistoryMap::new();
    let mut i: usize = 0;
    while i < names.len()
        invariant
            0 <= i <= names@.len(),
            json_document(text@) == Some(json_model(document)),
            json_model(document) == JsonModel::Object(members),
            names_of(names@, members),
            out.wf(),
            out.buckets().len() == i,
            forall|j: int| 0 <= j < i ==> (#[trigger] out.buckets()[j]).key@ == names@[j]@,
            forall|j: int| 0 <= j < i ==> entries_of_model(members[(#[trigger] names@[j])@]) is Ok,
            forall|j: int|
                0 <= j < i ==> entries_view((#[trigger] out.buckets()[j]).entries@)
                    == entries_of_model(members[names@[j]@])->Ok_0,
        decreases names@.len() - i,
    {
        let name = &names[i];
        let value = match member(&document, name.as_str()) {
            Some(value) => value,
            None => { return Err(PolicyError::Parse); },
        };
        let entries = match read_entries(value) {
            Ok(entries) => entries,
            Err(_) => {
                assert(members.contains_key(name@));
                return Err(PolicyError::Parse);
            },
        };
        proof {
            if out.has_key(name@) {
                let j = out.position(name@);
                assert(names@[j]@ != names@[i as int]@);
            }
        }
        out.append(name.clone(), entries);
        i = i + 1;
    }
    proof {
        assert forall|key: Seq<char>| #[trigger] members.contains_key(key) implies entries_of_model(
            members[key],
        ) is Ok by {
            let j = choose|j: int| 0 <= j < names@.len() && (#[trigger] names@[j])@ == key;
            assert(entries_of_model(members[names@[j]@]) is Ok);
        }
        let target = history_of_model(json_model(document))->Ok_0;
        assert forall|key: Seq<char>| out@.dom().contains(key) <==> target.dom().contains(key) by {
            if out.has_key(key) {
                let p = out.position(key);
                assert(members.contains_key(names@[p]@));
            }
            if members.contains_key(key) {
                let j = choose|j: int| 0 <= j < names@.len() && (#[trigger] names@[j])@ == key;
                assert(out.buckets()[j].key@ == key);
            }
        }
        assert forall|key: Seq<char>| out@.dom().contains(key) implies out@[key] == target[key] by {
            let p = out.position(key);
            out.lemma_view_at(p);
        }
        assert(out@ =~= target);
    }
    Ok(out)
}

/// Reads the headers of a request: every member of the object, which must be
/// a string.
fn read_headers(value: &Value) -> (r: Result<Vec<Header>, PolicyError>)
    ensures
        r is Ok == is_text_object(json_model(*value)),
        r matches Ok(headers) ==> headers_spell(headers@, json_model(*value)),
        r matches Err(e) ==> e == PolicyError::Parse,
{
    if !is_object(value) {
        return Err(PolicyError::Parse);
    }
    let ghost members = json_model(*value)->Object_0;
    let names = member_names(value);
    let mut out: Vec<Header> = Vec::new();
    let mut i: usize = 0;
    while i < names.len()
        invariant
            0 <= i <= names@.len(),
            json_model(*value) == JsonModel::Object(members),
            names_of(names@, members),
            out@.len() == i,
            forall|j: int| 0 <= j < i ==> (#[trigger] out@[j]).name@ == names@[j]@,
            forall|j: int|
                0 <= j < i ==> members[names@[j]@] == JsonModel::Text((#[trigger] out@[j]).value@),
        decreases names@.len() - i,
    {
        let name = &names[i];
        assert(members.contains_key(name@));
        let text = match member(value, name.as_str()) {
            Some(found) => text_of(found),
            None => None,
        };
        match text {
            Some(text) => {
                out.push(Header { name: name.clone(), value: text.to_owned() });
            },
            None => {
                return Err(PolicyError::Parse);
            },
        }
        i = i + 1;
    }
    proof {
        assert forall|name: Seq<char>| #[trigger] members.contains_key(name) implies members[name] is Text
            && exists|k: int| 0 <= k < out@.len() && (#[trigger] out@[k]).name@ == name by {
            let j = choose|j: int| 0 <= j < names@.len() && (#[trigger] names@[j])@ == name;
            assert(out@[j].name@ == name);
        }
    }
    Ok(out)
}

/// Reads a request out of JSON text: an object with the strings `method`,
/// `uri`, `path` and `body`, the number `time` and the object `headers`,
/// whose members are strings. Anything else is a parse error.
pub fn decode(text: &str) -> (r: Result<Request, PolicyError>)
    ensures
        (match r {
            Ok(request) => request_of_text(text@) == Ok::<RequestView, PolicyError>(request@)
                && headers_spell(request.headers@, headers_of_text(text@)),
            Err(e) => request_of_text(text@) == Err::<RequestView, PolicyError>(e),
        }),
{
    let document = match parse_document(text) {
        Some(document) => document,
        None => { return Err(PolicyError::Parse); },
    };
    if !is_object(&document) {
        return Err(PolicyError::Parse);
    }
    let method = read_required_text(&document, "method");
    let uri = read_required_text(&document, "uri");
    let path = read_required_text(&document, "path");
    let body = read_required_text(&document, "body");
    let time = read_required_bits(&document, "time");
    let headers = match member(&document, "headers") {
        Some(value) => read_headers(value),
        None => Err(PolicyError::Parse),
    };
    match (method, uri, path, body, time, headers) {
        (Ok(method), Ok(uri), Ok(path), Ok(body), Ok(bits), Ok(headers)) => Ok(
            Request { method, uri, path, body, headers, time: Timestamp { bits } },
        ),
        _ => Err(PolicyError::Parse),
    }
}

} // verus!
