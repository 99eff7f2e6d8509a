//! Typed views over a request's payload.

use vstd::prelude::*;
use serde_json::Value;

verus! {

/// `serde_json::Value`, a parsed JSON value. Nothing of its inside is
/// visible here; what it holds is read through the functions below.
#[verifier::external_type_specification]
#[verifier::external_body]
pub struct ExValue(serde_json::Value);

/// A JSON number as mathematics.
pub struct NumberModel {
    /// Its value where it is an integer, nothing where it is not.
    pub integer: Option<int>,
    /// The bit pattern of the IEEE-754 double that stands for it.
    pub double_bits: u64,
}

/// A JSON value as mathematics.
pub enum JsonModel {
    Null,
    Bool(bool),
    Number(NumberModel),
    Text(Seq<char>),
    Array(Seq<JsonModel>),
    Object(Map<Seq<char>, JsonModel>),
}

/// What a parsed JSON value holds.
pub uninterp spec fn json_model(value: Value) -> JsonModel;

/// What `serde_json` reads out of `text`: the document, or nothing where the
/// text is not one JSON value.
pub uninterp spec fn json_document(text: Seq<char>) -> Option<JsonModel>;

/// Whether a number is an integer of sixty-four signed bits.
pub open spec fn in_signed_range(integer: Option<int>) -> bool {
    integer matches Some(n) && i64::MIN <= n <= i64::MAX
}

/// Why a payload could not be used.
#[derive(Clone, Copy, Debug, PartialEq, Eq, Structural)]
pub enum PolicyError {
    /// The payload is not a JSON object of the expected fields.
    Parse,
    /// A field is present but its content has the wrong shape.
    Constraint,
}

/// Parses `text` as one JSON value.
///
/// Calls `serde_json::from_str` at the type `serde_json::Value`. Trusted: the
/// outcome is a function of the text alone, and the value that comes back
/// holds the document that the text spells.
#[verifier::external_body]
pub(crate) fn parse_document(text: &str) -> (r: Option<Value>)
    ensures
        (match r {
            Some(value) => json_document(text@) == Some(json_model(value)),
            None => json_document(text@).is_none(),
        }),
{
    serde_json::from_str::<Value>(text).ok()
}

/// The member `name` of a JSON object.
///
/// Calls `serde_json::Value::get` with a string index. Trusted: on an object
/// that has the member, the member comes back; on an object without it and
/// on any other value, nothing.
#[verifier::external_body]
pub(crate) fn member<'a>(value: &'a Value, name: &str) -> (r: Option<&'a Value>)
    ensures
        (match json_model(*value) {
            JsonModel::Object(members) if members.contains_key(name@) => r.is_some()
                && json_model(*r.unwrap()) == members[name@],
            _ => r.is_none(),
        }),
{
    value.get(name)
}

/// The text of a JSON string.
///
/// Calls `serde_json::Value::as_str`. Trusted: the string's characters on a
/// string, nothing on any other value.
#[verifier::external_body]
pub(crate) fn text_of<'a>(value: &'a Value) -> (r: Option<&'a str>)
    ensures
        (match json_model(*value) {
            JsonModel::Text(text) => r.is_some() && r.unwrap()@ == text,
            _ => r.is_none(),
        }),
{
    value.as_str()
}

/// The value of a JSON integer that fits sixty-four signed bits.
///
/// Calls `serde_json::Value::as_i64`. Trusted: the number on an integer in
/// that range, nothing on any other number and on any other value.
#[verifier::external_body]
pub(crate) fn integer_of(value: &Value) -> (r: Option<i64>)
    ensures
        (match json_model(*value) {
            JsonModel::Number(number) if in_signed_range(number.integer) => r == Some(
                number.integer.unwrap() as i64,
            ),
            _ => r.is_none(),
        }),
{
    value.as_i64()
}

/// A JSON number as the bits of a double.
///
/// Calls `serde_json::Value::as_f64` and `to_bits` on what it returns.
/// Trusted: on a number, the bits of the double that stands for it; nothing
/// on any other value.
#[verifier::external_body]
pub(crate) fn double_bits_of(value: &Value) -> (r: Option<u64>)
    ensures
        (match json_model(*value) {
            JsonModel::Number(number) => r == Some(number.double_bits),
            _ => r.is_none(),
        }),
{
    match value.as_f64() {
        Some(double) => Some(double.to_bits()),
        None => None,
    }
}

/// The elements of a JSON array.
///
/// Calls `serde_json::Value::as_array`. Trusted: on an array, its elements in
/// order; nothing on any other value.
#[verifier::external_body]
pub(crate) fn elements_of<'a>(value: &'a Value) -> (r: Option<&'a Vec<Value>>)
    ensures
        (match json_model(*value) {
            JsonModel::Array(items) => r.is_some() && r.unwrap()@.len() == items.len()
                && forall|i: int|
                0 <= i < items.len() ==> json_model(#[trigger] r.unwrap()@[i]) == items[i],
            _ => r.is_none(),
        }),
{
    value.as_array()
}

/// Whether `names` lists each member of `members` once.
pub open spec fn names_of(names: Seq<String>, members: Map<Seq<char>, JsonModel>) -> bool {
    &&& forall|i: int, j: int| 0 <= i < j < names.len() ==> names[i]@ != names[j]@
    &&& forall|i: int| 0 <= i < names.len() ==> members.contains_key(#[trigger] names[i]@)
    &&& forall|name: Seq<char>| #[trigger]
        members.contains_key(name) ==> exists|i: int|
            0 <= i < names.len() && (#[trigger] names[i])@ == name
}

/// The member names of a JSON object.
///
/// Calls `serde_json::Value::as_object` and collects the clones of the map's
/// `keys`. Trusted: on an object, every member's name once; no name on any
/// other value.
#[verifier::external_body]
pub(crate) fn member_names(value: &Value) -> (r: Vec<String>)
    ensures
        (match json_model(*value) {
            JsonModel::Object(members) => names_of(r@, members),
            _ => r@.len() == 0,
        }),
{
    match value.as_object() {
        Some(members) => members.keys().cloned().collect(),
        None => Vec::new(),
    }
}

/// Whether a JSON value is `null`.
///
/// Calls `serde_json::Value::is_null`.
#[verifier::external_body]
pub(crate) fn is_null(value: &Value) -> (r: bool)
    ensures
        r == (json_model(*value) is Null),
{
    value.is_null()
}

/// Whether a JSON value is an object.
///
/// Calls `serde_json::Value::is_object`.
#[verifier::external_body]
pub(crate) fn is_object(value: &Value) -> (r: bool)
    ensures
        r == (json_model(*value) is Object),
{
    value.is_object()
}

/// The fields of an event payload; every one of them may be absent.
#[derive(Debug)]
pub struct EventBody {
    pub title: Option<String>,
    pub description: Option<String>,
    pub time: Option<String>,
    pub location: Option<String>,
}

/// The mathematical value of an event payload.
pub struct EventView {
    pub title: Option<Seq<char>>,
    pub description: Option<Seq<char>>,
    pub time: Option<Seq<char>>,
    pub location: Option<Seq<char>>,
}

/// The characters of an optional string.
pub open spec fn text_view(text: Option<String>) -> Option<Seq<char>> {
    match text {
        Some(t) => Some(t@),
        None => None,
    }
}

impl View for EventBody {
    type V = EventView;

    open spec fn view(&self) -> EventView {
        EventView {
            title: text_view(self.title),
            description: text_view(self.description),
            time: text_view(self.time),
            location: text_view(self.location),
        }
    }
}

/// The fields of a money-transfer payload.
#[derive(Debug)]
pub struct TransferBody {
    pub recipient: String,
    pub amount: i64,
    pub currency: Option<String>,
}

/// The mathematical value of a money-transfer payload.
pub struct TransferView {
    pub recipient: Seq<char>,
    pub amount: int,
    pub currency: Option<Seq<char>>,
}

impl View for TransferBody {
    type V = TransferView;

    open spec fn view(&self) -> TransferView {
        TransferView {
            recipient: self.recipient@,
            amount: self.amount as int,
            currency: text_view(self.currency),
        }
    }
}

/// An optional string member of an object: absent or `null` is no value, a
/// string is its text, anything else does not fit.
pub open spec fn optional_text(members: Map<Seq<char>, JsonModel>, name: Seq<char>) -> Result<
    Option<Seq<char>>,
    PolicyError,
> {
    if !members.contains_key(name) {
        Ok(None)
    } else {
        match members[name] {
            JsonModel::Null => Ok(None),
            JsonModel::Text(text) => Ok(Some(text)),
            _ => Err(PolicyError::Parse),
        }
    }
}

/// A string member that an object must have.
pub open spec fn required_text(members: Map<Seq<char>, JsonModel>, name: Seq<char>) -> Result<
    Seq<char>,
    PolicyError,
> {
    if members.contains_key(name) && members[name] is Text {
        Ok(members[name]->Text_0)
    } else {
        Err(PolicyError::Parse)
    }
}

/// An integer member that an object must have, within sixty-four signed bits.
pub open spec fn required_integer(members: Map<Seq<char>, JsonModel>, name: Seq<char>) -> Result<
    int,
    PolicyError,
> {
    if members.contains_key(name) {
        match members[name] {
            JsonModel::Number(number) if in_signed_range(number.integer) => Ok(
                number.integer.unwrap(),
            ),
            _ => Err(PolicyError::Parse),
        }
    } else {
        Err(PolicyError::Parse)
    }
}

/// The event that a JSON document spells: an object whose `title`,
/// `description`, `time` and `location`, where present, are strings.
pub open spec fn event_of_model(document: JsonModel) -> Result<EventView, PolicyError> {
    match document {
        JsonModel::Object(members) => {
            let title = optional_text(members, "title"@);
            let description = optional_text(members, "description"@);
            let time = optional_text(members, "time"@);
            let location = optional_text(members, "location"@);
            if title is Ok && description is Ok && time is Ok && location is Ok {
                Ok(
                    EventView {
                        title: title->Ok_0,
                        description: description->Ok_0,
                        time: time->Ok_0,
                        location: location->Ok_0,
                    },
                )
            } else {
                Err(PolicyError::Parse)
            }
        },
        _ => Err(PolicyError::Parse),
    }
}

/// The transfer that a JSON document spells: an object with a string
/// `recipient`, an integer `amount` and, where present, a string `currency`.
pub open spec fn transfer_of_model(document: JsonModel) -> Result<TransferView, PolicyError> {
    match document {
        JsonModel::Object(members) => {
            let recipient = required_text(members, "recipient"@);
            let amount = required_integer(members, "amount"@);
            let currency = optional_text(members, "currency"@);
            if recipient is Ok && amount is Ok && currency is Ok {
                Ok(
                    TransferView {
                        recipient: recipient->Ok_0,
                        amount: amount->Ok_0,
                        currency: currency->Ok_0,
                    },
                )
            } else {
                Err(PolicyError::Parse)
            }
        },
        _ => Err(PolicyError::Parse),
    }
}

/// The event that a payload spells.
pub open spec fn event_of_text(text: Seq<char>) -> Result<EventView, PolicyError> {
    match json_document(text) {
        Some(document) => event_of_model(document),
        None => Err(PolicyError::Parse),
    }
}

/// The transfer that a payload spells.
pub open spec fn transfer_of_text(text: Seq<char>) -> Result<TransferView, PolicyError> {
    match json_document(text) {
        Some(document) => transfer_of_model(document),
        None => Err(PolicyError::Parse),
    }
}

/// The value of a decoded event, or its error.
pub open spec fn event_result_view(decoded: Result<EventBody, PolicyError>) -> Result<
    EventView,
    PolicyError,
> {
    match decoded {
        Ok(event) => Ok(event@),
        Err(e) => Err(e),
    }
}

/// The value of a decoded transfer, or its error.
pub open spec fn transfer_result_view(decoded: Result<TransferBody, PolicyError>) -> Result<
    TransferView,
    PolicyError,
> {
    match decoded {
        Ok(transfer) => Ok(transfer@),
        Err(e) => Err(e),
    }
}

/// Reads an optional string member of the object `object`.
pub(crate) fn read_optional_text(object: &Value, name: &str) -> (r: Result<Option<String>, PolicyError>)
    requires
        json_model(*object) is Object,
    ensures
        (match r {
            Ok(text) => Ok::<Option<Seq<char>>, PolicyError>(text_view(text)),
            Err(e) => Err(e),
        }) == optional_text(json_model(*object)->Object_0, name@),
{
    match member(object, name) {
        None => Ok(None),
        Some(value) => {
            if is_null(value) {
                Ok(None)
            } else {
                match text_of(value) {
                    Some(text) => Ok(Some(text.to_owned())),
                    None => Err(PolicyError::Parse),
                }
            }
        },
    }
}

/// Reads a string member that the object `object` must have.
pub(crate) fn read_required_text(object: &Value, name: &str) -> (r: Result<String, PolicyError>)
    requires
        json_model(*object) is Object,
    ensures
        (match r {
            Ok(text) => Ok::<Seq<char>, PolicyError>(text@),
            Err(e) => Err(e),
        }) == required_text(json_model(*object)->Object_0, name@),
{
    match member(object, name) {
        None => Err(PolicyError::Parse),
        Some(value) => match text_of(value) {
            Some(text) => Ok(text.to_owned()),
            None => Err(PolicyError::Parse),
        },
    }
}

/// Reads an integer member that the object `object` must have.
pub(crate) fn read_required_integer(object: &Value, name: &str) -> (r: Result<i64, PolicyError>)
    requires
        json_model(*object) is Object,
    ensures
        (match r {
            Ok(n) => Ok::<int, PolicyError>(n as int),
            Err(e) => Err(e),
        }) == required_integer(json_model(*object)->Object_0, name@),
{
    match member(object, name) {
        None => Err(PolicyError::Parse),
        Some(value) => match integer_of(value) {
            Some(n) => Ok(n),
            None => Err(PolicyError::Parse),
        },
    }
}

/// Decodes a payload as an event. Anything but a JSON object whose four
/// fields, where present, are strings is a parse error.
pub fn decode_event(body: &str) -> (r: Result<EventBody, PolicyError>)
    ensures
        event_result_view(r) == event_of_text(body@),
{
    let document = match parse_document(body) {
        Some(document) => document,
        None => { return Err(PolicyError::Parse); },
    };
    if !is_object(&document) {
        return Err(PolicyError::Parse);
    }
    let title = read_optional_text(&document, "title");
    let description = read_optional_text(&document, "description");
    let time = read_optional_text(&document, "time");
    let location = read_optional_text(&document, "location");
    match (title, description, time, location) {
        (Ok(title), Ok(description), Ok(time), Ok(location)) => Ok(
            EventBody { title, description, time, location },
        ),
        _ => Err(PolicyError::Parse),
    }
}

/// Decodes a payload as a money transfer. Anything but a JSON object with a
/// string `recipient`, an integer `amount` and an optional string `currency`
/// is a parse error.
pub fn decode_transfer(body: &str) -> (r: Result<TransferBody, PolicyError>)
    ensures
        transfer_result_view(r) == transfer_of_text(body@),
{
    let document = match parse_document(body) {
        Some(document) => document,
        None => { return Err(PolicyError::Parse); },
    };
    if !is_object(&document) {
        return Err(PolicyError::Parse);
    }
    let recipient = read_required_text(&document, "recipient");
    let amount = read_required_integer(&document, "amount");
    let currency = read_optional_text(&document, "currency");
    match (recipient, amount, currency) {
        (Ok(recipient), Ok(amount), Ok(currency)) => Ok(
            TransferBody { recipient, amount, currency },
        ),
        _ => Err(PolicyError::Parse),
    }
}

} // verus!
