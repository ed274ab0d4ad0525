//! What the store reads from, and adds to, a probe's JSON payload.

use crate::text::{
    decimal, decimal_string, string_byte_len, trim_end, trim_end_char, trim_end_matches_char,
    trim_end_white,
};
use vstd::prelude::*;
use vstd::string::*;
use vstd::utf8::encode_utf8;

verus! {

/// What `gjson::get(json, path).u64()` gives for these two texts: the
/// unsigned number that `path` selects in the JSON text `json`.
pub uninterp spec fn gjson_u64(json: Seq<char>, path: Seq<char>) -> u64;

/// Whether the value that `gjson::get(json, path)` selects is of kind
/// `Kind::String`.
pub uninterp spec fn gjson_is_string(json: Seq<char>, path: Seq<char>) -> bool;

/// The JSON text of the value that `gjson::get(json, path)` selects, as
/// `Value::json` gives it.
pub uninterp spec fn gjson_raw(json: Seq<char>, path: Seq<char>) -> Seq<char>;

/// Whether `path` selects in `json` a string whose text is shorter than its
/// two quotes: what gjson gives for a string that is never closed.
pub open spec fn selects_unclosed_string(json: Seq<char>, path: Seq<char>) -> bool {
    gjson_is_string(json, path) && encode_utf8(gjson_raw(json, path)).len() < 2
}

/// Calls `gjson::get(json, path)` and reads the value it selects with
/// `Value::u64`. For a value of kind `String` that was not escaped,
/// `Value::u64` takes the text between the first and the last byte of the
/// value's JSON text, and panics where that text is shorter than two bytes
/// (a string that is never closed selects an empty text); `requires` leaves
/// every string value shorter than two bytes out. The result is named, not
/// described: gjson's path syntax and number conversion are its own; the
/// contract claims only that the result depends on the two texts alone.
#[verifier::external_body]
fn json_u64_at(json: &str, path: &str) -> (r: u64)
    requires
        !selects_unclosed_string(json@, path@),
    ensures
        r == gjson_u64(json@, path@),
{
    gjson::get(json, path).u64()
}

/// Calls `gjson::get(json, path)` and tells by `Value::kind` whether the
/// value it selects is of kind `Kind::String`. The result is named: it
/// depends on the two texts alone.
#[verifier::external_body]
fn json_is_string_at(json: &str, path: &str) -> (r: bool)
    ensures
        r == gjson_is_string(json@, path@),
{
    match gjson::get(json, path).kind() {
        gjson::Kind::Null => false,
        gjson::Kind::False => false,
        gjson::Kind::Number => false,
        gjson::Kind::String => true,
        gjson::Kind::True => false,
        gjson::Kind::Array => false,
        gjson::Kind::Object => false,
    }
}

/// Calls `gjson::get(json, path)` and copies the JSON text of the value it
/// selects (`Value::json`). The result is named: it depends on the two texts
/// alone.
#[verifier::external_body]
fn json_raw_at(json: &str, path: &str) -> (r: String)
    ensures
        r@ == gjson_raw(json@, path@),
{
    gjson::get(json, path).json().to_string()
}

/// Calls `SystemTime::elapsed` on `UNIX_EPOCH` (the present time measured
/// from the epoch) and gives it in milliseconds, or `None` where the clock
/// reads before the epoch. The reading depends on the moment of the call, so
/// nothing is stated of it.
#[verifier::external_body]
pub(crate) fn unix_time_millis() -> (r: Option<u128>) {
    match std::time::UNIX_EPOCH.elapsed() {
        Ok(d) => Some(d.as_millis()),
        Err(_) => None,
    }
}

/// The path of a payload's transmission time.
pub open spec fn transmission_time_path() -> Seq<char> {
    "eventTransmissionTime"@
}

/// The text of the field that records when a payload was received, up to
/// its value.
pub open spec fn received_time_field() -> Seq<char> {
    ",\"eventReceivedTime\":"@
}

/// A payload with the time it was received added as the last field of its
/// object: trailing white space and closing braces give way to the field and
/// one closing brace.
pub open spec fn stamped_payload(value: Seq<char>, received: nat) -> Seq<char> {
    trim_end_char(trim_end_white(value), '}') + received_time_field() + decimal(received) + seq![
        '}',
    ]
}

/// The transmission time that a payload records, as gjson reads it; `None`
/// where the transmission time is a string that is never closed, on which
/// gjson's reading fails.
pub fn get_timestamp(value: &String) -> (r: Option<u64>)
    ensures
        r == if selects_unclosed_string(value@, transmission_time_path()) {
            None::<u64>
        } else {
            Some(gjson_u64(value@, transmission_time_path()))
        },
{
    let path = transmission_time_path_str();
    if json_is_string_at(value.as_str(), path) {
        let raw = json_raw_at(value.as_str(), path);
        if string_byte_len(&raw) < 2 {
            return None;
        }
    }
    Some(json_u64_at(value.as_str(), path))
}

/// The transmission time is read at the member named exactly
/// `eventTransmissionTime`: the path is that name, character for character,
/// with no wildcard, separator or modifier of gjson's path syntax in it.
pub proof fn lemma_transmission_time_path_is_the_member_name()
    ensures
        transmission_time_path() == seq![
            'e', 'v', 'e', 'n', 't', 'T', 'r', 'a', 'n', 's', 'm', 'i', 's', 's', 'i', 'o', 'n',
            'T', 'i', 'm', 'e',
        ],
        forall|i: int|
            0 <= i < transmission_time_path().len() ==> {
                let c = #[trigger] transmission_time_path()[i];
                &&& c != '*'
                &&& c != '?'
                &&& c != '.'
                &&& c != '|'
                &&& c != '#'
                &&& c != '@'
                &&& c != '\\'
            },
{
    reveal_strlit("eventTransmissionTime");
}

fn transmission_time_path_str() -> (r: &'static str)
    ensures
        r@ == transmission_time_path(),
{
    "eventTransmissionTime"
}

/// The payload with `received_timestamp` (milliseconds since the epoch)
/// added as its `eventReceivedTime`.
pub fn with_received_time_at(value: &String, received_timestamp: u128) -> (r: String)
    ensures
        r@ == stamped_payload(value@, received_timestamp as nat),
{
    let trimmed = trim_end(value.as_str());
    let prefix = trim_end_matches_char(trimmed, '}');
    let mut out = String::from_str(prefix);
    out.append(",\"eventReceivedTime\":");
    let digits = decimal_string(received_timestamp);
    out.append(digits.as_str());
    out.append("}");
    proof {
        reveal_strlit("}");
    }
    out
}

/// The payload with the present time added as its `eventReceivedTime`;
/// `None` where the clock reads before the epoch.
pub fn with_received_time(value: &String) -> (r: Option<String>)
    ensures
        r matches Some(s) ==> exists|t: u128| s@ == stamped_payload(value@, t as nat),
{
    match unix_time_millis() {
        Some(t) => Some(with_received_time_at(value, t)),
        None => None,
    }
}

} // verus!
