//! What the bulk protocol learns from `serde_json` about a line of JSON text.
use vstd::prelude::*;

verus! {

/// A JSON document parsed by `serde_json`, carried through unread.
#[verifier::external_type_specification]
#[verifier::external_body]
pub struct ExJsonValue(serde_json::Value);

/// The error `serde_json` reports for text it does not accept.
#[verifier::external_type_specification]
#[verifier::external_body]
pub struct ExJsonError(serde_json::Error);

/// What a JSON text holds under a key of its top-level object.
pub enum JsonMember {
    /// The text is not JSON, not an object, or has no such key.
    Absent,
    /// The key is there, with a value that is not a string.
    Other,
    /// The key is there, with this string.
    Text(String),
}

/// The mathematical form of a `JsonMember`.
pub enum JsonMemberView {
    Absent,
    Other,
    Text(Seq<char>),
}

impl View for JsonMember {
    type V = JsonMemberView;

    open spec fn view(&self) -> JsonMemberView {
        match self {
            JsonMember::Absent => JsonMemberView::Absent,
            JsonMember::Other => JsonMemberView::Other,
            JsonMember::Text(s) => JsonMemberView::Text(s@),
        }
    }
}

/// Whether `serde_json::from_str::<serde_json::Value>` accepts `text`.
pub uninterp spec fn json_accepts(text: Seq<char>) -> bool;

/// The value `serde_json::from_str::<serde_json::Value>` parses from `text`.
pub uninterp spec fn json_value(text: Seq<char>) -> serde_json::Value;

/// What `serde_json::Value::get(key)` and then `as_str` find in the value that
/// `serde_json::from_str` parses from `text`.
pub uninterp spec fn json_member_of(text: Seq<char>, key: Seq<char>) -> JsonMemberView;

/// Calls `serde_json::from_str::<serde_json::Value>`. Claims that it
/// succeeds exactly when `text` is accepted JSON, and that the value is the
/// one `json_value` names for `text`; what the value holds is left unsaid.
#[verifier::external_body]
pub(crate) fn parse_json(text: &str) -> (res: Result<serde_json::Value, serde_json::Error>)
    ensures
        res is Ok <==> json_accepts(text@),
        res matches Ok(v) ==> v == json_value(text@),
{
    serde_json::from_str::<serde_json::Value>(text)
}

/// Calls `serde_json::from_str::<serde_json::Value>`, then `Value::get(key)`,
/// then `Value::as_str`. Claims that the answer is the one named by
/// `json_member_of`, and, as the source of `from_str` shows, that text which
/// does not parse has no members.
#[verifier::external_body]
pub(crate) fn json_member(text: &str, key: &str) -> (res: JsonMember)
    ensures
        res@ == json_member_of(text@, key@),
        !json_accepts(text@) ==> res is Absent,
{
    match serde_json::from_str::<serde_json::Value>(text) {
        Err(_) => JsonMember::Absent,
        Ok(v) => match v.get(key) {
            None => JsonMember::Absent,
            Some(m) => match m.as_str() {
                None => JsonMember::Other,
                Some(s) => JsonMember::Text(s.to_string()),
            },
        },
    }
}

} // verus!
