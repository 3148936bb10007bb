//! Reading claims out of JSON texts, and the subject id out of its text.
use vstd::prelude::*;

use crate::error::{TokenError, TokenErrorView};
use crate::model::SubjectId;

verus! {

/// The string value of member `field` of the JSON text `text`, as `serde_json` reads it: `None`
/// where the text is not an object with a string under that name; the error text where the text
/// is not JSON.
pub uninterp spec fn json_text_field(text: Seq<char>, field: Seq<char>) -> Result<Option<Seq<char>>, Seq<char>>;

/// The same as [`json_text_field`], for JSON held as bytes.
pub uninterp spec fn json_bytes_field(bytes: Seq<u8>, field: Seq<char>) -> Result<Option<Seq<char>>, Seq<char>>;

/// The sixteen bytes of the UUID written in `text`, as `uuid::Uuid::parse_str` reads it, or the
/// text of its error.
pub uninterp spec fn uuid_text_bytes(text: Seq<char>) -> Result<Seq<u8>, Seq<char>>;

/// An optional string by its text.
pub open spec fn text_of(o: Option<String>) -> Option<Seq<char>> {
    match o {
        Some(s) => Some(s@),
        None => None,
    }
}

/// Calls `serde_json::from_str` into a `serde_json::Value`, indexes it by `field` and reads the
/// member as a string; the error becomes its display text. The contract claims the named result.
#[verifier::external_body]
pub(crate) fn read_json_text_field(text: &str, field: &str) -> (r: Result<Option<String>, String>)
    ensures
        r is Ok ==> json_text_field(text@, field@) is Ok && json_text_field(text@, field@)->Ok_0
            == text_of(r->Ok_0),
        r is Err ==> json_text_field(text@, field@) is Err && json_text_field(text@, field@)->Err_0
            == r->Err_0@,
{
    match serde_json::from_str::<serde_json::Value>(text) {
        Ok(v) => Ok(v[field].as_str().map(|s| s.to_string())),
        Err(e) => Err(e.to_string()),
    }
}

/// Calls `serde_json::from_slice` into a `serde_json::Value`, indexes it by `field` and reads the
/// member as a string; the error becomes its display text. The contract claims the named result.
#[verifier::external_body]
pub(crate) fn read_json_bytes_field(bytes: &[u8], field: &str) -> (r: Result<Option<String>, String>)
    ensures
        r is Ok ==> json_bytes_field(bytes@, field@) is Ok && json_bytes_field(bytes@, field@)->Ok_0
            == text_of(r->Ok_0),
        r is Err ==> json_bytes_field(bytes@, field@) is Err && json_bytes_field(
            bytes@,
            field@,
        )->Err_0 == r->Err_0@,
{
    match serde_json::from_slice::<serde_json::Value>(bytes) {
        Ok(v) => Ok(v[field].as_str().map(|s| s.to_string())),
        Err(e) => Err(e.to_string()),
    }
}

/// Calls `uuid::Uuid::parse_str` and `Uuid::into_bytes`; the error becomes its display text. The
/// contract claims the named result.
#[verifier::external_body]
pub(crate) fn parse_uuid_text(text: &str) -> (r: Result<SubjectId, String>)
    ensures
        r is Ok ==> uuid_text_bytes(text@) is Ok && uuid_text_bytes(text@)->Ok_0 == r->Ok_0@,
        r is Err ==> uuid_text_bytes(text@) is Err && uuid_text_bytes(text@)->Err_0 == r->Err_0@,
{
    match uuid::Uuid::parse_str(text) {
        Ok(id) => Ok(id.into_bytes()),
        Err(e) => Err(e.to_string()),
    }
}

/// The string claim `name` of a claims payload, if it has one.
pub open spec fn claim_text(payload: Seq<char>, name: Seq<char>) -> Option<Seq<char>> {
    match json_text_field(payload, name) {
        Ok(Some(s)) => Some(s),
        _ => None,
    }
}

/// Reads the string claim `name` of a claims payload.
pub fn string_claim(payload: &str, name: &str) -> (r: Option<String>)
    ensures
        text_of(r) == claim_text(payload@, name@),
{
    match read_json_text_field(payload, name) {
        Ok(Some(s)) => Some(s),
        _ => None,
    }
}

/// The failure for a token without the string claim `name`: `missing <name> claim`.
pub open spec fn missing_claim(name: Seq<char>) -> TokenErrorView {
    TokenErrorView::Verify("missing "@ + name + " claim"@)
}

/// A required string claim, or the verification failure `missing <name> claim`.
pub fn required_claim(payload: &str, name: &str) -> (r: Result<String, TokenError>)
    ensures
        claim_text(payload@, name@) is Some ==> r is Ok && r->Ok_0@ == claim_text(
            payload@,
            name@,
        )->Some_0,
        claim_text(payload@, name@) is None ==> r is Err && r->Err_0@ == missing_claim(name@),
{
    match string_claim(payload, name) {
        Some(s) => Ok(s),
        None => {
            let mut m = String::from_str("missing ");
            m.append(name);
            m.append(" claim");
            Err(TokenError::Verify(m))
        },
    }
}

/// The `email` claim of a payload; a payload without one gives the empty text.
pub open spec fn email_claim(payload: Seq<char>) -> Seq<char> {
    match claim_text(payload, "email"@) {
        Some(e) => e,
        None => Seq::empty(),
    }
}

/// Reads the `email` claim of a payload.
pub fn read_email(payload: &str) -> (r: String)
    ensures
        r@ == email_claim(payload@),
{
    match string_claim(payload, "email") {
        Some(e) => e,
        None => String::new(),
    }
}

} // verus!
