//! Reading answers that arrive as JSON text.

use vstd::prelude::*;

use crate::text;

verus! {

/// The string that a JSON document holds at `outer.inner`, as [`text_at`]
/// reads it.
pub uninterp spec fn json_text_at(
    document: Seq<char>,
    outer: Seq<char>,
    inner: Seq<char>,
) -> Option<Seq<char>>;

/// The member `key` of a JSON document as compact JSON text, or the parser's
/// complaint about the document, as [`member_text`] reads it.
pub uninterp spec fn json_member_text(
    document: Seq<char>,
    key: Seq<char>,
) -> Result<Option<Seq<char>>, Seq<char>>;

/// The string at `outer.inner` of a JSON document: `serde_json::from_str` into
/// a `serde_json::Value`, then `Value::get` twice and `Value::as_str`. There is
/// none when the text is no JSON, a member is missing or the value is no string.
/// The contract only names the result as a function of the three texts.
#[verifier::external_body]
pub(crate) fn text_at(document: &str, outer: &str, inner: &str) -> (found: Option<String>)
    ensures
        text::text_of(found) == json_text_at(document@, outer@, inner@),
{
    let value: serde_json::Value = serde_json::from_str(document).ok()?;
    value.get(outer)?.get(inner)?.as_str().map(str::to_string)
}

/// The member `key` of a JSON document, written back as compact JSON:
/// `serde_json::from_str` into a `serde_json::Value`, then `Value::get` and the
/// value's `Display`. The error is the `Display` of `serde_json::Error`. The
/// contract only names the result as a function of the two texts.
#[verifier::external_body]
pub(crate) fn member_text(document: &str, key: &str) -> (found: Result<Option<String>, String>)
    ensures
        (match found {
            Ok(member) => Ok(text::text_of(member)),
            Err(complaint) => Err(complaint@),
        }) == json_member_text(document@, key@),
{
    match serde_json::from_str::<serde_json::Value>(document) {
        Ok(value) => Ok(value.get(key).map(|member| member.to_string())),
        Err(complaint) => Err(complaint.to_string()),
    }
}

} // verus!
