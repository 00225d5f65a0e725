//! Unpacking the generative-text collaborator's reply: the review text
//! lives at the fixed field path `content[0].text` of a structured payload.
//! A reply without that field, or with a non-text value there, never fails:
//! a fixed fallback notice takes its place, so rendering stays possible on a
//! degraded response shape.

use vstd::prelude::*;

verus! {

#[verifier::external_type_specification]
#[verifier::external_body]
pub struct ExJsonValue(serde_json::Value);

/// The fixed notice shown when the reply lacks the expected text field.
pub open spec fn fallback_text() -> Seq<char> {
    "Unable to get AI insights"@
}

/// What a reply holds at the expected field path: the text of the string at
/// `content[0].text`, or `None` when some step of the path is missing or the
/// value there is not a string. A function of the reply value alone; the
/// lookup is too shape-dependent to restate here, so it is named.
pub uninterp spec fn extracted_text_of(reply: serde_json::Value) -> Option<Seq<char>>;

/// Relies on serde_json::Value::get and Value::as_str: walks the reply to
/// `content[0].text` and hands back its string content, or `None` when some
/// step of the path is missing or the value there is not a string. The
/// result depends on the reply value alone, named `extracted_text_of`.
#[verifier::external_body]
fn extract_review_text(reply: &serde_json::Value) -> (r: Option<String>)
    ensures
        match extracted_text_of(*reply) {
            Some(t) => r matches Some(s) && s@ == t,
            None => r is None,
        },
{
    reply.get("content")
        .and_then(|c| c.get(0))
        .and_then(|c| c.get("text"))
        .and_then(|t| t.as_str())
        .map(|s| s.to_string())
}

/// The fallback law: the extracted text when there is one, otherwise exactly
/// the fixed fallback notice — never an error.
pub fn review_text_or_fallback(extracted: Option<String>) -> (r: String)
    ensures
        extracted matches Some(t) ==> r@ == t@,
        extracted is None ==> r@ == fallback_text(),
{
    match extracted {
        Some(t) => t,
        None => String::from_str("Unable to get AI insights"),
    }
}

/// Turns the collaborator's reply into displayable text: the text found at
/// the expected field path when the reply carries one, otherwise exactly the
/// fixed fallback notice.
pub fn parse_review_reply(reply: &serde_json::Value) -> (r: String)
    ensures
        r@ == match extracted_text_of(*reply) {
            Some(t) => t,
            None => fallback_text(),
        },
{
    review_text_or_fallback(extract_review_text(reply))
}

} // verus!
