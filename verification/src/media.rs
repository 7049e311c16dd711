//! Content types of the encodings.

use crate::response::LogsResponseType;
use vstd::prelude::*;

verus! {

/// The media type of an encoding, without parameters.
pub open spec fn media_type_of(response_type: LogsResponseType) -> Seq<char> {
    if response_type is Json {
        "application/json"@
    } else {
        "text/plain"@
    }
}

/// The value of the `Content-Type` header of an encoding: the media
/// type, and for the line encodings the character set.
pub open spec fn content_type_of(response_type: LogsResponseType) -> Seq<char> {
    if response_type is Json {
        "application/json"@
    } else {
        "text/plain; charset=utf-8"@
    }
}

/// `AsRef<str>` of `mime::Mime`, on the constant `TEXT_PLAIN_UTF_8`. The
/// method hands out the text that the constant was declared with.
#[verifier::external_body]
fn text_plain_utf_8() -> (value: String)
    ensures
        value@ == "text/plain; charset=utf-8"@,
{
    let text: &str = mime_guess::mime::TEXT_PLAIN_UTF_8.as_ref();
    text.to_string()
}

/// `Mime::essence_str` of `mime`, on the constant `TEXT_PLAIN_UTF_8`. The
/// method hands out the text of the constant up to the semicolon in
/// front of its parameter.
#[verifier::external_body]
fn text_plain_essence() -> (value: String)
    ensures
        value@ == "text/plain"@,
{
    mime_guess::mime::TEXT_PLAIN_UTF_8.essence_str().to_string()
}

/// `AsRef<str>` of `mime::Mime`, on the constant `APPLICATION_JSON`,
/// which was declared with this text and has no parameter.
#[verifier::external_body]
fn application_json() -> (value: String)
    ensures
        value@ == "application/json"@,
{
    let text: &str = mime_guess::mime::APPLICATION_JSON.as_ref();
    text.to_string()
}

impl LogsResponseType {
    /// The media type under which the encoding is sent: plain text for
    /// raw and rendered lines, JSON for the array.
    pub fn media_type(&self) -> (value: String)
        ensures
            value@ == media_type_of(*self),
    {
        match self {
            LogsResponseType::Json => application_json(),
            _ => text_plain_essence(),
        }
    }

    /// The value of the `Content-Type` header for the encoding.
    pub fn content_type(&self) -> (value: String)
        ensures
            value@ == content_type_of(*self),
    {
        match self {
            LogsResponseType::Json => application_json(),
            _ => text_plain_utf_8(),
        }
    }
}

/// The header value of an encoding begins with its media type.
pub proof fn lemma_content_type_begins_with_media_type(response_type: LogsResponseType)
    ensures
        media_type_of(response_type).is_prefix_of(content_type_of(response_type)),
{
    reveal_strlit("application/json");
    reveal_strlit("text/plain");
    reveal_strlit("text/plain; charset=utf-8");
    let m = media_type_of(response_type);
    let c = content_type_of(response_type);
    assert(m =~= c.subrange(0, m.len() as int));
}

} // verus!
