//! Response extraction: a strict structured decode of the body, with a
//! source-supplied markup fallback.  Exactly one of a structured result, a
//! fallback result, or a failure is produced: the structured decode is
//! attempted unless the declared content type indicates markup; the fallback
//! runs when one is registered and the structured decode was skipped or
//! failed; otherwise the decode error surfaces with a capped body excerpt.

use vstd::prelude::*;
use vstd::string::StrSliceExecFns;

use crate::text::{chars_of, contains_chars, contains_sub};

verus! {

/// The body excerpt kept for diagnostics: at most 200 characters.
pub open spec fn excerpt_spec(body: Seq<char>) -> Seq<char> {
    if body.len() <= 200 {
        body
    } else {
        body.subrange(0, 200)
    }
}

/// A declared content type indicating markup rather than structured data.
pub open spec fn is_markup_content_type(ct: Seq<char>) -> bool {
    contains_sub(ct, "text/html"@)
}

/// Whether a content type declares markup.
pub fn content_type_is_markup(content_type: &str) -> (r: bool)
    ensures
        r == is_markup_content_type(content_type@),
{
    let ct = chars_of(content_type);
    let needle = chars_of("text/html");
    contains_chars(&ct, &needle)
}

/// Truncates a body to its diagnostic excerpt.
pub fn body_excerpt(body: &str) -> (r: String)
    ensures
        r@ == excerpt_spec(body@),
{
    let n = body.unicode_len();
    if n <= 200 {
        body.to_owned()
    } else {
        let head = body.substring_char(0, 200);
        head.to_owned()
    }
}

/// Why no value was extracted: the decode error and a body excerpt.
pub struct DecodeFailure {
    /// The error reported by the structured decode, or a note that the
    /// content type declared markup.
    pub error: String,
    /// The leading characters of the body, for diagnostics.
    pub excerpt: String,
}

/// The one result of extracting a response.
pub enum ExtractOutcome<T> {
    /// The strict structured decode succeeded.
    Structured(T),
    /// The registered fallback extractor was applied to the raw body.
    Fallback(T),
    /// The decode was inapplicable or failed and no fallback is registered.
    Failed(DecodeFailure),
}

/// Decodes a response body: a strict structured decode unless the content
/// type declares markup, then the registered fallback, if any, on the raw
/// body.
pub fn extract_response<T, FD: FnOnce(&str) -> Result<T, String>, FF: FnOnce(&str) -> T>(
    content_type: &str,
    body: &str,
    decode: FD,
    fallback: Option<FF>,
) -> (r: ExtractOutcome<T>)
    requires
        call_requires(decode, (body,)),
        fallback matches Some(f) ==> call_requires(f, (body,)),
    ensures
        match r {
            ExtractOutcome::Structured(v) => !is_markup_content_type(content_type@)
                && call_ensures(decode, (body,), Ok(v)),
            ExtractOutcome::Fallback(v) => {
                &&& fallback matches Some(f) && call_ensures(f, (body,), v)
                &&& is_markup_content_type(content_type@) || (exists|e: String|
                    call_ensures(decode, (body,), Err(e)))
            },
            ExtractOutcome::Failed(failure) => {
                &&& fallback is None
                &&& failure.excerpt@ == excerpt_spec(body@)
                &&& is_markup_content_type(content_type@) || call_ensures(
                    decode,
                    (body,),
                    Err(failure.error),
                )
            },
        },
{
    let is_markup = content_type_is_markup(content_type);
    let mut decode_error: Option<String> = None;
    if !is_markup {
        match decode(body) {
            Ok(v) => {
                return ExtractOutcome::Structured(v);
            },
            Err(e) => {
                decode_error = Some(e);
            },
        }
    }
    match fallback {
        Some(f) => ExtractOutcome::Fallback(f(body)),
        None => {
            let error = match decode_error {
                Some(e) => e,
                None => "content type declares markup, structured decode skipped".to_owned(),
            };
            ExtractOutcome::Failed(DecodeFailure { error, excerpt: body_excerpt(body) })
        },
    }
}

} // verus!
