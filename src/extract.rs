use vstd::prelude::*;

use crate::http::{
    content_type_name, content_type_name_bytes, find_header, form_mime, header_value,
    headers_view, json_mime, starts_with, Header, STATUS_BAD_REQUEST,
    STATUS_UNPROCESSABLE_ENTITY, STATUS_UNSUPPORTED_MEDIA_TYPE,
};
use crate::json::{json_text_field_of, read_json_text_field};
use crate::middleware::json_mime_bytes;

verus! {

/// How a body is encoded.
#[derive(Clone, Copy, Debug, PartialEq, Eq, Structural)]
pub enum BodyFormat {
    Json,
    Form,
}

/// The kinds of extraction failure.
#[derive(Clone, Copy, Debug, PartialEq, Eq, Structural)]
pub enum ExtractionErrorKind {
    /// The body is well formed but lacks a field the handler needs.
    MissingField,
    /// The body cannot be read in its declared format.
    MalformedBody,
    /// The content type names no format the extractor reads.
    UnsupportedMediaType,
}

/// Why a value could not be extracted from a request.
#[derive(Debug)]
pub struct ExtractionError {
    pub kind: ExtractionErrorKind,
    /// The field concerned, where there is one.
    pub detail: Vec<u8>,
}

impl ExtractionErrorKind {
    /// The status of the response an extraction failure of this kind becomes.
    pub fn status(&self) -> (r: u16)
        ensures
            r == status_of_kind(*self),
    {
        match self {
            ExtractionErrorKind::MissingField => STATUS_UNPROCESSABLE_ENTITY,
            ExtractionErrorKind::MalformedBody => STATUS_BAD_REQUEST,
            ExtractionErrorKind::UnsupportedMediaType => STATUS_UNSUPPORTED_MEDIA_TYPE,
        }
    }
}

pub open spec fn status_of_kind(k: ExtractionErrorKind) -> u16 {
    match k {
        ExtractionErrorKind::MissingField => STATUS_UNPROCESSABLE_ENTITY,
        ExtractionErrorKind::MalformedBody => STATUS_BAD_REQUEST,
        ExtractionErrorKind::UnsupportedMediaType => STATUS_UNSUPPORTED_MEDIA_TYPE,
    }
}

/// A header value is readable as text when every byte is visible ASCII or a tab.
pub open spec fn visible_ascii(v: Seq<u8>) -> bool {
    forall|i: int| 0 <= i < v.len() ==> #[trigger] v[i] == 9 || (32 <= v[i] && v[i] <= 126)
}

pub open spec fn has_prefix(s: Seq<u8>, p: Seq<u8>) -> bool {
    p.len() <= s.len() && s.take(p.len() as int) == p
}

/// The format that a request with these headers declares for its body:
/// JSON for a content type that starts with `application/json`, a form for one
/// that starts with `application/x-www-form-urlencoded`; `None` for any other,
/// for a missing one and for one that is not readable as text.
pub open spec fn declared_format(hs: Seq<(Seq<u8>, Seq<u8>)>) -> Option<BodyFormat> {
    match header_value(hs, content_type_name()) {
        Some(v) => if !visible_ascii(v) {
            None
        } else if has_prefix(v, json_mime()) {
            Some(BodyFormat::Json)
        } else if has_prefix(v, form_mime()) {
            Some(BodyFormat::Form)
        } else {
            None
        },
        None => None,
    }
}

fn is_visible_ascii(v: &[u8]) -> (r: bool)
    ensures
        r == visible_ascii(v@),
{
    let mut i: usize = 0;
    while i < v.len()
        invariant
            i <= v@.len(),
            forall|k: int| 0 <= k < i ==> #[trigger] v@[k] == 9 || (32 <= v@[k] && v@[k] <= 126),
        decreases v.len() - i,
    {
        let b = v[i];
        if !(b == 9 || (32 <= b && b <= 126)) {
            return false;
        }
        i = i + 1;
    }
    true
}

fn form_mime_bytes() -> (r: Vec<u8>)
    ensures
        r@ == form_mime(),
{
    let r: Vec<u8> = vec![
        0x61, 0x70, 0x70, 0x6c, 0x69, 0x63, 0x61, 0x74, 0x69, 0x6f, 0x6e, 0x2f,
        0x78, 0x2d, 0x77, 0x77, 0x77, 0x2d, 0x66, 0x6f, 0x72, 0x6d, 0x2d,
        0x75, 0x72, 0x6c, 0x65, 0x6e, 0x63, 0x6f, 0x64, 0x65, 0x64,
    ];
    assert(r@ == form_mime());
    r
}

/// The content type picks the format: one that starts with `application/json`
/// the JSON reader, one that starts with `application/x-www-form-urlencoded`
/// the form reader; any other fails with `415 Unsupported Media Type`.
pub proof fn lemma_content_type_selects_format(hs: Seq<(Seq<u8>, Seq<u8>)>, v: Seq<u8>)
    requires
        header_value(hs, content_type_name()) == Some(v),
        visible_ascii(v),
    ensures
        has_prefix(v, json_mime()) ==> declared_format(hs) == Some(BodyFormat::Json),
        !has_prefix(v, json_mime()) && has_prefix(v, form_mime()) ==> declared_format(hs) == Some(
            BodyFormat::Form,
        ),
        !has_prefix(v, json_mime()) && !has_prefix(v, form_mime()) ==> declared_format(hs) is None,
        declared_format(hs) is None ==> status_of_kind(ExtractionErrorKind::UnsupportedMediaType)
            == 415,
{
}

/// Picks the body format from the content type, or fails with
/// `UnsupportedMediaType`.
pub fn json_or_form(headers: &Vec<Header>) -> (r: Result<BodyFormat, ExtractionErrorKind>)
    ensures
        match declared_format(headers_view(headers@)) {
            Some(f) => r == Ok::<BodyFormat, ExtractionErrorKind>(f),
            None => r == Err::<BodyFormat, ExtractionErrorKind>(
                ExtractionErrorKind::UnsupportedMediaType,
            ),
        },
{
    let name = content_type_name_bytes();
    match find_header(headers, &name) {
        Some(v) => {
            if !is_visible_ascii(v) {
                Err(ExtractionErrorKind::UnsupportedMediaType)
            } else if starts_with(v, &json_mime_bytes()) {
                Ok(BodyFormat::Json)
            } else if starts_with(v, &form_mime_bytes()) {
                Ok(BodyFormat::Form)
            } else {
                Err(ExtractionErrorKind::UnsupportedMediaType)
            }
        },
        None => Err(ExtractionErrorKind::UnsupportedMediaType),
    }
}

/// The result of reading the string field `field` from a JSON body, given
/// what the JSON reader made of it.
pub open spec fn json_field_result(read: Option<Option<Seq<char>>>) -> Result<
    Seq<char>,
    ExtractionErrorKind,
> {
    match read {
        None => Err(ExtractionErrorKind::MalformedBody),
        Some(None) => Err(ExtractionErrorKind::MissingField),
        Some(Some(s)) => Ok(s),
    }
}

/// Turns what the JSON reader found under a field into the extracted value
/// or the extraction failure.
pub fn classify_json_field(read: Option<Option<String>>) -> (r: Result<String, ExtractionErrorKind>)
    ensures
        match read {
            None => r == Err::<String, ExtractionErrorKind>(ExtractionErrorKind::MalformedBody),
            Some(None) => r == Err::<String, ExtractionErrorKind>(
                ExtractionErrorKind::MissingField,
            ),
            Some(Some(s)) => r is Ok && r->Ok_0@ == s@,
        },
{
    match read {
        None => Err(ExtractionErrorKind::MalformedBody),
        Some(None) => Err(ExtractionErrorKind::MissingField),
        Some(Some(s)) => Ok(s),
    }
}

/// Extracts the string field `field` from a JSON body: `MalformedBody` where
/// the body is no JSON, `MissingField` where it holds no string under `field`.
pub fn json_text_field(body: &[u8], field: &str) -> (r: Result<String, ExtractionErrorKind>)
    ensures
        match json_field_result(json_text_field_of(body@, field@)) {
            Ok(s) => r is Ok && r->Ok_0@ == s,
            Err(e) => r == Err::<String, ExtractionErrorKind>(e),
        },
{
    classify_json_field(read_json_text_field(body, field))
}

} // verus!
