use vstd::prelude::*;

use crate::http::{
    content_type_name, content_type_name_bytes, headers_view, json_mime, text_mime, Header,
    Response, ResponseView, STATUS_BAD_REQUEST, STATUS_CREATED, STATUS_FORBIDDEN,
    STATUS_INTERNAL_SERVER_ERROR, STATUS_OK, STATUS_UNAUTHORIZED,
};
use crate::json::{
    array_of, encode_array, frame_object, json_string_of, object_of, plain_json_text, quote_json,
    quoted,
};
use crate::middleware::json_mime_bytes;

verus! {

/// A message sent back as JSON: `{"message": ...}`.
#[derive(Debug)]
pub struct Message {
    pub message: String,
}

/// Successful replies of the API.
#[derive(Debug)]
pub enum ApiResponse {
    OK,
    Created,
    JsonData(Vec<Message>),
}

/// Failures of the API; each is a response too.
#[derive(Clone, Copy, Debug, PartialEq, Eq, Structural)]
pub enum ApiError {
    BadRequest,
    Forbidden,
    Unauthorised,
    InternalServerError,
    UserDefineError,
}

/// `User define error`
pub open spec fn user_define_error_text() -> Seq<u8> {
    seq![
        0x55, 0x73, 0x65, 0x72, 0x20, 0x64, 0x65, 0x66, 0x69, 0x6e, 0x65, 0x20,
        0x65, 0x72, 0x72, 0x6f, 0x72,
    ]
}

/// `message`
pub open spec fn message_key() -> Seq<char> {
    seq!['m', 'e', 's', 's', 'a', 'g', 'e']
}

/// A response with a status alone: no header, no body.
pub open spec fn bare(status: u16) -> ResponseView {
    ResponseView { status, headers: Seq::empty(), body: Seq::empty() }
}

/// A response whose only header is its content type.
pub open spec fn typed(status: u16, mime: Seq<u8>, body: Seq<u8>) -> ResponseView {
    ResponseView { status, headers: seq![(content_type_name(), mime)], body }
}

/// What a successful reply becomes.
pub open spec fn api_response_view(a: ApiResponse) -> ResponseView {
    match a {
        ApiResponse::OK => bare(STATUS_OK),
        ApiResponse::Created => bare(STATUS_CREATED),
        ApiResponse::JsonData(ms) => match messages_json(ms@) {
            Some(b) => typed(STATUS_OK, json_mime(), b),
            None => bare(STATUS_INTERNAL_SERVER_ERROR),
        },
    }
}

/// What a failure becomes when the user defined one is sent with
/// `user_status`.
pub open spec fn api_error_view_with(e: ApiError, user_status: u16) -> ResponseView {
    match e {
        ApiError::BadRequest => bare(STATUS_BAD_REQUEST),
        ApiError::Forbidden => bare(STATUS_FORBIDDEN),
        ApiError::Unauthorised => bare(STATUS_UNAUTHORIZED),
        ApiError::InternalServerError => bare(STATUS_INTERNAL_SERVER_ERROR),
        ApiError::UserDefineError => typed(user_status, text_mime(), user_define_error_text()),
    }
}

/// What a failure becomes by default: the user defined one is sent with
/// status `200`.
pub open spec fn api_error_view(e: ApiError) -> ResponseView {
    api_error_view_with(e, STATUS_OK)
}

/// The JSON of a list of messages, or `None` where some message cannot be
/// quoted.
pub open spec fn messages_json(ms: Seq<Message>) -> Option<Seq<u8>> {
    match messages_items(ms) {
        Some(items) => Some(array_of(items)),
        None => None,
    }
}

proof fn lemma_items_none_extends(ms: Seq<Message>, n: int)
    requires
        0 <= n <= ms.len(),
        messages_items(ms.take(n)) is None,
    ensures
        messages_items(ms) is None,
    decreases ms.len() - n,
{
    if n < ms.len() {
        assert(ms.take(n + 1).drop_last() == ms.take(n));
        lemma_items_none_extends(ms, n + 1);
    } else {
        assert(ms.take(n) == ms);
    }
}

/// The encoded objects of the messages, or `None` where one cannot be quoted.
pub open spec fn messages_items(ms: Seq<Message>) -> Option<Seq<Seq<u8>>>
    decreases ms.len(),
{
    if ms.len() == 0 {
        Some(Seq::empty())
    } else {
        match (
            messages_items(ms.drop_last()),
            json_string_of(message_key()),
            json_string_of(ms.last().message@),
        ) {
            (Some(items), Some(k), Some(v)) => Some(items.push(object_of(k, v))),
            _ => None,
        }
    }
}

/// A response with only a status.
pub fn status_only(status: u16) -> (r: Response)
    ensures
        r@ == bare(status),
{
    let r = Response { status, headers: Vec::new(), body: Vec::new() };
    assert(headers_view(r.headers@) == Seq::<(Seq<u8>, Seq<u8>)>::empty());
    assert(r@ == bare(status));
    r
}

/// A response with a content type and a body.
pub fn typed_response(status: u16, mime: Vec<u8>, body: Vec<u8>) -> (r: Response)
    ensures
        r@ == typed(status, mime@, body@),
{
    let mut headers: Vec<Header> = Vec::new();
    headers.push(Header { name: content_type_name_bytes(), value: mime });
    assert(headers_view(headers@) == seq![(content_type_name(), mime@)]);
    let r = Response { status, headers, body };
    assert(r@ == typed(status, mime@, body@));
    r
}

/// A `200` plain text response.
pub fn text_response(body: Vec<u8>) -> (r: Response)
    ensures
        r@ == typed(STATUS_OK, text_mime(), body@),
{
    typed_response(STATUS_OK, text_mime_bytes(), body)
}

/// A `200` JSON response.
pub fn json_response(body: Vec<u8>) -> (r: Response)
    ensures
        r@ == typed(STATUS_OK, json_mime(), body@),
{
    typed_response(STATUS_OK, json_mime_bytes(), body)
}

pub fn text_mime_bytes() -> (r: Vec<u8>)
    ensures
        r@ == text_mime(),
{
    let r: Vec<u8> = vec![
        0x74, 0x65, 0x78, 0x74, 0x2f, 0x70, 0x6c, 0x61, 0x69, 0x6e, 0x3b, 0x20,
        0x63, 0x68, 0x61, 0x72, 0x73, 0x65, 0x74, 0x3d, 0x75, 0x74, 0x66, 0x2d, 0x38,
    ];
    assert(r@ == text_mime());
    r
}

/// `{"message":"<text>"}` for a message of plain text.
pub open spec fn plain_message_object(m: Message) -> Seq<u8> {
    object_of(quoted(message_key()), quoted(m.message@))
}

/// Every message is plain text, which JSON writes as it is.
pub open spec fn all_plain(ms: Seq<Message>) -> bool {
    forall|i: int| 0 <= i < ms.len() ==> plain_json_text(#[trigger] ms[i].message@)
}

/// The JSON array of the messages, `[{"message":...},...]`. Quoting does not
/// fail, so there always is one.
pub fn encode_messages(ms: &Vec<Message>) -> (r: Option<Vec<u8>>)
    ensures
        r is Some,
        messages_json(ms@) == Some(r->0@),
        all_plain(ms@) ==> r->0@ == array_of(
            ms@.map_values(|m: Message| plain_message_object(m)),
        ),
{
    let mut items: Vec<Vec<u8>> = Vec::new();
    let mut i: usize = 0;
    while i < ms.len()
        invariant
            i <= ms@.len(),
            messages_items(ms@.take(i as int)) == Some(items@.map_values(|x: Vec<u8>| x@)),
            items@.len() == i,
            forall|k: int|
                0 <= k < i && plain_json_text(#[trigger] ms@[k].message@) ==> items@[k]@
                    == plain_message_object(ms@[k]),
        decreases ms.len() - i,
    {
        assert(ms@.take(i + 1).drop_last() == ms@.take(i as int));
        let ghost before = items@;
        let key = quote_json("message");
        proof {
            reveal_strlit("message");
        }
        assert("message"@ == message_key());
        assert(plain_json_text(message_key()));
        let value = quote_json(ms[i].message.as_str());
        match (key, value) {
            (Some(k), Some(v)) => items.push(frame_object(&k, &v)),
            _ => {
                assert(messages_items(ms@.take(i + 1)) is None);
                proof { lemma_items_none_extends(ms@, i as int + 1); }
                return None;
            },
        }
        assert(items@.map_values(|x: Vec<u8>| x@) == before.map_values(|x: Vec<u8>| x@).push(
            items@.last()@,
        ));
        i = i + 1;
    }
    assert(ms@.take(ms@.len() as int) == ms@);
    proof {
        if all_plain(ms@) {
            assert(items@.map_values(|x: Vec<u8>| x@) =~= ms@.map_values(
                |m: Message| plain_message_object(m),
            )) by {
            assert forall|k: int| 0 <= k < ms@.len() implies items@[k]@ == plain_message_object(
                ms@[k],
            ) by {
                    assert(plain_json_text(ms@[k].message@));
                }
            }
        }
    }
    Some(encode_array(&items))
}

impl ApiResponse {
    /// The response this reply becomes: `200` or `201` with nothing else, or
    /// `200` with the messages as a JSON array.
    pub fn into_response(self) -> (r: Response)
        ensures
            r@ == api_response_view(self),
            self matches ApiResponse::JsonData(ms) ==> {
                &&& r.status == STATUS_OK
                &&& headers_view(r.headers@) == seq![(content_type_name(), json_mime())]
                &&& all_plain(ms@) ==> r.body@ == array_of(
                    ms@.map_values(|m: Message| plain_message_object(m)),
                )
            },
    {
        match self {
            ApiResponse::OK => status_only(STATUS_OK),
            ApiResponse::Created => status_only(STATUS_CREATED),
            ApiResponse::JsonData(ms) => match encode_messages(&ms) {
                Some(b) => json_response(b),
                None => status_only(STATUS_INTERNAL_SERVER_ERROR),
            },
        }
    }
}

impl ApiError {
    /// The response this failure becomes, with the user defined failure sent
    /// with `user_status`.
    pub fn into_response_with(self, user_status: u16) -> (r: Response)
        ensures
            r@ == api_error_view_with(self, user_status),
    {
        match self {
            ApiError::BadRequest => status_only(STATUS_BAD_REQUEST),
            ApiError::Forbidden => status_only(STATUS_FORBIDDEN),
            ApiError::Unauthorised => status_only(STATUS_UNAUTHORIZED),
            ApiError::InternalServerError => status_only(STATUS_INTERNAL_SERVER_ERROR),
            ApiError::UserDefineError => {
                let body: Vec<u8> = vec![
                    0x55, 0x73, 0x65, 0x72, 0x20, 0x64, 0x65, 0x66, 0x69, 0x6e, 0x65, 0x20,
                    0x65, 0x72, 0x72, 0x6f, 0x72,
                ];
                assert(body@ == user_define_error_text());
                typed_response(user_status, text_mime_bytes(), body)
            },
        }
    }

    /// The response this failure becomes by default.
    pub fn into_response(self) -> (r: Response)
        ensures
            r@ == api_error_view(self),
    {
        self.into_response_with(STATUS_OK)
    }
}

/// The response for a handler that returns `Result<ApiResponse, ApiError>`.
pub fn result_into_response(r: Result<ApiResponse, ApiError>) -> (out: Response)
    ensures
        match r {
            Ok(a) => out@ == api_response_view(a),
            Err(e) => out@ == api_error_view(e),
        },
{
    match r {
        Ok(a) => a.into_response(),
        Err(e) => e.into_response(),
    }
}

} // verus!
