use vstd::prelude::*;

use crate::extract::{
    declared_format, json_field_result, json_or_form, json_text_field, BodyFormat,
    ExtractionErrorKind,
};
use crate::http::{
    headers_view, json_mime, text_mime, Header, Response, ResponseView, STATUS_INTERNAL_SERVER_ERROR,
    STATUS_OK,
};
use crate::form::{form_field_result, form_pairs_of, form_text_field};
use crate::json::{
    debug_text, debug_text_of, json_int_field_of, read_json_int_field, read_json_text_field,
    append_bytes, json_string_of, json_text_field_of, object_of, plain_json_text, quote_json,
    quoted,
};
use crate::respond::{
    api_error_view, api_response_view, bare, json_response, result_into_response, status_only,
    text_response, typed, ApiError, ApiResponse,
};

use vstd::string::StringExecFns;
use vstd::utf8::encode_utf8;

verus! {

/// The handlers a route can bind.
#[derive(Debug)]
pub enum Handler {
    /// Plain text.
    Text(Vec<u8>),
    /// The user `cdd`, number 1001, as JSON with the name first.
    Hey,
    /// A bare `200`.
    DoSomething,
    /// Always fails with an internal server error.
    FailingHey,
    /// `{"hello":"world"}`.
    GetSomeJson,
    /// The user `rust`, number 1001, as JSON with the number first.
    GetUser,
    /// Reads a payload with a string field `foo`, as JSON or as a form, and
    /// answers a bare `200`.
    Payload,
    /// Runs a query on the database, then answers a bare `200`.
    QueryUsers,
    /// Reads a user, an integer `id` and a string `name`, from a JSON body
    /// and answers it as text.
    EchoUser,
}

/// What a handler hands back: a response, or the query it needs run first.
pub enum Reply {
    Respond(Response),
    Query,
}

pub enum ReplyView {
    Respond(ResponseView),
    Query,
}

impl View for Reply {
    type V = ReplyView;

    open spec fn view(&self) -> ReplyView {
        match self {
            Reply::Respond(r) => ReplyView::Respond(r@),
            Reply::Query => ReplyView::Query,
        }
    }
}

/// The decimal digits of `n`.
pub open spec fn decimal(n: nat) -> Seq<u8>
    decreases n,
{
    if n < 10 {
        seq![(0x30 + n) as u8]
    } else {
        decimal(n / 10).push((0x30 + n % 10) as u8)
    }
}

/// Writes `n` in decimal.
pub fn decimal_bytes(n: u64) -> (r: Vec<u8>)
    ensures
        r@ == decimal(n as nat),
    decreases n,
{
    if n < 10 {
        let r: Vec<u8> = vec![0x30 + n as u8];
        r
    } else {
        let mut r = decimal_bytes(n / 10);
        r.push(0x30 + (n % 10) as u8);
        r
    }
}

/// `{<k1>:<v1>,<k2>:<v2>}` for quoted keys and encoded values.
pub open spec fn pair_object(k1: Seq<u8>, v1: Seq<u8>, k2: Seq<u8>, v2: Seq<u8>) -> Seq<u8> {
    seq![0x7bu8] + k1 + seq![0x3au8] + v1 + seq![0x2cu8] + k2 + seq![0x3au8] + v2 + seq![0x7du8]
}

pub open spec fn user_id() -> nat {
    1001
}

/// `{"name":<name>,"id":1001}`, or `None` where quoting fails.
pub open spec fn user_json_name_first(name: Seq<char>) -> Option<Seq<u8>> {
    match (json_string_of(seq!['n', 'a', 'm', 'e']), json_string_of(name), json_string_of(seq!['i', 'd'])) {
        (Some(kn), Some(vn), Some(ki)) => Some(pair_object(kn, vn, ki, decimal(user_id()))),
        _ => None,
    }
}

/// `{"id":1001,"name":<name>}`, or `None` where quoting fails.
pub open spec fn user_json_id_first(name: Seq<char>) -> Option<Seq<u8>> {
    match (json_string_of(seq!['i', 'd']), json_string_of(seq!['n', 'a', 'm', 'e']), json_string_of(name)) {
        (Some(ki), Some(kn), Some(vn)) => Some(pair_object(ki, decimal(user_id()), kn, vn)),
        _ => None,
    }
}

/// `{"hello":"world"}`, or `None` where quoting fails.
pub open spec fn hello_world_json() -> Option<Seq<u8>> {
    match (json_string_of(seq!['h', 'e', 'l', 'l', 'o']), json_string_of(seq!['w', 'o', 'r', 'l', 'd'])) {
        (Some(k), Some(v)) => Some(seq![0x7bu8] + k + seq![0x3au8] + v + seq![0x7du8]),
        _ => None,
    }
}

/// `The contents of user is: User { id: `
pub open spec fn echo_prefix() -> Seq<u8> {
    seq![0x54, 0x68, 0x65, 0x20, 0x63, 0x6f, 0x6e, 0x74, 0x65, 0x6e, 0x74, 0x73, 0x20, 0x6f, 0x66, 0x20, 0x75, 0x73, 0x65, 0x72, 0x20, 0x69, 0x73, 0x3a, 0x20, 0x55, 0x73, 0x65, 0x72, 0x20, 0x7b, 0x20, 0x69, 0x64, 0x3a, 0x20]
}

/// `, name: `
pub open spec fn echo_middle() -> Seq<u8> {
    seq![0x2c, 0x20, 0x6e, 0x61, 0x6d, 0x65, 0x3a, 0x20]
}

/// ` }`
pub open spec fn echo_suffix() -> Seq<u8> {
    seq![0x20, 0x7d]
}

/// An integer in decimal, with `-` in front where it is negative.
pub open spec fn signed_decimal(n: int) -> Seq<u8> {
    if n < 0 {
        seq![0x2du8] + decimal((-n) as nat)
    } else {
        decimal(n as nat)
    }
}

/// `The contents of user is: User { id: <id>, name: <name> }`, for the
/// `Debug` form of the name.
pub open spec fn user_text(id: i64, debug_name: Seq<char>) -> Seq<u8> {
    echo_prefix() + signed_decimal(id as int) + echo_middle() + encode_utf8(debug_name)
        + echo_suffix()
}

/// What the user handler answers for a request with these headers and body:
/// the text of the user, or why it could not be read.
pub open spec fn echo_result(hs: Seq<(Seq<u8>, Seq<u8>)>, body: Seq<u8>) -> Result<
    Seq<u8>,
    ExtractionErrorKind,
> {
    match declared_format(hs) {
        Some(BodyFormat::Json) => match (
            json_int_field_of(body, seq!['i', 'd']),
            json_text_field_of(body, seq!['n', 'a', 'm', 'e']),
        ) {
            (Some(Some(id)), Some(Some(name))) => Ok(user_text(id, debug_text_of(name))),
            (None, _) => Err(ExtractionErrorKind::MalformedBody),
            (_, None) => Err(ExtractionErrorKind::MalformedBody),
            _ => Err(ExtractionErrorKind::MissingField),
        },
        _ => Err(ExtractionErrorKind::UnsupportedMediaType),
    }
}

/// Writes an integer in decimal.
pub fn signed_decimal_bytes(n: i64) -> (r: Vec<u8>)
    ensures
        r@ == signed_decimal(n as int),
{
    if n < 0 {
        let m: u64 = (0 - (n as i128)) as u64;
        let digits = decimal_bytes(m);
        let mut r: Vec<u8> = Vec::new();
        r.push(0x2d);
        append_bytes(&mut r, &digits);
        r
    } else {
        decimal_bytes(n as u64)
    }
}

/// The text of a user, given the `Debug` form of its name.
pub fn frame_user_text(id: i64, debug_name: &str) -> (r: Vec<u8>)
    ensures
        r@ == user_text(id, debug_name@),
{
    let mut out: Vec<u8> = Vec::new();
    let part: Vec<u8> = vec![0x54, 0x68, 0x65, 0x20, 0x63, 0x6f, 0x6e, 0x74, 0x65, 0x6e, 0x74, 0x73, 0x20, 0x6f, 0x66, 0x20, 0x75, 0x73, 0x65, 0x72, 0x20, 0x69, 0x73, 0x3a, 0x20, 0x55, 0x73, 0x65, 0x72, 0x20, 0x7b, 0x20, 0x69, 0x64, 0x3a, 0x20];
    assert(part@ == echo_prefix());
    append_bytes(&mut out, &part);
    append_bytes(&mut out, &signed_decimal_bytes(id));
    let part: Vec<u8> = vec![0x2c, 0x20, 0x6e, 0x61, 0x6d, 0x65, 0x3a, 0x20];
    assert(part@ == echo_middle());
    append_bytes(&mut out, &part);
    append_bytes(&mut out, debug_name.as_bytes());
    let part: Vec<u8> = vec![0x20, 0x7d];
    assert(part@ == echo_suffix());
    append_bytes(&mut out, &part);
    out
}

/// Reads the user from a JSON body and writes its text.
pub fn echo_user(headers: &Vec<Header>, body: &[u8]) -> (r: Result<Vec<u8>, ExtractionErrorKind>)
    ensures
        match echo_result(headers_view(headers@), body@) {
            Ok(t) => r is Ok && r->Ok_0@ == t,
            Err(e) => r == Err::<Vec<u8>, ExtractionErrorKind>(e),
        },
{
    match json_or_form(headers) {
        Ok(BodyFormat::Json) => {},
        _ => return Err(ExtractionErrorKind::UnsupportedMediaType),
    }
    proof {
        reveal_strlit("id");
        reveal_strlit("name");
    }
    assert("id"@ == seq!['i', 'd']);
    assert("name"@ == seq!['n', 'a', 'm', 'e']);
    let id = read_json_int_field(body, "id");
    let name = read_json_text_field(body, "name");
    match (id, name) {
        (Some(Some(id)), Some(Some(name))) => {
            let d = debug_text(name.as_str());
            Ok(frame_user_text(id, d.as_str()))
        },
        (None, _) => Err(ExtractionErrorKind::MalformedBody),
        (_, None) => Err(ExtractionErrorKind::MalformedBody),
        _ => Err(ExtractionErrorKind::MissingField),
    }
}

/// `{"name":"cdd","id":1001}`
pub open spec fn hey_body() -> Seq<u8> {
    pair_object(
        quoted(seq!['n', 'a', 'm', 'e']),
        quoted(seq!['c', 'd', 'd']),
        quoted(seq!['i', 'd']),
        decimal(user_id()),
    )
}

/// `{"id":1001,"name":"rust"}`
pub open spec fn user_body() -> Seq<u8> {
    pair_object(
        quoted(seq!['i', 'd']),
        decimal(user_id()),
        quoted(seq!['n', 'a', 'm', 'e']),
        quoted(seq!['r', 'u', 's', 't']),
    )
}

/// `{"hello":"world"}`
pub open spec fn some_json_body() -> Seq<u8> {
    object_of(quoted(seq!['h', 'e', 'l', 'l', 'o']), quoted(seq!['w', 'o', 'r', 'l', 'd']))
}

/// A `200` JSON response with the body, or `500` where there is none.
pub open spec fn json_or_500(b: Option<Seq<u8>>) -> ResponseView {
    match b {
        Some(b) => typed(STATUS_OK, json_mime(), b),
        None => bare(STATUS_INTERNAL_SERVER_ERROR),
    }
}

/// What the payload handler reads from a request with these headers and body.
pub open spec fn payload_result(hs: Seq<(Seq<u8>, Seq<u8>)>, body: Seq<u8>) -> Result<
    (),
    ExtractionErrorKind,
> {
    match declared_format(hs) {
        None => Err(ExtractionErrorKind::UnsupportedMediaType),
        Some(BodyFormat::Json) => match json_field_result(
            json_text_field_of(body, seq!['f', 'o', 'o']),
        ) {
            Ok(_) => Ok(()),
            Err(e) => Err(e),
        },
        Some(BodyFormat::Form) => match form_field_result(
            form_pairs_of(body),
            seq!['f', 'o', 'o'],
        ) {
            Ok(_) => Ok(()),
            Err(e) => Err(e),
        },
    }
}

/// What a handler answers to a request with these headers and body, or the
/// extraction failure that keeps it from running.
pub open spec fn handler_reply(h: Handler, hs: Seq<(Seq<u8>, Seq<u8>)>, body: Seq<u8>) -> Result<
    ReplyView,
    ExtractionErrorKind,
> {
    match h {
        Handler::Text(t) => Ok(ReplyView::Respond(typed(STATUS_OK, text_mime(), t@))),
        Handler::Hey => Ok(ReplyView::Respond(typed(STATUS_OK, json_mime(), hey_body()))),
        Handler::DoSomething => Ok(ReplyView::Respond(api_response_view(ApiResponse::OK))),
        Handler::FailingHey => Ok(
            ReplyView::Respond(api_error_view(ApiError::InternalServerError)),
        ),
        Handler::GetSomeJson => Ok(ReplyView::Respond(typed(STATUS_OK, json_mime(), some_json_body()))),
        Handler::GetUser => Ok(ReplyView::Respond(typed(STATUS_OK, json_mime(), user_body()))),
        Handler::Payload => match payload_result(hs, body) {
            Ok(_) => Ok(ReplyView::Respond(bare(STATUS_OK))),
            Err(e) => Err(e),
        },
        Handler::QueryUsers => Ok(ReplyView::Query),
        Handler::EchoUser => match echo_result(hs, body) {
            Ok(t) => Ok(ReplyView::Respond(typed(STATUS_OK, text_mime(), t))),
            Err(e) => Err(e),
        },
    }
}

pub fn frame_pair(k1: &[u8], v1: &[u8], k2: &[u8], v2: &[u8]) -> (r: Vec<u8>)
    ensures
        r@ == pair_object(k1@, v1@, k2@, v2@),
{
    let mut out: Vec<u8> = Vec::new();
    out.push(0x7b);
    append_bytes(&mut out, k1);
    out.push(0x3a);
    append_bytes(&mut out, v1);
    out.push(0x2c);
    append_bytes(&mut out, k2);
    out.push(0x3a);
    append_bytes(&mut out, v2);
    out.push(0x7d);
    out
}

fn json_body_response(b: Option<Vec<u8>>) -> (r: Response)
    ensures
        r@ == json_or_500(
            match b {
                Some(v) => Some(v@),
                None => None,
            },
        ),
{
    match b {
        Some(v) => json_response(v),
        None => status_only(STATUS_INTERNAL_SERVER_ERROR),
    }
}

/// The user as JSON, name first.
pub fn hey_json(name: &str) -> (r: Option<Vec<u8>>)
    ensures
        r is Some,
        plain_json_text(name@) ==> r->0@ == pair_object(
            quoted(seq!['n', 'a', 'm', 'e']),
            quoted(name@),
            quoted(seq!['i', 'd']),
            decimal(user_id()),
        ),
        match user_json_name_first(name@) {
            Some(b) => r is Some && r->0@ == b,
            None => r is None,
        },
{
    proof {
        reveal_strlit("name");
        reveal_strlit("id");
    }
    let kn = quote_json("name");
    let vn = quote_json(name);
    let ki = quote_json("id");
    assert("name"@ == seq!['n', 'a', 'm', 'e']);
    assert("id"@ == seq!['i', 'd']);
    match (kn, vn, ki) {
        (Some(kn), Some(vn), Some(ki)) => Some(frame_pair(&kn, &vn, &ki, &decimal_bytes(1001))),
        _ => None,
    }
}

/// The user as JSON, number first.
pub fn user_json(name: &str) -> (r: Option<Vec<u8>>)
    ensures
        r is Some,
        plain_json_text(name@) ==> r->0@ == pair_object(
            quoted(seq!['i', 'd']),
            decimal(user_id()),
            quoted(seq!['n', 'a', 'm', 'e']),
            quoted(name@),
        ),
        match user_json_id_first(name@) {
            Some(b) => r is Some && r->0@ == b,
            None => r is None,
        },
{
    proof {
        reveal_strlit("name");
        reveal_strlit("id");
    }
    let ki = quote_json("id");
    let kn = quote_json("name");
    let vn = quote_json(name);
    assert("name"@ == seq!['n', 'a', 'm', 'e']);
    assert("id"@ == seq!['i', 'd']);
    match (ki, kn, vn) {
        (Some(ki), Some(kn), Some(vn)) => Some(frame_pair(&ki, &decimal_bytes(1001), &kn, &vn)),
        _ => None,
    }
}

/// `{"hello":"world"}`.
pub fn get_some_json() -> (r: Option<Vec<u8>>)
    ensures
        r is Some,
        r->0@ == object_of(
            quoted(seq!['h', 'e', 'l', 'l', 'o']),
            quoted(seq!['w', 'o', 'r', 'l', 'd']),
        ),
        match hello_world_json() {
            Some(b) => r is Some && r->0@ == b,
            None => r is None,
        },
{
    proof {
        reveal_strlit("hello");
        reveal_strlit("world");
    }
    let k = quote_json("hello");
    let v = quote_json("world");
    assert("hello"@ == seq!['h', 'e', 'l', 'l', 'o']);
    assert("world"@ == seq!['w', 'o', 'r', 'l', 'd']);
    match (k, v) {
        (Some(k), Some(v)) => Some(crate::json::frame_object(&k, &v)),
        _ => None,
    }
}

/// Reads the payload with its string field `foo`: JSON or form by content type.
pub fn read_payload(headers: &Vec<Header>, body: &[u8]) -> (r: Result<(), ExtractionErrorKind>)
    ensures
        r == payload_result(headers_view(headers@), body@),
{
    match json_or_form(headers) {
        Err(e) => Err(e),
        Ok(BodyFormat::Json) => {
            proof {
                reveal_strlit("foo");
            }
            assert("foo"@ == seq!['f', 'o', 'o']);
            match json_text_field(body, "foo") {
                Ok(_) => Ok(()),
                Err(e) => Err(e),
            }
        },
        Ok(BodyFormat::Form) => {
            let field = String::from_str("foo");
            proof {
                reveal_strlit("foo");
            }
            assert(field@ == seq!['f', 'o', 'o']);
            match form_text_field(body, &field) {
                Ok(_) => Ok(()),
                Err(e) => Err(e),
            }
        },
    }
}

impl Handler {
    /// Runs the handler on a request's headers and body.
    pub fn run(&self, headers: &Vec<Header>, body: &[u8]) -> (r: Result<Reply, ExtractionErrorKind>)
        ensures
            match handler_reply(*self, headers_view(headers@), body@) {
                Ok(v) => r is Ok && r->Ok_0@ == v,
                Err(e) => r == Err::<Reply, ExtractionErrorKind>(e),
            },
    {
        match self {
            Handler::Text(t) => {
                let mut b: Vec<u8> = Vec::new();
                append_bytes(&mut b, t);
                assert(b@ == t@);
                Ok(Reply::Respond(text_response(b)))
            },
            Handler::Hey => {
                proof {
                    reveal_strlit("cdd");
                }
                assert("cdd"@ == seq!['c', 'd', 'd']);
                Ok(Reply::Respond(json_body_response(hey_json("cdd"))))
            },
            Handler::DoSomething => Ok(Reply::Respond(ApiResponse::OK.into_response())),
            Handler::FailingHey => Ok(
                Reply::Respond(result_into_response(Err(ApiError::InternalServerError))),
            ),
            Handler::GetSomeJson => Ok(Reply::Respond(json_body_response(get_some_json()))),
            Handler::GetUser => {
                proof {
                    reveal_strlit("rust");
                }
                assert("rust"@ == seq!['r', 'u', 's', 't']);
                Ok(Reply::Respond(json_body_response(user_json("rust"))))
            },
            Handler::Payload => match read_payload(headers, body) {
                Ok(()) => Ok(Reply::Respond(status_only(STATUS_OK))),
                Err(e) => Err(e),
            },
            Handler::QueryUsers => Ok(Reply::Query),
            Handler::EchoUser => match echo_user(headers, body) {
                Ok(t) => Ok(Reply::Respond(text_response(t))),
                Err(e) => Err(e),
            },
        }
    }
}

} // verus!
