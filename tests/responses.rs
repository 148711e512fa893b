use axum_demo::extract::{json_or_form, json_text_field, BodyFormat, ExtractionErrorKind};
use axum_demo::form::form_text_field;
use axum_demo::handler::{decimal_bytes, frame_pair, frame_user_text, signed_decimal_bytes, get_some_json, hey_json, user_json};
use axum_demo::http::{find_header, Header};
use axum_demo::respond::{ApiError, ApiResponse, Message};

fn ct(v: &[u8]) -> Vec<Header> {
    vec![Header::new(b"Content-Type", v)]
}

#[test]
fn api_errors_map_to_statuses() {
    assert_eq!(ApiError::BadRequest.into_response().status, 400);
    assert_eq!(ApiError::Forbidden.into_response().status, 403);
    assert_eq!(ApiError::Unauthorised.into_response().status, 401);
    assert_eq!(ApiError::InternalServerError.into_response().status, 500);
    let r = ApiError::UserDefineError.into_response();
    assert_eq!(r.status, 200);
    assert_eq!(r.body, b"User define error".to_vec());
    assert_eq!(r.headers[0].value, b"text/plain; charset=utf-8".to_vec());
}

#[test]
fn api_responses_map_to_statuses() {
    let ok = ApiResponse::OK.into_response();
    assert_eq!((ok.status, ok.body.len()), (200, 0));
    assert_eq!(ApiResponse::Created.into_response().status, 201);
}

#[test]
fn json_data_is_an_array_of_messages() {
    let ms = vec![
        Message { message: "hi".to_string() },
        Message { message: "a\"b".to_string() },
    ];
    let r = ApiResponse::JsonData(ms).into_response();
    assert_eq!(r.status, 200);
    assert_eq!(
        String::from_utf8(r.body).unwrap(),
        r#"[{"message":"hi"},{"message":"a\"b"}]"#
    );
    assert_eq!(r.headers[0].value, b"application/json".to_vec());
    let empty = ApiResponse::JsonData(Vec::new()).into_response();
    assert_eq!(empty.body, b"[]".to_vec());
}

#[test]
fn users_encode_in_field_order() {
    assert_eq!(hey_json("cdd").unwrap(), br#"{"name":"cdd","id":1001}"#.to_vec());
    assert_eq!(user_json("rust").unwrap(), br#"{"id":1001,"name":"rust"}"#.to_vec());
    assert_eq!(get_some_json().unwrap(), br#"{"hello":"world"}"#.to_vec());
    assert_eq!(hey_json("a\nb").unwrap(), br#"{"name":"a\nb","id":1001}"#.to_vec());
}

#[test]
fn decimal_digits() {
    assert_eq!(decimal_bytes(0), b"0".to_vec());
    assert_eq!(decimal_bytes(1001), b"1001".to_vec());
    assert_eq!(decimal_bytes(u64::MAX), b"18446744073709551615".to_vec());
}

#[test]
fn header_names_ignore_case() {
    let hs = ct(b"application/json");
    assert_eq!(find_header(&hs, b"content-type"), Some(&b"application/json".to_vec()));
    assert_eq!(find_header(&hs, b"CONTENT-TYPE"), Some(&b"application/json".to_vec()));
    assert_eq!(find_header(&hs, b"accept"), None);
}

#[test]
fn content_type_selects_extractor() {
    assert_eq!(json_or_form(&ct(b"application/json")), Ok(BodyFormat::Json));
    assert_eq!(json_or_form(&ct(b"application/json; charset=utf-8")), Ok(BodyFormat::Json));
    assert_eq!(json_or_form(&ct(b"application/x-www-form-urlencoded")), Ok(BodyFormat::Form));
    assert_eq!(
        json_or_form(&ct(b"text/plain")),
        Err(ExtractionErrorKind::UnsupportedMediaType)
    );
    assert_eq!(json_or_form(&Vec::new()), Err(ExtractionErrorKind::UnsupportedMediaType));
    assert_eq!(
        json_or_form(&ct(b"application/json\x01")),
        Err(ExtractionErrorKind::UnsupportedMediaType)
    );
    assert_eq!(ExtractionErrorKind::UnsupportedMediaType.status(), 415);
}

#[test]
fn json_fields_are_read_or_reported() {
    assert_eq!(json_text_field(br#"{"foo":"bar"}"#, "foo"), Ok("bar".to_string()));
    assert_eq!(json_text_field(br#"{"foo":"aA"}"#, "foo"), Ok("aA".to_string()));
    assert_eq!(
        json_text_field(br#"{"other":"bar"}"#, "foo"),
        Err(ExtractionErrorKind::MissingField)
    );
    assert_eq!(json_text_field(br#"{"foo":1}"#, "foo"), Err(ExtractionErrorKind::MissingField));
    assert_eq!(json_text_field(b"{", "foo"), Err(ExtractionErrorKind::MalformedBody));
    assert_eq!(ExtractionErrorKind::MissingField.status(), 422);
    assert_eq!(ExtractionErrorKind::MalformedBody.status(), 400);
}

#[test]
fn form_fields_are_decoded() {
    let foo = "foo".to_string();
    assert_eq!(form_text_field(b"a=1&foo=x+y%21", &foo), Ok("x y!".to_string()));
    assert_eq!(form_text_field(b"foo=first&foo=second", &foo), Ok("first".to_string()));
    assert_eq!(form_text_field(b"a=1", &foo), Err(ExtractionErrorKind::MissingField));
    assert_eq!(form_text_field(b"", &foo), Err(ExtractionErrorKind::MissingField));
}

#[test]
fn user_defined_error_status_is_configurable() {
    let r = ApiError::UserDefineError.into_response_with(418);
    assert_eq!(r.status, 418);
    assert_eq!(r.body, b"User define error".to_vec());
    assert_eq!(ApiError::Forbidden.into_response_with(418).status, 403);
}

#[test]
fn pair_framing() {
    assert_eq!(frame_pair(b"\"a\"", b"1", b"\"b\"", b"[]"), br#"{"a":1,"b":[]}"#.to_vec());
}

#[test]
fn user_text_framing() {
    assert_eq!(
        frame_user_text(1001, "\"rust\""),
        b"The contents of user is: User { id: 1001, name: \"rust\" }".to_vec()
    );
    assert_eq!(signed_decimal_bytes(i64::MIN), b"-9223372036854775808".to_vec());
    assert_eq!(signed_decimal_bytes(-1), b"-1".to_vec());
}
