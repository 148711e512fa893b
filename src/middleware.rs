use vstd::prelude::*;

use crate::http::{
    content_type_name, content_type_name_bytes, find_header, header_value, headers_view,
    json_mime, Header, STATUS_BAD_REQUEST,
};
use crate::pattern::{bytes_equal};

verus! {

/// A stage in front of a handler.
#[derive(Debug)]
pub enum Middleware {
    /// Lets the request through only when the header called `name` has exactly `value`.
    RequireHeader { name: Vec<u8>, value: Vec<u8> },
}

/// Whether a stage lets a request with these headers through.
pub open spec fn guard_passes(mw: Middleware, hs: Seq<(Seq<u8>, Seq<u8>)>) -> bool {
    match mw {
        Middleware::RequireHeader { name, value } => header_value(hs, name@) == Some(value@),
    }
}

/// Whether every stage of a chain lets a request with these headers through.
pub open spec fn chain_passes(mws: Seq<Middleware>, hs: Seq<(Seq<u8>, Seq<u8>)>) -> bool {
    forall|i: int| 0 <= i < mws.len() ==> #[trigger] guard_passes(mws[i], hs)
}

impl Middleware {
    /// The stage that admits only requests whose content type is exactly
    /// `application/json`.
    pub fn require_json() -> (r: Middleware)
        ensures
            r == (Middleware::RequireHeader { name: r->name, value: r->value }),
            r->name@ == content_type_name(),
            r->value@ == json_mime(),
    {
        Middleware::RequireHeader { name: content_type_name_bytes(), value: json_mime_bytes() }
    }

    /// Runs the stage: `Err(400)` rejects the request.
    pub fn check(&self, headers: &Vec<Header>) -> (r: Result<(), u16>)
        ensures
            r is Ok <==> guard_passes(*self, headers_view(headers@)),
            r is Err ==> r == Err::<(), u16>(STATUS_BAD_REQUEST),
    {
        match self {
            Middleware::RequireHeader { name, value } => match find_header(headers, name) {
                Some(v) => if bytes_equal(v, value) {
                    Ok(())
                } else {
                    Err(STATUS_BAD_REQUEST)
                },
                None => Err(STATUS_BAD_REQUEST),
            },
        }
    }
}

pub fn json_mime_bytes() -> (r: Vec<u8>)
    ensures
        r@ == json_mime(),
{
    let r: Vec<u8> = vec![
        0x61, 0x70, 0x70, 0x6c, 0x69, 0x63, 0x61, 0x74, 0x69, 0x6f, 0x6e, 0x2f,
        0x6a, 0x73, 0x6f, 0x6e,
    ];
    assert(r@ == json_mime());
    r
}

/// Runs a chain of stages in order; the first that rejects ends the request
/// with its status, and the handler behind the chain is not reached.
pub fn run_chain(mws: &Vec<Middleware>, headers: &Vec<Header>) -> (r: Result<(), u16>)
    ensures
        r is Ok <==> chain_passes(mws@, headers_view(headers@)),
        r is Err ==> r == Err::<(), u16>(STATUS_BAD_REQUEST),
{
    let mut i: usize = 0;
    while i < mws.len()
        invariant
            i <= mws@.len(),
            forall|k: int| 0 <= k < i ==> #[trigger] guard_passes(mws@[k], headers_view(headers@)),
        decreases mws.len() - i,
    {
        let c = mws[i].check(headers);
        if c.is_err() {
            return c;
        }
        i = i + 1;
    }
    Ok(())
}

/// The guard that answers `400 Bad Request` unless the request's content type
/// is exactly `application/json`.
pub fn check_hello_world(headers: &Vec<Header>) -> (r: Result<(), u16>)
    ensures
        r is Ok <==> header_value(headers_view(headers@), content_type_name()) == Some(json_mime()),
        r is Err ==> r == Err::<(), u16>(STATUS_BAD_REQUEST),
{
    Middleware::require_json().check(headers)
}

} // verus!
