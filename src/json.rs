use vstd::prelude::*;

verus! {

/// What `serde_json::to_vec` makes of a string: the quoted, escaped JSON
/// string, or `None` where it reports an error.
pub uninterp spec fn json_string_of(s: Seq<char>) -> Option<Seq<u8>>;

/// What `serde_json::from_slice` into a `serde_json::Value` reads from `body`,
/// asked for the string under `field`: `None` where the body is no JSON,
/// `Some(None)` where it is no object with a string under that key.
pub uninterp spec fn json_text_field_of(body: Seq<u8>, field: Seq<char>) -> Option<Option<Seq<char>>>;

/// Characters that JSON writes as they are: printable ASCII but `"` and `\`.
pub open spec fn plain_json_text(s: Seq<char>) -> bool {
    forall|i: int|
        0 <= i < s.len() ==> 0x20 <= (#[trigger] s[i]) as u32 <= 0x7e && s[i] != '"' && s[i]
            != '\\'
}

/// The bytes of ASCII characters.
pub open spec fn ascii_of(s: Seq<char>) -> Seq<u8> {
    s.map_values(|c: char| c as u8)
}

/// `s` between double quotes.
pub open spec fn quoted(s: Seq<char>) -> Seq<u8> {
    seq![0x22u8] + ascii_of(s) + seq![0x22u8]
}

/// What `serde_json::from_slice` into a `serde_json::Value` reads from `body`,
/// asked for the integer under `field` as an `i64`: `None` where the body is
/// no JSON, `Some(None)` where it is no object with such an integer there.
pub uninterp spec fn json_int_field_of(body: Seq<u8>, field: Seq<char>) -> Option<Option<i64>>;

/// What `format!("{:?}", s)` writes for a string: its `Debug` form.
pub uninterp spec fn debug_text_of(s: Seq<char>) -> Seq<char>;

/// Relies on serde_json::from_slice to read the body as a JSON value, and on
/// serde_json::Value's `get` and `as_i64` to pick the integer under `field`.
#[verifier::external_body]
pub(crate) fn read_json_int_field(body: &[u8], field: &str) -> (r: Option<Option<i64>>)
    ensures
        r == json_int_field_of(body@, field@),
{
    match serde_json::from_slice::<serde_json::Value>(body) {
        Ok(v) => Some(v.get(field).and_then(|x| x.as_i64())),
        Err(_) => None,
    }
}

/// Relies on the `Debug` form of `str` that `format!` writes: the string
/// quoted, with its special characters escaped.
#[verifier::external_body]
pub(crate) fn debug_text(s: &str) -> (r: String)
    ensures
        r@ == debug_text_of(s@),
{
    format!("{:?}", s)
}

/// Relies on serde_json::to_vec to quote and escape a string as JSON. Writing
/// a string into a `Vec` does not fail, and its escape table leaves printable
/// ASCII but `"` and `\` as it is.
#[verifier::external_body]
pub(crate) fn quote_json(s: &str) -> (r: Option<Vec<u8>>)
    ensures
        r is Some,
        plain_json_text(s@) ==> r->0@ == quoted(s@),
        match r {
            Some(v) => json_string_of(s@) == Some(v@),
            None => json_string_of(s@) is None,
        },
{
    serde_json::to_vec(s).ok()
}

/// Relies on serde_json::from_slice to read the body as a JSON value, and on
/// serde_json::Value's `get` and `as_str` to pick the string under `field`.
#[verifier::external_body]
pub(crate) fn read_json_text_field(body: &[u8], field: &str) -> (r: Option<Option<String>>)
    ensures
        match r {
            None => json_text_field_of(body@, field@) is None,
            Some(None) => json_text_field_of(body@, field@) == Some(None::<Seq<char>>),
            Some(Some(s)) => json_text_field_of(body@, field@) == Some(Some(s@)),
        },
{
    match serde_json::from_slice::<serde_json::Value>(body) {
        Ok(v) => Some(v.get(field).and_then(|x| x.as_str()).map(|x| x.to_string())),
        Err(_) => None,
    }
}

/// `{"<key>":<value>}` for an already quoted key.
pub open spec fn object_of(key: Seq<u8>, value: Seq<u8>) -> Seq<u8> {
    seq![0x7bu8] + key + seq![0x3au8] + value + seq![0x7du8]
}

/// The JSON array of the already encoded items, separated by commas.
pub open spec fn array_items(items: Seq<Seq<u8>>) -> Seq<u8>
    decreases items.len(),
{
    if items.len() == 0 {
        Seq::empty()
    } else if items.len() == 1 {
        items[0]
    } else {
        array_items(items.drop_last()) + seq![0x2cu8] + items.last()
    }
}

pub open spec fn array_of(items: Seq<Seq<u8>>) -> Seq<u8> {
    seq![0x5bu8] + array_items(items) + seq![0x5du8]
}

/// Appends `b` to `out`.
pub fn append_bytes(out: &mut Vec<u8>, b: &[u8])
    ensures
        final(out)@ == old(out)@ + b@,
{
    let mut i: usize = 0;
    while i < b.len()
        invariant
            i <= b@.len(),
            out@ == old(out)@ + b@.take(i as int),
        decreases b.len() - i,
    {
        out.push(b[i]);
        assert(b@.take(i + 1) == b@.take(i as int).push(b[i as int]));
        i = i + 1;
    }
    assert(b@.take(b@.len() as int) == b@);
}

/// `{<key>:<value>}` for an already quoted key and an encoded value.
pub fn frame_object(key: &[u8], value: &[u8]) -> (r: Vec<u8>)
    ensures
        r@ == object_of(key@, value@),
{
    let mut out: Vec<u8> = Vec::new();
    out.push(0x7b);
    append_bytes(&mut out, key);
    out.push(0x3a);
    append_bytes(&mut out, value);
    out.push(0x7d);
    out
}

/// The JSON array of already encoded items.
pub fn encode_array(items: &Vec<Vec<u8>>) -> (r: Vec<u8>)
    ensures
        r@ == array_of(items@.map_values(|x: Vec<u8>| x@)),
{
    let ghost vs = items@.map_values(|x: Vec<u8>| x@);
    let mut out: Vec<u8> = Vec::new();
    out.push(0x5b);
    let mut i: usize = 0;
    while i < items.len()
        invariant
            i <= items@.len(),
            vs == items@.map_values(|x: Vec<u8>| x@),
            out@ == seq![0x5bu8] + array_items(vs.take(i as int)),
        decreases items.len() - i,
    {
        assert(vs.take(i + 1).drop_last() == vs.take(i as int));
        if i > 0 {
            out.push(0x2c);
        }
        append_bytes(&mut out, &items[i]);
        i = i + 1;
    }
    assert(vs.take(items@.len() as int) == vs);
    out.push(0x5d);
    out
}

} // verus!
