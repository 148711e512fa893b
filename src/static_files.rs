use vstd::prelude::*;

use crate::http::{ResponseView, Response, STATUS_NOT_FOUND, STATUS_OK};
use crate::json::append_bytes;
use crate::path::{views_of, SLASH};

verus! {

/// A directory of files served for paths that no route matches, and the file
/// served where the directory has none for the path.
#[derive(Debug)]
pub struct StaticMount {
    pub dir: Vec<u8>,
    pub fallback: Vec<u8>,
}

/// `..`
pub open spec fn parent_dir() -> Seq<u8> {
    seq![0x2eu8, 0x2eu8]
}

/// `/index.html`
pub open spec fn index_file() -> Seq<u8> {
    seq![0x2fu8, 0x69, 0x6e, 0x64, 0x65, 0x78, 0x2e, 0x68, 0x74, 0x6d, 0x6c]
}

/// Each segment with a `/` in front, one after the other.
pub open spec fn joined(segs: Seq<Seq<u8>>) -> Seq<u8>
    decreases segs.len(),
{
    if segs.len() == 0 {
        Seq::empty()
    } else {
        joined(segs.drop_last()) + seq![SLASH] + segs.last()
    }
}

/// `index.html`
pub open spec fn index_name() -> Seq<u8> {
    index_file().drop_first()
}

/// The value of a hexadecimal digit.
pub open spec fn hex_value(b: u8) -> Option<u8> {
    if 0x30 <= b <= 0x39 {
        Some((b - 0x30) as u8)
    } else if 0x41 <= b <= 0x46 {
        Some((b - 0x37) as u8)
    } else if 0x61 <= b <= 0x66 {
        Some((b - 0x57) as u8)
    } else {
        None
    }
}

/// `s` with each `%` and two hexadecimal digits replaced by the byte they
/// write; a `%` not followed by two digits stays as it is.
pub open spec fn percent_decoded(s: Seq<u8>) -> Seq<u8>
    decreases s.len(),
{
    if s.len() == 0 {
        Seq::empty()
    } else if s.len() >= 3 && s[0] == 0x25 && hex_value(s[1]) is Some && hex_value(s[2]) is Some {
        seq![(hex_value(s[1])->0 * 16 + hex_value(s[2])->0) as u8] + percent_decoded(s.skip(3))
    } else {
        seq![s[0]] + percent_decoded(s.drop_first())
    }
}

/// The decoded segments below the mount point: all but the leading one.
pub open spec fn served_segments(segs: Seq<Seq<u8>>) -> Seq<Seq<u8>> {
    let rest = if segs.len() > 0 {
        segs.drop_first()
    } else {
        Seq::empty()
    };
    rest.map_values(|x: Seq<u8>| percent_decoded(x))
}

/// A decoded segment that could leave the directory: `..`, or one that
/// holds a `/`.
pub open spec fn escapes(s: Seq<u8>) -> bool {
    s == parent_dir() || s.contains(SLASH)
}

/// The file under `dir` that a split path names: the directory's
/// `index.html` for the root and for a path that ends with `/`; nothing for a
/// path that could climb out of `dir`.
pub open spec fn static_target(dir: Seq<u8>, segs: Seq<Seq<u8>>) -> Option<Seq<u8>> {
    let rest = served_segments(segs);
    if exists|i: int| 0 <= i < rest.len() && escapes(#[trigger] rest[i]) {
        None
    } else if rest.len() == 0 {
        Some(dir + index_file())
    } else if rest.last().len() == 0 {
        Some(dir + joined(rest) + index_name())
    } else {
        Some(dir + joined(rest))
    }
}

fn hex_value_exec(b: u8) -> (r: Option<u8>)
    ensures
        r == hex_value(b),
{
    if 0x30 <= b && b <= 0x39 {
        Some(b - 0x30)
    } else if 0x41 <= b && b <= 0x46 {
        Some(b - 0x37)
    } else if 0x61 <= b && b <= 0x66 {
        Some(b - 0x57)
    } else {
        None
    }
}

/// Decodes `%XX` escapes.
pub fn percent_decode(s: &[u8]) -> (r: Vec<u8>)
    ensures
        r@ == percent_decoded(s@),
{
    let mut out: Vec<u8> = Vec::new();
    let mut i: usize = 0;
    assert(s@.skip(0) == s@);
    while i < s.len()
        invariant
            i <= s@.len(),
            out@ + percent_decoded(s@.skip(i as int)) == percent_decoded(s@),
        decreases s.len() - i,
    {
        let ghost t = s@.skip(i as int);
        assert(t[0] == s@[i as int]);
        if s.len() - i > 2 && s[i] == 0x25 {
            let hi = hex_value_exec(s[i + 1]);
            let lo = hex_value_exec(s[i + 2]);
            assert(t[1] == s@[i + 1] && t[2] == s@[i + 2]);
            if hi.is_some() && lo.is_some() {
                let v = hi.unwrap() * 16 + lo.unwrap();
                assert(t.skip(3) == s@.skip(i + 3));
                assert(out@.push(v) + percent_decoded(s@.skip(i + 3)) == out@ + percent_decoded(t));
                out.push(v);
                i = i + 3;
                continue;
            }
        }
        assert(t.drop_first() == s@.skip(i + 1));
        assert(out@.push(s[i as int]) + percent_decoded(s@.skip(i + 1)) == out@ + percent_decoded(t));
        out.push(s[i]);
        i = i + 1;
    }
    assert(s@.skip(i as int) == Seq::<u8>::empty());
    assert(out@ + Seq::<u8>::empty() == out@);
    out
}

fn escapes_exec(s: &Vec<u8>) -> (r: bool)
    ensures
        r == escapes(s@),
{
    if is_parent_dir(s) {
        return true;
    }
    let mut i: usize = 0;
    while i < s.len()
        invariant
            i <= s@.len(),
            forall|k: int| 0 <= k < i ==> s@[k] != SLASH,
        decreases s.len() - i,
    {
        if s[i] == SLASH {
            assert(s@.contains(SLASH));
            return true;
        }
        i = i + 1;
    }
    false
}

/// What is served: the file's contents, else the fallback file's, with `200`;
/// `404` only where the fallback file is missing too.
pub open spec fn static_view(file: Option<Seq<u8>>, fallback: Option<Seq<u8>>) -> ResponseView {
    match (file, fallback) {
        (Some(c), _) => ResponseView { status: STATUS_OK, headers: Seq::empty(), body: c },
        (None, Some(f)) => ResponseView { status: STATUS_OK, headers: Seq::empty(), body: f },
        (None, None) => ResponseView {
            status: STATUS_NOT_FOUND,
            headers: Seq::empty(),
            body: Seq::empty(),
        },
    }
}

fn is_parent_dir(s: &Vec<u8>) -> (r: bool)
    ensures
        r == (s@ == parent_dir()),
{
    let r = s.len() == 2 && s[0] == 0x2e && s[1] == 0x2e;
    if r {
        assert(s@ =~= parent_dir());
    }
    r
}

/// The path of the file to read for the split path `segs`, if any.
pub fn static_file_path(dir: &[u8], segs: &Vec<Vec<u8>>) -> (r: Option<Vec<u8>>)
    ensures
        match static_target(dir@, views_of(segs@)) {
            Some(p) => r is Some && r->0@ == p,
            None => r is None,
        },
{
    let ghost vs = views_of(segs@);
    let ghost rest = served_segments(vs);
    let mut dec: Vec<Vec<u8>> = Vec::new();
    let mut i: usize = 1;
    while i < segs.len()
        invariant
            1 <= i,
            vs == views_of(segs@),
            rest == served_segments(vs),
            segs@.len() == 0 ==> dec@.len() == 0,
            segs@.len() > 0 ==> i <= segs@.len() && views_of(dec@) == rest.take(i - 1),
        decreases segs.len() - i,
    {
        let d = percent_decode(&segs[i]);
        let ghost before = dec@;
        dec.push(d);
        assert(rest[i - 1] == percent_decoded(vs[i as int]));
        assert(rest.take(i as int) == rest.take(i - 1).push(rest[i - 1]));
        assert(views_of(dec@) == views_of(before).push(d@));
        i = i + 1;
    }
    let ghost ds = views_of(dec@);
    assert(ds == rest) by {
        if segs@.len() > 0 {
            assert(rest.take(rest.len() as int) == rest);
        } else {
            assert(rest.len() == 0);
        }
    }
    let mut j: usize = 0;
    while j < dec.len()
        invariant
            j <= dec@.len(),
            ds == views_of(dec@),
            ds == served_segments(views_of(segs@)),
            forall|k: int| 0 <= k < j ==> !escapes(#[trigger] ds[k]),
        decreases dec.len() - j,
    {
        if escapes_exec(&dec[j]) {
            assert(escapes(ds[j as int]));
            return None;
        }
        j = j + 1;
    }
    let mut out: Vec<u8> = Vec::new();
    append_bytes(&mut out, dir);
    let mut k: usize = 0;
    while k < dec.len()
        invariant
            k <= dec@.len(),
            ds == views_of(dec@),
            ds == served_segments(views_of(segs@)),
            forall|m: int| 0 <= m < ds.len() ==> !escapes(#[trigger] ds[m]),
            out@ == dir@ + joined(ds.take(k as int)),
        decreases dec.len() - k,
    {
        assert(ds.take(k + 1).drop_last() == ds.take(k as int));
        out.push(SLASH);
        append_bytes(&mut out, &dec[k]);
        k = k + 1;
    }
    assert(ds.take(dec@.len() as int) == ds);
    if dec.len() == 0 {
        let index: Vec<u8> = vec![0x2f, 0x69, 0x6e, 0x64, 0x65, 0x78, 0x2e, 0x68, 0x74, 0x6d, 0x6c];
        assert(index@ == index_file());
        append_bytes(&mut out, &index);
        assert(joined(ds) == Seq::<u8>::empty());
    } else if dec[dec.len() - 1].len() == 0 {
        let name: Vec<u8> = vec![0x69, 0x6e, 0x64, 0x65, 0x78, 0x2e, 0x68, 0x74, 0x6d, 0x6c];
        assert(name@ == index_name());
        assert(ds.last() == dec@[dec@.len() - 1]@);
        append_bytes(&mut out, &name);
    }
    Some(out)
}

/// The response for a static file, given the contents read for the path and
/// for the fallback file (`None` for a file that is not there).
pub fn static_response(file: Option<Vec<u8>>, fallback: Option<Vec<u8>>) -> (r: Response)
    ensures
        r@ == static_view(
            match file {
                Some(c) => Some(c@),
                None => None,
            },
            match fallback {
                Some(f) => Some(f@),
                None => None,
            },
        ),
{
    let (status, body) = match (file, fallback) {
        (Some(c), _) => (STATUS_OK, c),
        (None, Some(f)) => (STATUS_OK, f),
        (None, None) => (STATUS_NOT_FOUND, Vec::new()),
    };
    let r = Response { status, headers: Vec::new(), body };
    assert(crate::http::headers_view(r.headers@) == Seq::<(Seq<u8>, Seq<u8>)>::empty());
    r
}

/// A path that no file answers is served the fallback file, with `200`.
pub proof fn lemma_missing_file_serves_fallback(fallback: Seq<u8>)
    ensures
        static_view(None, Some(fallback)).status == STATUS_OK,
        static_view(None, Some(fallback)).body == fallback,
{
}

} // verus!
