use vstd::prelude::*;

verus! {

/// The byte `/` that separates the segments of a path.
pub const SLASH: u8 = 0x2f;

/// The byte `:` that opens a named parameter segment of a pattern.
pub const COLON: u8 = 0x3a;

/// Splitting state after reading `s`: the finished segments and the one in progress.
pub open spec fn split_state(s: Seq<u8>) -> (Seq<Seq<u8>>, Seq<u8>)
    decreases s.len(),
{
    if s.len() == 0 {
        (Seq::empty(), Seq::empty())
    } else {
        let (done, cur) = split_state(s.drop_last());
        if s.last() == SLASH {
            (done.push(cur), Seq::empty())
        } else {
            (done, cur.push(s.last()))
        }
    }
}

/// The `/`-separated segments of a path, in order, empty ones included: `/`
/// gives two empty segments, `/a` gives the empty segment and `a`, `/a/`
/// gives the empty segment, `a` and the empty segment. Distinct paths give
/// distinct segments.
pub open spec fn path_segments(s: Seq<u8>) -> Seq<Seq<u8>> {
    let (done, cur) = split_state(s);
    done.push(cur)
}

pub open spec fn views_of(v: Seq<Vec<u8>>) -> Seq<Seq<u8>> {
    v.map_values(|x: Vec<u8>| x@)
}

/// Splits a path at every `/`, keeping empty segments: `/a/b/` gives ``,
/// `a`, `b` and ``.
pub fn split_path(path: &[u8]) -> (r: Vec<Vec<u8>>)
    ensures
        views_of(r@) == path_segments(path@),
{
    let mut done: Vec<Vec<u8>> = Vec::new();
    let mut cur: Vec<u8> = Vec::new();
    let mut i: usize = 0;
    while i < path.len()
        invariant
            i <= path@.len(),
            split_state(path@.take(i as int)) == (views_of(done@), cur@),
        decreases path.len() - i,
    {
        let b = path[i];
        assert(path@.take(i + 1).drop_last() == path@.take(i as int));
        if b == SLASH {
            done.push(cur);
            cur = Vec::new();
            assert(views_of(done@) == split_state(path@.take(i as int)).0.push(
                split_state(path@.take(i as int)).1,
            ));
        } else {
            cur.push(b);
        }
        i = i + 1;
    }
    assert(path@.take(path@.len() as int) == path@);
    let ghost before = done@;
    done.push(cur);
    assert(views_of(done@) == views_of(before).push(cur@));
    done
}

} // verus!
