use vstd::prelude::*;

use crate::path::{path_segments, split_path, split_state, views_of, COLON, SLASH};

verus! {

/// One segment of a route pattern: a literal that must equal the path
/// segment, or a named parameter (`:name`) that matches any non-empty segment.
#[derive(Debug)]
pub enum Segment {
    Literal(Vec<u8>),
    Param(Vec<u8>),
}

pub enum SegmentView {
    Literal(Seq<u8>),
    Param(Seq<u8>),
}

impl View for Segment {
    type V = SegmentView;

    open spec fn view(&self) -> SegmentView {
        match self {
            Segment::Literal(l) => SegmentView::Literal(l@),
            Segment::Param(n) => SegmentView::Param(n@),
        }
    }
}

pub open spec fn pattern_view(p: Seq<Segment>) -> Seq<SegmentView> {
    p.map_values(|s: Segment| s@)
}

/// The pattern segment that a path segment denotes: `:name` is a parameter.
pub open spec fn segment_of(s: Seq<u8>) -> SegmentView {
    if s.len() > 0 && s[0] == COLON {
        SegmentView::Param(s.drop_first())
    } else {
        SegmentView::Literal(s)
    }
}

/// The pattern that a pattern string denotes.
pub open spec fn pattern_of(p: Seq<u8>) -> Seq<SegmentView> {
    path_segments(p).map_values(|s: Seq<u8>| segment_of(s))
}

/// The pattern of `/<w>`, for a `w` without `/` that does not open with `:`,
/// is the empty literal and the literal `w`; for the root `/`, `w` is empty.
pub proof fn lemma_one_literal_pattern(w: Seq<u8>)
    requires
        forall|i: int| 0 <= i < w.len() ==> w[i] != SLASH,
        w.len() == 0 || w[0] != COLON,
    ensures
        pattern_of(seq![SLASH] + w) == seq![
            SegmentView::Literal(Seq::empty()),
            SegmentView::Literal(w),
        ],
{
    let s = seq![SLASH] + w;
    assert forall|k: int| 0 <= k <= w.len() implies #[trigger] split_state(
        s.take(k + 1),
    ) == (seq![Seq::<u8>::empty()], w.take(k)) by {
        lemma_split_prefix(w, k);
    }
    assert(s.take(w.len() as int + 1) == s);
    assert(split_state(s.take(w.len() as int + 1)) == (
        seq![Seq::<u8>::empty()],
        w.take(w.len() as int),
    ));
    assert(w.take(w.len() as int) == w);
    assert(path_segments(s) == seq![Seq::<u8>::empty(), w]);
    assert(segment_of(Seq::<u8>::empty()) == SegmentView::Literal(Seq::<u8>::empty()));
    assert(path_segments(s).map_values(|x: Seq<u8>| segment_of(x)) =~= seq![
        segment_of(Seq::<u8>::empty()),
        segment_of(w),
    ]);
}

proof fn lemma_split_prefix(w: Seq<u8>, k: int)
    requires
        0 <= k <= w.len(),
        forall|i: int| 0 <= i < w.len() ==> w[i] != SLASH,
    ensures
        split_state((seq![SLASH] + w).take(k + 1)) == (seq![Seq::<u8>::empty()], w.take(k)),
    decreases k,
{
    let s = seq![SLASH] + w;
    if k == 0 {
        assert(s.take(1) == seq![SLASH]);
        assert(seq![SLASH].drop_last() == Seq::<u8>::empty());
        assert(w.take(0) == Seq::<u8>::empty());
        reveal_with_fuel(split_state, 2);
        assert(Seq::<Seq<u8>>::empty().push(Seq::<u8>::empty()) == seq![Seq::<u8>::empty()]);
    } else {
        lemma_split_prefix(w, k - 1);
        assert(s.take(k + 1).drop_last() == s.take(k));
        assert(s.take(k + 1).last() == w[k - 1]);
        assert(w.take(k) == w.take(k - 1).push(w[k - 1]));
    }
}

pub open spec fn segment_matches(p: SegmentView, s: Seq<u8>) -> bool {
    match p {
        SegmentView::Literal(l) => l == s,
        SegmentView::Param(_) => s.len() > 0,
    }
}

/// A pattern matches a split path when it has as many segments and each
/// literal equals the path segment at its place.
pub open spec fn pattern_matches(p: Seq<SegmentView>, segs: Seq<Seq<u8>>) -> bool {
    &&& p.len() == segs.len()
    &&& forall|i: int| 0 <= i < p.len() ==> #[trigger] segment_matches(p[i], segs[i])
}

/// What a segment demands of a path: a literal, or nothing.
pub open spec fn shape(p: SegmentView) -> Option<Seq<u8>> {
    match p {
        SegmentView::Literal(l) => Some(l),
        SegmentView::Param(_) => None,
    }
}

/// Two patterns of the same shape match exactly the same paths, whatever
/// their parameters are called.
pub open spec fn same_shape(a: Seq<SegmentView>, b: Seq<SegmentView>) -> bool {
    &&& a.len() == b.len()
    &&& forall|i: int| 0 <= i < a.len() ==> #[trigger] shape(a[i]) == shape(b[i])
}

/// `a` is more specific than `b`: at the first place where one has a literal
/// and the other a parameter, `a` has the literal.
pub open spec fn more_specific(a: Seq<SegmentView>, b: Seq<SegmentView>) -> bool
    decreases a.len(),
{
    if a.len() == 0 || b.len() == 0 {
        false
    } else {
        match (a[0], b[0]) {
            (SegmentView::Literal(_), SegmentView::Param(_)) => true,
            (SegmentView::Param(_), SegmentView::Literal(_)) => false,
            _ => more_specific(a.drop_first(), b.drop_first()),
        }
    }
}

proof fn lemma_matches_drop_first(p: Seq<SegmentView>, segs: Seq<Seq<u8>>)
    requires
        pattern_matches(p, segs),
        p.len() > 0,
    ensures
        pattern_matches(p.drop_first(), segs.drop_first()),
        segment_matches(p[0], segs[0]),
{
    assert forall|i: int| 0 <= i < p.len() - 1 implies #[trigger] segment_matches(
        p.drop_first()[i],
        segs.drop_first()[i],
    ) by {
        assert(segment_matches(p[i + 1], segs[i + 1]));
    }
}

/// Of two patterns that match one path, one is more specific than the
/// other, or they have the same shape.
pub proof fn lemma_specificity_total(a: Seq<SegmentView>, b: Seq<SegmentView>, segs: Seq<Seq<u8>>)
    requires
        pattern_matches(a, segs),
        pattern_matches(b, segs),
    ensures
        more_specific(a, b) || more_specific(b, a) || same_shape(a, b),
    decreases a.len(),
{
    if a.len() > 0 {
        lemma_matches_drop_first(a, segs);
        lemma_matches_drop_first(b, segs);
        lemma_specificity_total(a.drop_first(), b.drop_first(), segs.drop_first());
        if same_shape(a.drop_first(), b.drop_first()) && shape(a[0]) == shape(b[0]) {
            assert forall|i: int| 0 <= i < a.len() implies #[trigger] shape(a[i]) == shape(b[i]) by {
                if i > 0 {
                    assert(shape(a.drop_first()[i - 1]) == shape(b.drop_first()[i - 1]));
                }
            }
        }
    } else {
        assert(same_shape(a, b));
    }
}

/// Specificity is a strict order: never both ways, and never between patterns
/// of the same shape.
pub proof fn lemma_specificity_strict(a: Seq<SegmentView>, b: Seq<SegmentView>)
    requires
        a.len() == b.len(),
        more_specific(a, b),
    ensures
        !more_specific(b, a),
        !same_shape(a, b),
    decreases a.len(),
{
    if a.len() > 0 {
        match (a[0], b[0]) {
            (SegmentView::Literal(_), SegmentView::Param(_)) => {
                assert(shape(a[0]) != shape(b[0]));
            },
            (SegmentView::Param(_), SegmentView::Literal(_)) => {},
            _ => {
                lemma_specificity_strict(a.drop_first(), b.drop_first());
                if same_shape(a, b) {
                    assert forall|i: int| 0 <= i < a.len() - 1 implies #[trigger] shape(
                        a.drop_first()[i],
                    ) == shape(b.drop_first()[i]) by {
                        assert(shape(a[i + 1]) == shape(b[i + 1]));
                    }
                }
            },
        }
    }
}

/// Specificity is transitive.
pub proof fn lemma_specificity_transitive(
    a: Seq<SegmentView>,
    b: Seq<SegmentView>,
    c: Seq<SegmentView>,
)
    requires
        a.len() == b.len(),
        b.len() == c.len(),
        more_specific(a, b),
        more_specific(b, c),
    ensures
        more_specific(a, c),
    decreases a.len(),
{
    if a.len() > 0 {
        match (a[0], b[0], c[0]) {
            (SegmentView::Literal(_), SegmentView::Literal(_), SegmentView::Literal(_)) => {
                lemma_specificity_transitive(a.drop_first(), b.drop_first(), c.drop_first());
            },
            (SegmentView::Param(_), SegmentView::Param(_), SegmentView::Param(_)) => {
                lemma_specificity_transitive(a.drop_first(), b.drop_first(), c.drop_first());
            },
            _ => {},
        }
    }
}

/// Reads a pattern such as `/users/:id`.
pub fn parse_pattern(pattern: &[u8]) -> (r: Vec<Segment>)
    ensures
        pattern_view(r@) == pattern_of(pattern@),
{
    let parts = split_path(pattern);
    let mut r: Vec<Segment> = Vec::new();
    let mut i: usize = 0;
    while i < parts.len()
        invariant
            i <= parts@.len(),
            views_of(parts@) == path_segments(pattern@),
            pattern_view(r@) == views_of(parts@).take(i as int).map_values(
                |s: Seq<u8>| segment_of(s),
            ),
        decreases parts.len() - i,
    {
        let part = &parts[i];
        assert(part@ == views_of(parts@)[i as int]);
        let seg = if part.len() > 0 && part[0] == COLON {
            let mut name: Vec<u8> = Vec::new();
            let mut j: usize = 1;
            while j < part.len()
                invariant
                    1 <= j <= part@.len(),
                    name@ == part@.subrange(1, j as int),
                decreases part.len() - j,
            {
                name.push(part[j]);
                j = j + 1;
            }
            assert(name@ == part@.drop_first());
            Segment::Param(name)
        } else {
            Segment::Literal(copy_bytes(part))
        };
        let ghost before = r@;
        r.push(seg);
        assert(pattern_view(r@) == pattern_view(before).push(segment_of(part@)));
        assert(views_of(parts@).take(i + 1) == views_of(parts@).take(i as int).push(part@));
        i = i + 1;
    }
    assert(views_of(parts@).take(parts@.len() as int) == views_of(parts@));
    r
}

fn segment_matches_exec(p: &Segment, s: &Vec<u8>) -> (r: bool)
    ensures
        r == segment_matches(p@, s@),
{
    match p {
        Segment::Param(_) => s.len() > 0,
        Segment::Literal(l) => bytes_equal(l, s),
    }
}

/// A copy of `b`.
pub fn copy_bytes(b: &[u8]) -> (r: Vec<u8>)
    ensures
        r@ == b@,
{
    let mut r: Vec<u8> = Vec::new();
    let mut i: usize = 0;
    while i < b.len()
        invariant
            i <= b@.len(),
            r@ == b@.take(i as int),
        decreases b.len() - i,
    {
        r.push(b[i]);
        assert(b@.take(i + 1) == b@.take(i as int).push(b[i as int]));
        i = i + 1;
    }
    assert(b@.take(b@.len() as int) == b@);
    r
}

/// Byte-wise equality.
pub fn bytes_equal(a: &[u8], b: &[u8]) -> (r: bool)
    ensures
        r == (a@ == b@),
{
    if a.len() != b.len() {
        return false;
    }
    let mut i: usize = 0;
    while i < a.len()
        invariant
            i <= a@.len(),
            a@.len() == b@.len(),
            a@.take(i as int) == b@.take(i as int),
        decreases a.len() - i,
    {
        if a[i] != b[i] {
            return false;
        }
        assert(a@.take(i + 1) == a@.take(i as int).push(a[i as int]));
        assert(b@.take(i + 1) == b@.take(i as int).push(b[i as int]));
        i = i + 1;
    }
    assert(a@ == a@.take(i as int));
    assert(b@ == b@.take(i as int));
    true
}

/// Whether `pattern` matches the split path `segs`.
pub fn pattern_matches_path(pattern: &Vec<Segment>, segs: &Vec<Vec<u8>>) -> (r: bool)
    ensures
        r == pattern_matches(pattern_view(pattern@), views_of(segs@)),
{
    if pattern.len() != segs.len() {
        return false;
    }
    let mut i: usize = 0;
    while i < pattern.len()
        invariant
            i <= pattern@.len(),
            pattern@.len() == segs@.len(),
            forall|k: int|
                0 <= k < i ==> #[trigger] segment_matches(
                    pattern_view(pattern@)[k],
                    views_of(segs@)[k],
                ),
        decreases pattern.len() - i,
    {
        if !segment_matches_exec(&pattern[i], &segs[i]) {
            assert(!segment_matches(pattern_view(pattern@)[i as int], views_of(segs@)[i as int]));
            return false;
        }
        i = i + 1;
    }
    true
}

/// The named parameters of a pattern with the path segments they match, in
/// order.
pub open spec fn params_of(p: Seq<SegmentView>, segs: Seq<Seq<u8>>) -> Seq<(Seq<u8>, Seq<u8>)>
    decreases p.len(),
{
    if p.len() == 0 || segs.len() == 0 {
        Seq::empty()
    } else {
        let rest = params_of(p.drop_last(), segs.drop_last());
        match p.last() {
            SegmentView::Param(n) => rest.push((n, segs.last())),
            SegmentView::Literal(_) => rest,
        }
    }
}

/// The named parameters that a matching path gives a pattern: for
/// `/users/:id` and `/users/42`, `id` is `42`.
pub fn path_params(pattern: &Vec<Segment>, segs: &Vec<Vec<u8>>) -> (r: Vec<(Vec<u8>, Vec<u8>)>)
    requires
        pattern@.len() == segs@.len(),
    ensures
        r@.map_values(|x: (Vec<u8>, Vec<u8>)| (x.0@, x.1@)) == params_of(
            pattern_view(pattern@),
            views_of(segs@),
        ),
{
    let ghost pv = pattern_view(pattern@);
    let ghost sv = views_of(segs@);
    let mut r: Vec<(Vec<u8>, Vec<u8>)> = Vec::new();
    let mut i: usize = 0;
    while i < pattern.len()
        invariant
            i <= pattern@.len(),
            pattern@.len() == segs@.len(),
            pv == pattern_view(pattern@),
            sv == views_of(segs@),
            r@.map_values(|x: (Vec<u8>, Vec<u8>)| (x.0@, x.1@)) == params_of(
                pv.take(i as int),
                sv.take(i as int),
            ),
        decreases pattern.len() - i,
    {
        assert(pv.take(i + 1).drop_last() == pv.take(i as int));
        assert(sv.take(i + 1).drop_last() == sv.take(i as int));
        assert(pv.take(i + 1).last() == pattern@[i as int]@);
        assert(sv.take(i + 1).last() == segs@[i as int]@);
        match &pattern[i] {
            Segment::Param(n) => {
                let ghost before = r@;
                r.push((copy_bytes(n), copy_bytes(&segs[i])));
                assert(r@.map_values(|x: (Vec<u8>, Vec<u8>)| (x.0@, x.1@)) == before.map_values(
                    |x: (Vec<u8>, Vec<u8>)| (x.0@, x.1@),
                ).push((n@, segs@[i as int]@)));
            },
            Segment::Literal(_) => {},
        }
        i = i + 1;
    }
    assert(pv.take(i as int) == pv);
    assert(sv.take(i as int) == sv);
    r
}

/// Whether two patterns match the same paths.
pub fn shape_equal(a: &Vec<Segment>, b: &Vec<Segment>) -> (r: bool)
    ensures
        r == same_shape(pattern_view(a@), pattern_view(b@)),
{
    if a.len() != b.len() {
        return false;
    }
    let mut i: usize = 0;
    while i < a.len()
        invariant
            i <= a@.len(),
            a@.len() == b@.len(),
            forall|k: int|
                0 <= k < i ==> #[trigger] shape(pattern_view(a@)[k]) == shape(
                    pattern_view(b@)[k],
                ),
        decreases a.len() - i,
    {
        let same = match (&a[i], &b[i]) {
            (Segment::Literal(x), Segment::Literal(y)) => bytes_equal(x, y),
            (Segment::Param(_), Segment::Param(_)) => true,
            _ => false,
        };
        if !same {
            assert(shape(pattern_view(a@)[i as int]) != shape(pattern_view(b@)[i as int]));
            return false;
        }
        i = i + 1;
    }
    true
}

/// Whether `a` is more specific than `b`.
pub fn is_more_specific(a: &Vec<Segment>, b: &Vec<Segment>) -> (r: bool)
    ensures
        r == more_specific(pattern_view(a@), pattern_view(b@)),
{
    let mut i: usize = 0;
    assert(pattern_view(a@).skip(0) == pattern_view(a@));
    assert(pattern_view(b@).skip(0) == pattern_view(b@));
    while i < a.len() && i < b.len()
        invariant
            i <= a@.len(),
            i <= b@.len(),
            more_specific(pattern_view(a@), pattern_view(b@)) == more_specific(
                pattern_view(a@).skip(i as int),
                pattern_view(b@).skip(i as int),
            ),
        decreases a.len() - i,
    {
        let ghost sa = pattern_view(a@).skip(i as int);
        let ghost sb = pattern_view(b@).skip(i as int);
        assert(sa[0] == pattern_view(a@)[i as int]);
        assert(sb[0] == pattern_view(b@)[i as int]);
        match (&a[i], &b[i]) {
            (Segment::Literal(_), Segment::Param(_)) => {
                return true;
            },
            (Segment::Param(_), Segment::Literal(_)) => {
                return false;
            },
            _ => {},
        }
        assert(sa.drop_first() == pattern_view(a@).skip(i + 1));
        assert(sb.drop_first() == pattern_view(b@).skip(i + 1));
        i = i + 1;
    }
    false
}

} // verus!
