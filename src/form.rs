use vstd::prelude::*;

use crate::extract::ExtractionErrorKind;

verus! {

/// What `serde_urlencoded::from_bytes` reads from a form body as a list of
/// decoded name and value pairs, in order; `None` where it reports an error.
pub uninterp spec fn form_pairs_of(body: Seq<u8>) -> Option<Seq<(Seq<char>, Seq<char>)>>;

pub open spec fn pairs_view(v: Seq<(String, String)>) -> Seq<(Seq<char>, Seq<char>)> {
    v.map_values(|p: (String, String)| (p.0@, p.1@))
}

/// Relies on serde_urlencoded::from_bytes to decode a form body into its pairs.
#[verifier::external_body]
pub(crate) fn read_form_pairs(body: &[u8]) -> (r: Option<Vec<(String, String)>>)
    ensures
        match r {
            None => form_pairs_of(body@) is None,
            Some(v) => form_pairs_of(body@) == Some(pairs_view(v@)),
        },
{
    serde_urlencoded::from_bytes::<Vec<(String, String)>>(body).ok()
}

/// The value of the first pair called `name`.
pub open spec fn pair_value(pairs: Seq<(Seq<char>, Seq<char>)>, name: Seq<char>) -> Option<Seq<char>>
    decreases pairs.len(),
{
    if pairs.len() == 0 {
        None
    } else if pairs[0].0 == name {
        Some(pairs[0].1)
    } else {
        pair_value(pairs.drop_first(), name)
    }
}

/// The result of reading the field `field` from a form body, given what the
/// form decoder made of it.
pub open spec fn form_field_result(pairs: Option<Seq<(Seq<char>, Seq<char>)>>, field: Seq<char>) -> Result<
    Seq<char>,
    ExtractionErrorKind,
> {
    match pairs {
        None => Err(ExtractionErrorKind::MalformedBody),
        Some(ps) => match pair_value(ps, field) {
            Some(v) => Ok(v),
            None => Err(ExtractionErrorKind::MissingField),
        },
    }
}

/// Picks the field `field` from decoded form pairs: the first pair with that
/// name, `MissingField` where there is none, `MalformedBody` where the body
/// could not be decoded.
pub fn classify_form_field(pairs: Option<Vec<(String, String)>>, field: &String) -> (r: Result<
    String,
    ExtractionErrorKind,
>)
    ensures
        match form_field_result(
            match pairs {
                Some(ps) => Some(pairs_view(ps@)),
                None => None,
            },
            field@,
        ) {
            Ok(s) => r is Ok && r->Ok_0@ == s,
            Err(e) => r == Err::<String, ExtractionErrorKind>(e),
        },
{
    let ps = match pairs {
        None => return Err(ExtractionErrorKind::MalformedBody),
        Some(ps) => ps,
    };
    let ghost pv = pairs_view(ps@);
    assert(pairs == Some(ps));
    let mut i: usize = 0;
    assert(pv.skip(0) == pv);
    while i < ps.len()
        invariant
            i <= ps@.len(),
            pv == pairs_view(ps@),
            pairs == Some(ps),
            pair_value(pv, field@) == pair_value(pv.skip(i as int), field@),
        decreases ps.len() - i,
    {
        assert(pv.skip(i as int)[0] == (ps@[i as int].0@, ps@[i as int].1@));
        if ps[i].0 == *field {
            assert(pv.skip(i as int)[0].0 == field@);
            let found = ps[i].1.clone();
            assert(pair_value(pv, field@) == Some(found@));
            return Ok(found);
        }
        assert(pv.skip(i as int).drop_first() == pv.skip(i + 1));
        i = i + 1;
    }
    Err(ExtractionErrorKind::MissingField)
}

/// Extracts the field `field` from a form body.
pub fn form_text_field(body: &[u8], field: &String) -> (r: Result<String, ExtractionErrorKind>)
    ensures
        match form_field_result(form_pairs_of(body@), field@) {
            Ok(s) => r is Ok && r->Ok_0@ == s,
            Err(e) => r == Err::<String, ExtractionErrorKind>(e),
        },
{
    classify_form_field(read_form_pairs(body), field)
}

} // verus!
