//! The query of an address, read through the url crate.
use vstd::prelude::*;
use vstd::string::*;

verus! {

/// The decoded name/value pairs of the query of `url`, in order; none when
/// `url` is not an absolute address.
pub uninterp spec fn query_pairs_of(url: Seq<char>) -> Option<Seq<(Seq<char>, Seq<char>)>>;

pub open spec fn pairs_view(v: Seq<(String, String)>) -> Seq<(Seq<char>, Seq<char>)> {
    v.map_values(|p: (String, String)| (p.0@, p.1@))
}

/// Relies on url's `Url::parse` and `Url::query_pairs`: the query pairs of
/// the parsed address, percent-decoded, in the order they appear; none when
/// the address does not parse.
#[verifier::external_body]
fn query_pairs(url: &str) -> (r: Option<Vec<(String, String)>>)
    ensures
        match r {
            Some(v) => query_pairs_of(url@) == Some(pairs_view(v@)),
            None => query_pairs_of(url@) is None,
        },
{
    url::Url::parse(url).ok().map(
        |u| u.query_pairs().map(|(k, v)| (k.into_owned(), v.into_owned())).collect(),
    )
}

/// Value of the first pair of `pairs[i..]` named `key`.
pub open spec fn first_value(pairs: Seq<(Seq<char>, Seq<char>)>, key: Seq<char>, i: int) -> Option<
    Seq<char>,
>
    decreases pairs.len() - i,
{
    if i < 0 || i >= pairs.len() {
        None
    } else if pairs[i].0 == key {
        Some(pairs[i].1)
    } else {
        first_value(pairs, key, i + 1)
    }
}

/// Value of the first pair named `key`.
pub fn find_query_value(pairs: &Vec<(String, String)>, key: &str) -> (r: Option<String>)
    ensures
        match r {
            Some(v) => first_value(pairs_view(pairs@), key@, 0) == Some(v@),
            None => first_value(pairs_view(pairs@), key@, 0) is None,
        },
{
    let ghost ps = pairs_view(pairs@);
    let mut i: usize = 0;
    while i < pairs.len()
        invariant
            i <= pairs@.len(),
            ps == pairs_view(pairs@),
            first_value(ps, key@, 0) == first_value(ps, key@, i as int),
        decreases pairs@.len() - i,
    {
        let pair = &pairs[i];
        assert(ps[i as int] == (pair.0@, pair.1@));
        if crate::markup::same_text(&pair.0, key) {
            return Some(pair.1.clone());
        }
        i = i + 1;
    }
    None
}

/// The value of the query parameter `key` of `url`; none when `url` does not
/// parse or has no such parameter.
pub open spec fn query_value(url: Seq<char>, key: Seq<char>) -> Option<Seq<char>> {
    match query_pairs_of(url) {
        Some(ps) => first_value(ps, key, 0),
        None => None,
    }
}

/// The value of the query parameter `key` of `url`, if it has one.
pub fn url_query_value(url: &str, key: &str) -> (r: Option<String>)
    ensures
        match r {
            Some(v) => query_value(url@, key@) == Some(v@),
            None => query_value(url@, key@) is None,
        },
{
    match query_pairs(url) {
        Some(pairs) => find_query_value(&pairs, key),
        None => None,
    }
}

} // verus!
