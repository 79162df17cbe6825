use vstd::prelude::*;

use crate::text::{signed_decimal, signed_text};

verus! {

/// What `urlencoding::encode` returns for a string: its percent-encoding.
pub uninterp spec fn url_encoded(s: Seq<char>) -> Seq<char>;

/// Relies on `urlencoding::encode`, which depends on the characters alone.
#[verifier::external_body]
fn url_encode(s: &str) -> (r: String)
    ensures
        r@ == url_encoded(s@),
{
    urlencoding::encode(s).into_owned()
}

/// The series that lists the game's events.
pub const DOTA2_SERIES_ID: &'static str = "10309";

/// `{base}/series/{DOTA2_SERIES_ID}`.
pub fn series_url(base_url: &str) -> (r: String)
    ensures
        r@ == base_url@ + "/series/"@ + DOTA2_SERIES_ID@,
{
    let mut r = String::from_str(base_url);
    r.append("/series/");
    r.append(DOTA2_SERIES_ID);
    r
}

/// `{base}/events/{id}`.
pub fn event_url(base_url: &str, event_id: &str) -> (r: String)
    ensures
        r@ == base_url@ + "/events/"@ + event_id@,
{
    let mut r = String::from_str(base_url);
    r.append("/events/");
    r.append(event_id);
    r
}

/// `{base}/search?q={query}`, the query percent-encoded.
pub fn team_search_url(base_url: &str, query: &str) -> (r: String)
    ensures
        r@ == base_url@ + "/search?q="@ + url_encoded(query@),
{
    let mut r = String::from_str(base_url);
    r.append("/search?q=");
    r.append(url_encode(query).as_str());
    r
}

/// `{base}/proMatches`, with `?less_than_match_id={id}` when a bound is given.
pub fn pro_matches_url(base_url: &str, less_than_match_id: Option<i64>) -> (r: String)
    ensures
        less_than_match_id is None ==> r@ == base_url@ + "/proMatches"@,
        less_than_match_id matches Some(id) ==> r@ == base_url@ + "/proMatches"@
            + "?less_than_match_id="@ + signed_decimal(id as int),
{
    let mut r = String::from_str(base_url);
    r.append("/proMatches");
    match less_than_match_id {
        Some(id) => {
            r.append("?less_than_match_id=");
            r.append(signed_text(id).as_str());
        },
        None => {},
    }
    r
}

} // verus!
