//! URL parsing, done by the `url` crate.
use vstd::prelude::*;

verus! {

/// `url::ParseError`, the reason `url::Url::parse` gives for refusing its input.
#[verifier::external_type_specification]
#[verifier::external_body]
pub struct ExUrlParseError(url::ParseError);

/// The serialization of the URL that `url::Url::parse` makes of `input`, or
/// `None` where it refuses `input`.
pub uninterp spec fn url_serialization(input: Seq<char>) -> Option<Seq<char>>;

/// Calls `url::Url::parse` and takes the parsed URL's serialization
/// (`String::from(Url)`, which is `Url::as_str`).
/// Claimed: the call succeeds exactly where `url_serialization(input@)` is
/// `Some`, and then returns that serialization. Which `url::ParseError` a
/// refused input gives is not stated.
#[verifier::external_body]
pub(crate) fn parse_url(input: &str) -> (r: Result<String, url::ParseError>)
    ensures
        r is Ok <==> url_serialization(input@) is Some,
        r matches Ok(s) ==> url_serialization(input@) == Some(s@),
{
    url::Url::parse(input).map(String::from)
}

} // verus!
