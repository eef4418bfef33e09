//! Links: message links are always well-formed URLs.

use vstd::prelude::*;

verus! {

#[verifier::external_type_specification]
#[verifier::external_body]
pub struct ExUrlParseError(::url::ParseError);

/// The name of what URL parsing makes of a string: its normalized serialization, or
/// `None` when it is no well-formed absolute URL.
pub uninterp spec fn url_of(s: Seq<char>) -> Option<Seq<char>>;

/// Relies on url::Url::parse (and Url::as_str for the serialization): whether `s` is a
/// well-formed absolute URL, and its normalized form.
#[verifier::external_body]
fn parse(s: &str) -> (r: Result<String, ::url::ParseError>)
    ensures
        r is Ok <==> url_of(s@) is Some,
        r matches Ok(u) ==> Some(u@) == url_of(s@),
{
    ::url::Url::parse(s).map(|u| u.as_str().to_owned())
}

/// The normalized form of `s` if it is a well-formed absolute URL.
pub fn parse_url(s: &str) -> (r: Option<String>)
    ensures
        crate::entry::opt_view(r) == url_of(s@),
{
    match parse(s) {
        Ok(u) => Some(u),
        Err(_) => None,
    }
}

} // verus!
