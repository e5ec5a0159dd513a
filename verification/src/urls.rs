use vstd::prelude::*;

verus! {

#[verifier::external_type_specification]
#[verifier::external_body]
pub struct ExUrl(url::Url);

#[verifier::external_type_specification]
#[verifier::external_body]
pub struct ExUrlParseError(url::ParseError);

/// The canonical serialization that a parsed URL carries, as
/// `url::Url::as_str` hands it out.
pub uninterp spec fn url_str(u: url::Url) -> Seq<char>;

/// What `url::Url::parse` makes of a string: the canonical serialization of
/// the parsed absolute URL, or nothing when the string is not one.
pub uninterp spec fn url_parse_norm(s: Seq<char>) -> Option<Seq<char>>;

/// What `url::Url::join` makes of a base URL's serialization and a
/// reference: the joined URL's canonical serialization, or nothing when the
/// reference cannot be resolved against that base.
pub uninterp spec fn url_join_norm(base: Seq<char>, reference: Seq<char>) -> Option<Seq<char>>;

/// The ASCII serialization of a URL's origin (scheme, host and port), as
/// `url::Url::origin` and `url::Origin::ascii_serialization` compute it
/// from the URL's serialization.
pub uninterp spec fn url_origin_ascii_of(u: Seq<char>) -> Seq<char>;

/// Relies on url::Url::parse: whether a string parses, and what URL it
/// parses to, depend on the string alone.
#[verifier::external_body]
pub(crate) fn url_parse(s: &str) -> (r: Result<url::Url, url::ParseError>)
    ensures
        (r is Ok) == (url_parse_norm(s@) is Some),
        r is Ok ==> url_str(r->Ok_0) == url_parse_norm(s@)->Some_0,
{
    url::Url::parse(s)
}

/// Relies on url::Url::join: resolving a reference against a base URL
/// depends on the two strings alone.
#[verifier::external_body]
pub(crate) fn url_join(base: &url::Url, reference: &str) -> (r: Result<url::Url, url::ParseError>)
    ensures
        (r is Ok) == (url_join_norm(url_str(*base), reference@) is Some),
        r is Ok ==> url_str(r->Ok_0) == url_join_norm(url_str(*base), reference@)->Some_0,
{
    base.join(reference)
}

/// Relies on url::Url::as_str: the URL's canonical serialization.
#[verifier::external_body]
pub(crate) fn url_as_string(u: &url::Url) -> (r: String)
    ensures
        r@ == url_str(*u),
{
    u.as_str().to_owned()
}

/// Relies on url::Url::origin and url::Origin::ascii_serialization: the
/// origin of a URL, ASCII-serialized, depends on the URL alone.
#[verifier::external_body]
pub(crate) fn url_origin_ascii(u: &url::Url) -> (r: String)
    ensures
        r@ == url_origin_ascii_of(url_str(*u)),
{
    u.origin().ascii_serialization()
}

} // verus!
