//! Reading the parts of a target URL that request planning needs.
//!
//! Parsing is delegated to the `url` crate; what comes back is a record of
//! plain values: the scheme, the host (when the URL has one), and the
//! normalized serialization. Each part is a pure function of the input
//! string alone, named below so that contracts can speak of it exactly.

use vstd::prelude::*;

verus! {

/// The parts of a parsed absolute URL that request planning reads.
pub struct UrlParts {
    pub scheme: String,
    pub host: Option<String>,
    pub serialized: String,
}

/// Whether `url::Url::parse` accepts the string as an absolute URL.
pub uninterp spec fn url_parse_ok(s: Seq<char>) -> bool;

/// The scheme of the parsed URL, as `url::Url::scheme` reports it.
pub uninterp spec fn url_scheme(s: Seq<char>) -> Seq<char>;

/// The host of the parsed URL, as `url::Url::host_str` reports it: absent
/// for URLs that cannot have a host.
pub uninterp spec fn url_host(s: Seq<char>) -> Option<Seq<char>>;

/// The normalized serialization of the parsed URL, as `url::Url::as_str`
/// reports it.
pub uninterp spec fn url_serialized(s: Seq<char>) -> Seq<char>;

/// Relies on url::Url::parse and its accessors scheme, host_str and
/// as_str: parsing either rejects the string or yields a parsed URL whose
/// scheme, host and normalized serialization are functions of the input
/// string alone.
#[verifier::external_body]
pub(crate) fn parse_url(s: &str) -> (r: Option<UrlParts>)
    ensures
        r is Some <==> url_parse_ok(s@),
        r is Some ==> r->Some_0.scheme@ == url_scheme(s@),
        r is Some ==> (r->Some_0.host is Some <==> url_host(s@) is Some),
        r is Some ==> (r->Some_0.host is Some ==> r->Some_0.host->Some_0@ == url_host(
            s@,
        )->Some_0),
        r is Some ==> r->Some_0.serialized@ == url_serialized(s@),
{
    match url::Url::parse(s) {
        Ok(u) => Some(UrlParts {
            scheme: u.scheme().to_string(),
            host: u.host_str().map(|h| h.to_string()),
            serialized: u.as_str().to_string(),
        }),
        Err(_) => None,
    }
}

} // verus!
