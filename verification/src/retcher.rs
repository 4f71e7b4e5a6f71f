//! The request orchestrator: validates the target URL's protocol, resolves
//! the final ordered header set for a GET request, and shapes a raw
//! transport response into the stable response record.
//!
//! The network exchange itself is an external capability: a transport takes
//! the planned URL and ordered headers and comes back with status, status
//! text, response headers, the final URL and the drained body. Everything
//! on either side of that exchange is here.

use vstd::prelude::*;

use crate::merge::lemma_merge_keeps_distinct;
use crate::merge::merge;
use crate::merge::spec_merge;
use crate::profile::lemma_profile_names_distinct;
use crate::synth::distinct_names;
use crate::synth::lemma_synthesize_distinct;
use crate::names::strings_equal;
use crate::profile::Browser;
use crate::profile::spec_profile;
use crate::synth::EntryView;
use crate::synth::HeaderEntry;
use crate::synth::entries_view;
use crate::synth::generate_headers;
use crate::synth::spec_synthesize;
use crate::url_info::parse_url;
use crate::url_info::url_host;
use crate::url_info::url_parse_ok;
use crate::url_info::url_scheme;
use crate::url_info::url_serialized;

verus! {

/// Options a client instance is constructed with; both are fixed for the
/// client's lifetime.
pub struct EngineOptions {
    /// The browser to impersonate; Firefox when absent.
    pub browser: Option<Browser>,
    /// Whether the transport is to accept invalid certificates and host
    /// names — an explicit, opt-in weakening, never a default.
    pub ignore_tls_errors: Option<bool>,
}

/// Additional options for one fetch request: the caller's custom headers.
/// They augment, and may override, the synthesized set, but never
/// duplicate a header.
pub struct FetchOptions {
    pub headers: Vec<HeaderEntry>,
}

/// The failure taxonomy of one request. Every failure is reported
/// explicitly; none is swallowed, none retried.
#[derive(Clone, Copy, PartialEq, Eq, Structural, Debug)]
pub enum FetchErrorKind {
    /// The URL string could not be parsed; no network activity happened.
    InvalidUrl,
    /// The scheme is neither `http` nor `https`; no network activity
    /// happened.
    UnsupportedProtocol,
    /// Connecting, TLS, or the exchange itself failed.
    Transport,
    /// Draining the response body failed after a successful exchange.
    BodyRead,
    /// A custom header could not be encoded on the wire at the transport
    /// handoff.
    MalformedHeader,
}

/// An explicit failure result, with the diagnostic detail that accompanied
/// it.
#[derive(Clone, PartialEq, Eq, Debug)]
pub struct FetchError {
    pub kind: FetchErrorKind,
    pub message: String,
}

impl FetchError {
    /// A transport failure, carrying the transport's own diagnostic text.
    pub fn transport(message: String) -> (e: FetchError)
        ensures
            e.kind == FetchErrorKind::Transport,
            e.message == message,
    {
        FetchError { kind: FetchErrorKind::Transport, message }
    }

    /// A failure while draining the response body.
    pub fn body_read(message: String) -> (e: FetchError)
        ensures
            e.kind == FetchErrorKind::BodyRead,
            e.message == message,
    {
        FetchError { kind: FetchErrorKind::BodyRead, message }
    }

    /// A custom header that cannot be represented on the wire, rejected at
    /// the transport handoff.
    pub fn malformed_header(message: String) -> (e: FetchError)
        ensures
            e.kind == FetchErrorKind::MalformedHeader,
            e.message == message,
    {
        FetchError { kind: FetchErrorKind::MalformedHeader, message }
    }
}

/// The stable response record handed back to the caller, mirroring a
/// browser-side fetch response: status classification, flattened headers,
/// the materialized body, and the transport-reported final URL.
#[derive(Debug)]
pub struct FetchResponse {
    /// The drained body; absent when it was empty.
    pub body: Option<Vec<u8>>,
    /// The body has been consumed, also when it was empty.
    pub body_used: bool,
    /// The response headers, flattened last-write-wins.
    pub headers: Vec<HeaderEntry>,
    /// Whether the status is in the 2xx class.
    pub ok: bool,
    /// Whether the final response's own status is in the 3xx class.
    pub redirected: bool,
    pub status: u16,
    pub status_text: String,
    /// Always `basic`.
    pub kind: String,
    /// The possibly-redirected final URL the transport reports.
    pub url: String,
}

/// A fully resolved outgoing request: the normalized URL and the final
/// ordered header set, ready for the transport.
#[derive(Debug)]
pub struct RequestPlan {
    pub url: String,
    pub headers: Vec<HeaderEntry>,
}

/// Whether the scheme of the given URL string is one the client supports.
pub open spec fn scheme_supported(s: Seq<char>) -> bool {
    url_scheme(s) == "http"@ || url_scheme(s) == "https"@
}

/// The caller's custom headers, as their mathematical shape; empty when no
/// options were given.
pub open spec fn custom_views(options: Option<FetchOptions>) -> Seq<EntryView> {
    match options {
        Some(o) => entries_view(o.headers@),
        None => Seq::empty(),
    }
}

/// The final ordered header set of one request: the identity's profile,
/// filtered for the URL's host and transport, with the custom headers
/// merged on top.
pub open spec fn planned_headers(identity: Browser, url: Seq<char>, custom: Seq<EntryView>) -> Seq<
    EntryView,
> {
    spec_merge(
        spec_synthesize(spec_profile(identity, url_host(url)->Some_0), url_scheme(url) == "https"@),
        custom,
    )
}

/// Law: a planned header set never carries a header name twice — the
/// synthesized set names each header once, and overrides replace values in
/// place or append new names, never duplicating.
pub proof fn lemma_planned_headers_distinct(
    identity: Browser,
    url: Seq<char>,
    custom: Seq<EntryView>,
)
    ensures
        distinct_names(planned_headers(identity, url, custom)),
{
    let host = url_host(url)->Some_0;
    let encrypted = url_scheme(url) == "https"@;
    lemma_profile_names_distinct(identity, host);
    lemma_synthesize_distinct(spec_profile(identity, host), encrypted);
    lemma_merge_keeps_distinct(spec_synthesize(spec_profile(identity, host), encrypted), custom);
}

/// Whether a status classifies the response as successful.
pub open spec fn is_success_status(status: u16) -> bool {
    200 <= status < 300
}

/// Whether a status is itself a redirection status.
pub open spec fn is_redirect_status(status: u16) -> bool {
    300 <= status < 400
}

/// A client instance: the impersonated browser identity and the transport
/// weakening it was constructed with, fixed for its lifetime. The client
/// holds no per-call mutable state.
pub struct Retcher {
    /// The browser to impersonate.
    pub browser: Browser,
    /// Whether the transport is to accept invalid certificates and host
    /// names.
    pub ignore_tls_errors: bool,
}

impl Retcher {
    /// Creates a client. The identity defaults to Firefox; TLS errors are
    /// honoured unless the caller explicitly opted out.
    pub fn new(options: EngineOptions) -> (r: Retcher)
        ensures
            r.browser == options.browser.unwrap_or(Browser::Firefox),
            r.ignore_tls_errors == options.ignore_tls_errors.unwrap_or(false),
    {
        Retcher {
            browser: options.browser.unwrap_or(Browser::Firefox),
            ignore_tls_errors: options.ignore_tls_errors.unwrap_or(false),
        }
    }

    /// Plans one GET request: parses the URL, gates the scheme — exactly
    /// `http` or `https`, anything else fails fast, before any transport
    /// work — and resolves the final ordered header set.
    ///
    /// Succeeds exactly on a parsable URL with a supported scheme and a
    /// host; the plan then carries the normalized URL and the headers the
    /// identity's profile yields for that host and transport, with the
    /// caller's custom headers merged on top.
    pub fn plan_request(&self, url: String, options: Option<FetchOptions>) -> (r: Result<
        RequestPlan,
        FetchError,
    >)
        ensures
            r is Ok <==> (url_parse_ok(url@) && scheme_supported(url@) && url_host(url@) is Some),
            r matches Ok(plan) ==> plan.url@ == url_serialized(url@),
            r matches Ok(plan) ==> entries_view(plan.headers@) == planned_headers(
                self.browser,
                url@,
                custom_views(options),
            ),
            r matches Err(e) ==> (e.kind == FetchErrorKind::InvalidUrl || e.kind
                == FetchErrorKind::UnsupportedProtocol),
            r matches Err(e) ==> ((e.kind == FetchErrorKind::UnsupportedProtocol) <==> (
            url_parse_ok(url@) && !scheme_supported(url@))),
            r matches Err(e) ==> ((e.kind == FetchErrorKind::InvalidUrl) <==> (!url_parse_ok(url@)
                || (scheme_supported(url@) && url_host(url@) is None))),
            r matches Err(e) ==> (e.kind == FetchErrorKind::UnsupportedProtocol ==> e.message@
                == "Unsupported protocol"@),
            r matches Err(e) ==> (e.kind == FetchErrorKind::InvalidUrl ==> e.message@
                == "Invalid URL"@),
    {
        let parts = match parse_url(url.as_str()) {
            Some(p) => p,
            None => {
                return Err(
                    FetchError {
                        kind: FetchErrorKind::InvalidUrl,
                        message: String::from_str("Invalid URL"),
                    },
                );
            },
        };
        let is_http = strings_equal(parts.scheme.as_str(), "http");
        let is_https = strings_equal(parts.scheme.as_str(), "https");
        if !is_http && !is_https {
            return Err(
                FetchError {
                    kind: FetchErrorKind::UnsupportedProtocol,
                    message: String::from_str("Unsupported protocol"),
                },
            );
        }
        let host = match parts.host {
            Some(h) => h,
            None => {
                return Err(
                    FetchError {
                        kind: FetchErrorKind::InvalidUrl,
                        message: String::from_str("Invalid URL"),
                    },
                );
            },
        };
        let base = generate_headers(&host, self.browser, is_https);
        let headers = match &options {
            Some(o) => merge(base, &o.headers),
            None => base,
        };
        Ok(RequestPlan { url: parts.serialized, headers })
    }
}

/// Shapes one raw transport response into the stable response record:
/// classifies the status, flattens the response headers last-write-wins,
/// and materializes the drained body — an empty body is reported as
/// absent, though consumed.
pub fn shape_response(
    status: u16,
    status_text: String,
    raw_headers: Vec<HeaderEntry>,
    final_url: String,
    body: Vec<u8>,
) -> (r: FetchResponse)
    ensures
        r.status == status,
        r.status_text == status_text,
        r.url == final_url,
        r.ok == is_success_status(status),
        r.redirected == is_redirect_status(status),
        r.kind@ == "basic"@,
        r.body_used,
        entries_view(r.headers@) == spec_merge(Seq::empty(), entries_view(raw_headers@)),
        distinct_names(entries_view(r.headers@)),
        body@.len() == 0 ==> r.body is None,
        body@.len() > 0 ==> r.body == Some(body),
{
    let ok = 200 <= status && status < 300;
    let redirected = 300 <= status && status < 400;
    let empty_base: Vec<HeaderEntry> = Vec::new();
    proof {
        assert(entries_view(empty_base@) =~= Seq::<EntryView>::empty());
        assert(distinct_names(Seq::<EntryView>::empty()));
        lemma_merge_keeps_distinct(Seq::empty(), entries_view(raw_headers@));
    }
    let headers = merge(empty_base, &raw_headers);
    let has_body = body.len() > 0;
    FetchResponse {
        body: if has_body {
            Some(body)
        } else {
            None
        },
        body_used: true,
        headers,
        ok,
        redirected,
        status,
        status_text,
        kind: String::from_str("basic"),
        url: final_url,
    }
}

} // verus!
