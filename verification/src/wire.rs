//! Wire-validity of the final header set, judged at the transport handoff.
//!
//! A caller-supplied header name or value that cannot be encoded on the
//! wire is rejected here, when the planned set is finally handed to the
//! transport — never silently dropped, and never earlier: the merge itself
//! is total.

use vstd::prelude::*;

use crate::retcher::FetchError;
use crate::retcher::FetchErrorKind;
use crate::synth::EntryView;
use crate::synth::HeaderEntry;
use crate::synth::entries_view;

verus! {

/// Whether the transport can encode the string as a header name.
pub uninterp spec fn header_name_wire_ok(s: Seq<char>) -> bool;

/// Whether the transport can encode the string as a header value.
pub uninterp spec fn header_value_wire_ok(s: Seq<char>) -> bool;

/// Relies on reqwest::header::HeaderName::from_str: whether a string is
/// accepted as a header name is a function of the string alone.
#[verifier::external_body]
fn name_accepted(s: &str) -> (r: bool)
    ensures
        r == header_name_wire_ok(s@),
{
    <reqwest::header::HeaderName as std::str::FromStr>::from_str(s).is_ok()
}

/// Relies on reqwest::header::HeaderValue::from_str: whether a string is
/// accepted as a header value is a function of the string alone.
#[verifier::external_body]
fn value_accepted(s: &str) -> (r: bool)
    ensures
        r == header_value_wire_ok(s@),
{
    <reqwest::header::HeaderValue as std::str::FromStr>::from_str(s).is_ok()
}

/// Every header of the list can be represented on the wire.
pub open spec fn all_wire_ok(s: Seq<EntryView>) -> bool {
    forall|i: int|
        0 <= i < s.len() ==> header_name_wire_ok((#[trigger] s[i]).name) && header_value_wire_ok(
            s[i].value,
        )
}

/// Judges a final header set at the transport handoff: accepts it exactly
/// when every name and value can be encoded on the wire, and rejects it as
/// malformed otherwise.
pub fn validate_headers(headers: &Vec<HeaderEntry>) -> (r: Result<(), FetchError>)
    ensures
        r is Ok <==> all_wire_ok(entries_view(headers@)),
        r matches Err(e) ==> e.kind == FetchErrorKind::MalformedHeader,
        r matches Err(e) ==> e.message@ == "Malformed header"@,
{
    let ghost hv = entries_view(headers@);
    let mut i: usize = 0;
    while i < headers.len()
        invariant
            i <= headers@.len(),
            hv == entries_view(headers@),
            forall|k: int|
                0 <= k < i ==> header_name_wire_ok((#[trigger] hv[k]).name)
                    && header_value_wire_ok(hv[k].value),
        decreases headers@.len() - i,
    {
        let entry = &headers[i];
        if !name_accepted(entry.name.as_str()) || !value_accepted(entry.value.as_str()) {
            assert(!(header_name_wire_ok(hv[i as int].name) && header_value_wire_ok(
                hv[i as int].value,
            )));
            return Err(
                FetchError {
                    kind: FetchErrorKind::MalformedHeader,
                    message: String::from_str("Malformed header"),
                },
            );
        }
        i += 1;
    }
    Ok(())
}

} // verus!
