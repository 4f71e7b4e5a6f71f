//! An HTTP client core that impersonates specific web browsers at the
//! application layer: it synthesizes the exact ordered header set (names,
//! values, casing, order) the chosen browser would send, overlays
//! caller-supplied headers with override-not-duplicate semantics, gates the
//! target URL's protocol, and shapes the raw transport response into a
//! stable result record.

pub mod merge;
pub mod names;
pub mod profile;
pub mod retcher;
pub mod synth;
pub mod url_info;
pub mod wire;

pub use merge::merge;
pub use names::names_equal;
pub use profile::Applicability;
pub use profile::Browser;
pub use profile::HeaderRule;
pub use profile::OperatingSystem;
pub use retcher::EngineOptions;
pub use retcher::FetchError;
pub use retcher::FetchErrorKind;
pub use retcher::FetchOptions;
pub use retcher::FetchResponse;
pub use retcher::RequestPlan;
pub use retcher::Retcher;
pub use retcher::shape_response;
pub use synth::HeaderEntry;
pub use synth::generate_headers;
pub use synth::synthesize;
pub use wire::validate_headers;
