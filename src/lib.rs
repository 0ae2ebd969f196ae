//! Asks a generative-language service which words of a candidate list are
//! most closely related to a prompt, and reads the words out of its answer.
//!
//! The request side renders the instruction text, frames the JSON payload
//! and forms the endpoint address; the response side checks the status,
//! walks the answer envelope and projects the `keyword` fields. Sending the
//! request is left to the host.

pub mod json;
pub mod request;
pub mod response;

pub use json::JsonValue;
pub use request::{build_payload, build_request, frame_payload, join_candidates, render_prompt, ProviderRequest};
pub use response::{check_status, envelope_text, extract_related_words, keywords};

use vstd::prelude::*;

verus! {

/// Why a lookup of related words failed.
#[derive(Clone, Copy, Debug, PartialEq, Eq, Structural)]
pub enum RequestError {
    /// No access credential was supplied.
    MissingCredential,
    /// The request could not be sent or its answer could not be read.
    TransportFailure,
    /// The service answered with a status outside the success range.
    RequestFailed { status: u16 },
    /// The answer lacked the expected text, or that text was not a JSON array.
    MalformedResponse,
}

/// The character sequences of a list of strings.
pub open spec fn views(v: Seq<String>) -> Seq<Seq<char>> {
    v.map_values(|s: String| s@)
}

} // verus!
