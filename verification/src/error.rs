//! The ways in which relaying one request can fail, and what the caller is
//! told about each.

use vstd::prelude::*;
use vstd::string::StringExecFns;

verus! {

/// The half of a header field that could not be represented.
#[derive(Clone, Copy, Debug, PartialEq, Eq, Structural)]
pub enum HeaderPart {
    Name,
    Value,
}

/// Why a request was not relayed, or its answer not passed on.
#[derive(Clone, Debug, PartialEq, Eq)]
pub enum RelayError {
    /// The inbound URI names no destination.
    MalformedTarget,
    /// The header field at `index` of the set being passed on cannot be
    /// represented on the next hop.
    HeaderEncodingError { index: usize, part: HeaderPart },
    /// The exchange with the origin failed; `cause` describes how.
    RelayFailure { cause: String },
}

/// The mathematical content of a [`RelayError`].
pub enum RelayErrorView {
    MalformedTarget,
    HeaderEncodingError { index: int, part: HeaderPart },
    RelayFailure { cause: Seq<char> },
}

impl View for RelayError {
    type V = RelayErrorView;

    open spec fn view(&self) -> RelayErrorView {
        match self {
            RelayError::MalformedTarget => RelayErrorView::MalformedTarget,
            RelayError::HeaderEncodingError { index, part } => RelayErrorView::HeaderEncodingError {
                index: *index as int,
                part: *part,
            },
            RelayError::RelayFailure { cause } => RelayErrorView::RelayFailure { cause: cause@ },
        }
    }
}

impl RelayErrorView {
    /// The status code under which the error is reported to the caller: the
    /// caller's own mistake as 400, everything else as 500.
    pub open spec fn status_code(self) -> u16 {
        match self {
            RelayErrorView::MalformedTarget => 400,
            _ => 500,
        }
    }

    /// The text that describes the error to the caller. `request_url` is the
    /// full URL that the caller asked for; it is quoted where the URL itself
    /// is at fault.
    pub open spec fn description(self, request_url: Seq<char>) -> Seq<char> {
        match self {
            RelayErrorView::MalformedTarget => "bad url format: "@ + request_url,
            RelayErrorView::HeaderEncodingError { part: HeaderPart::Name, .. } => {
                "invalid HTTP header name"@
            },
            RelayErrorView::HeaderEncodingError { part: HeaderPart::Value, .. } => {
                "failed to parse header value"@
            },
            RelayErrorView::RelayFailure { cause } => cause,
        }
    }
}

impl RelayError {
    /// Computes [`RelayErrorView::status_code`].
    pub fn status(&self) -> (code: u16)
        ensures
            code == self@.status_code(),
    {
        match self {
            RelayError::MalformedTarget => 400,
            _ => 500,
        }
    }

    /// Computes [`RelayErrorView::description`].
    pub fn message(&self, request_url: &str) -> (text: String)
        ensures
            text@ == self@.description(request_url@),
    {
        match self {
            RelayError::MalformedTarget => String::from_str("bad url format: ").concat(request_url),
            RelayError::HeaderEncodingError { part: HeaderPart::Name, .. } => String::from_str(
                "invalid HTTP header name",
            ),
            RelayError::HeaderEncodingError { part: HeaderPart::Value, .. } => String::from_str(
                "failed to parse header value",
            ),
            RelayError::RelayFailure { cause } => cause.clone(),
        }
    }
}

} // verus!
