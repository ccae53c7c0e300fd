//! The error taxonomy of a fetch: transport failures and rate limiting are
//! retried inside the cascade; decode failures and the remote API's own
//! negative answers surface to the supervisor at once.

use vstd::prelude::*;
use vstd::string::StringExecFns;

use crate::extractor::DecodeFailure;

verus! {

/// Why a fetch surfaced no announcements.
pub enum SourceError {
    /// Connection or timeout below the HTTP layer, after local retries.
    Transport(String),
    /// Rate limited (429) or blocked (403) on the final attempt; holds the
    /// status and a body excerpt.
    RateLimitedOrBlocked { status: u16, excerpt: String },
    /// The structured decode failed and no usable fallback was registered.
    Decode(DecodeFailure),
    /// The remote API's own success indicator was false: a logical negative
    /// answer, not a transient fault.
    SourceSemantic(String),
}

/// Whether the cascade retries this kind locally before surfacing it.
pub open spec fn retried_locally(e: SourceError) -> bool {
    match e {
        SourceError::Transport(_) => true,
        SourceError::RateLimitedOrBlocked { .. } => true,
        SourceError::Decode(_) => false,
        SourceError::SourceSemantic(_) => false,
    }
}

/// The log detail of an error.
pub open spec fn describe_spec(e: SourceError) -> Seq<char> {
    match e {
        SourceError::Transport(detail) => "transport failure: "@ + detail@,
        SourceError::RateLimitedOrBlocked { status, excerpt } => if status == 429 {
            "rate limited: "@ + excerpt@
        } else {
            "blocked: "@ + excerpt@
        },
        SourceError::Decode(failure) => "decode failure: "@ + failure.error@,
        SourceError::SourceSemantic(detail) => "source reported an error: "@ + detail@,
    }
}

impl SourceError {
    /// Renders the error for the log record.
    pub fn describe(&self) -> (r: String)
        ensures
            r@ == describe_spec(*self),
    {
        let mut out = String::new();
        match self {
            SourceError::Transport(detail) => {
                out.append("transport failure: ");
                out.append(detail.as_str());
            },
            SourceError::RateLimitedOrBlocked { status, excerpt } => {
                if *status == 429 {
                    out.append("rate limited: ");
                } else {
                    out.append("blocked: ");
                }
                out.append(excerpt.as_str());
            },
            SourceError::Decode(failure) => {
                out.append("decode failure: ");
                out.append(failure.error.as_str());
            },
            SourceError::SourceSemantic(detail) => {
                out.append("source reported an error: ");
                out.append(detail.as_str());
            },
        }
        out
    }
}

} // verus!
