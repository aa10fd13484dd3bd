//! Failure kinds of the update engine.
//!
//! Every failure surfaces to the caller unmodified; the only silent skips are
//! an unparsable release version and an unparsable artifact name, which drop
//! the entry instead of failing.

use vstd::prelude::*;
use vstd::string::StringExecFns;

verus! {

/// What went wrong, and whose move it is.
#[derive(Debug, Clone, PartialEq, Eq)]
pub enum Error {
    /// The user can act on this (for instance, wait out a rate limit).
    UserActionable { message: String, advice: String },
    /// A network-level failure; the caller may retry.
    Transport { message: String },
    /// A response that could not be parsed: the upstream contract changed.
    Malformed { message: String },
    /// An unexpected HTTP status, with the upstream status and body kept for
    /// diagnostics.
    Unavailable { status: u16, body: String },
    /// The bounded redirect budget ran out; names the original location.
    RedirectLoop { location: String },
    /// State-file corruption or a filesystem failure during persistence.
    Internal { message: String },
}

impl Error {
    /// The rate-limit failure: the user should wait and try again.
    pub fn rate_limited() -> (r: Error)
        ensures
            r matches Error::UserActionable { message, advice } && message@
                == "the service has rate limited requests from this address"@ && advice@
                == "wait until the rate limit is lifted before trying again"@,
    {
        Error::UserActionable {
            message: "the service has rate limited requests from this address".to_owned(),
            advice: "wait until the rate limit is lifted before trying again".to_owned(),
        }
    }

    /// A short, user-readable account of the failure.
    pub fn message(&self) -> (r: String)
        ensures
            match self {
                Error::UserActionable { message, .. } => r@ == message@,
                Error::Transport { message } => r@ == "transport failure: "@ + message@,
                Error::Malformed { message } => r@ == "malformed response: "@ + message@,
                Error::Unavailable { .. } => r@ == "the service returned an unexpected status"@,
                Error::RedirectLoop { location } => r@ == "reached the redirect limit fetching "@
                    + location@,
                Error::Internal { message } => r@ == "internal failure: "@ + message@,
            },
    {
        match self {
            Error::UserActionable { message, .. } => message.clone(),
            Error::Transport { message } => {
                let mut r = "transport failure: ".to_owned();
                r.append(message.as_str());
                r
            },
            Error::Malformed { message } => {
                let mut r = "malformed response: ".to_owned();
                r.append(message.as_str());
                r
            },
            Error::Unavailable { .. } => "the service returned an unexpected status".to_owned(),
            Error::RedirectLoop { location } => {
                let mut r = "reached the redirect limit fetching ".to_owned();
                r.append(location.as_str());
                r
            },
            Error::Internal { message } => {
                let mut r = "internal failure: ".to_owned();
                r.append(message.as_str());
                r
            },
        }
    }
}

} // verus!
