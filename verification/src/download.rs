//! The redirecting downloader, as a pure state machine.
//!
//! Fetching an artifact may pass through a redirect chain.  The caller issues
//! one GET per `next_request`, hands each response's status and `Location`
//! header to `on_response`, and streams the body only when told the payload
//! arrived.  The machine follows at most `REDIRECT_LIMIT` hops; a redirect
//! without a usable location is an upstream contract violation, and running
//! out of hops names the original location for diagnostics.

use crate::errors::Error;
use vstd::prelude::*;
use vstd::string::StringExecFns;

verus! {

/// How many requests one download may issue before failing with a redirect
/// loop.
pub const REDIRECT_LIMIT: u32 = 5;

/// Whether the characters parse as an HTTP URI.  The parse depends on the
/// characters alone.
pub uninterp spec fn uri_parses(s: Seq<char>) -> bool;

/// Relies on `http::Uri`'s `FromStr` parse: deterministic in the string.
#[verifier::external_body]
fn uri_is_valid(s: &String) -> (r: bool)
    ensures
        r == uri_parses(s@),
{
    s.as_str().parse::<http::Uri>().is_ok()
}

/// What one response means for the download.
#[derive(Debug, Clone, Copy, PartialEq, Eq, Structural)]
pub enum Fetched {
    /// The payload arrived: stream this response's body to the sink.
    Payload,
    /// A redirect was followed: issue the next request.
    Redirected,
}

/// One in-progress download: where it started, where it currently points, and
/// how many requests it may still issue.
#[derive(Debug, Clone, PartialEq, Eq)]
pub struct Download {
    /// The location the download was asked for, kept for diagnostics.
    pub original: String,
    /// The location the next request should fetch.
    pub current: String,
    /// How many requests may still be issued.
    pub budget: u32,
}

impl Download {
    /// A fresh download pointed at `uri`, with the full redirect budget.
    pub fn begin(uri: String) -> (d: Download)
        ensures
            d.original@ == uri@,
            d.current@ == uri@,
            d.budget == REDIRECT_LIMIT,
    {
        let current = uri.clone();
        Download { original: uri, current, budget: REDIRECT_LIMIT }
    }

    /// The location the caller should GET next.  Once the budget is spent the
    /// download fails with `RedirectLoop`, naming the original location.
    pub fn next_request(&mut self) -> (r: Result<String, Error>)
        ensures
            match r {
                Ok(u) => {
                    &&& old(self).budget > 0
                    &&& u@ == old(self).current@
                    &&& final(self).budget == old(self).budget - 1
                    &&& final(self).current == old(self).current
                    &&& final(self).original == old(self).original
                },
                Err(e) => {
                    &&& old(self).budget == 0
                    &&& (e matches Error::RedirectLoop { location } && location@ == old(
                        self,
                    ).original@)
                    &&& *final(self) == *old(self)
                },
            },
    {
        if self.budget == 0 {
            return Err(Error::RedirectLoop { location: self.original.clone() });
        }
        self.budget = self.budget - 1;
        Ok(self.current.clone())
    }

    /// Classifies one response.  Success delivers the payload; `301`/`302`
    /// moves the download to the `Location` header when that header holds a
    /// parsable location, and is an upstream contract violation otherwise;
    /// `429` is the user's to wait out; any other status is unexpected and
    /// kept with its body.
    pub fn on_response(&mut self, status: u16, location: Option<String>, body: String) -> (r:
        Result<Fetched, Error>)
        ensures
            status == 200 ==> r == Ok::<Fetched, Error>(Fetched::Payload) && *final(self) == *old(
                self,
            ),
            (status == 301 || status == 302) ==> match location {
                Some(loc) => {
                    if uri_parses(loc@) {
                        &&& r == Ok::<Fetched, Error>(Fetched::Redirected)
                        &&& final(self).current == loc
                        &&& final(self).original == old(self).original
                        &&& final(self).budget == old(self).budget
                    } else {
                        r is Err && r->Err_0 is Internal && *final(self) == *old(self)
                    }
                },
                None => r is Err && r->Err_0 is Internal && *final(self) == *old(self),
            },
            status == 429 ==> r is Err && r->Err_0 is UserActionable && *final(self) == *old(self),
            !(status == 200 || status == 301 || status == 302 || status == 429) ==> (r is Err
                && (r->Err_0 matches Error::Unavailable { status: s, body: b } && s == status && b@
                == body@) && *final(self) == *old(self)),
    {
        if status == 200 {
            Ok(Fetched::Payload)
        } else if status == 301 || status == 302 {
            match location {
                Some(loc) => {
                    if uri_is_valid(&loc) {
                        self.current = loc;
                        Ok(Fetched::Redirected)
                    } else {
                        Err(
                            Error::Internal {
                                message:
                                    "the service returned a redirect with an unusable location header".to_owned(),
                            },
                        )
                    }
                },
                None => Err(
                    Error::Internal {
                        message: "the service returned a redirect without a location header".to_owned(),
                    },
                ),
            }
        } else if status == 429 {
            Err(Error::rate_limited())
        } else {
            Err(Error::Unavailable { status, body })
        }
    }
}

} // verus!
