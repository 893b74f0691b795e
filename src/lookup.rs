//! The failures of a metadata lookup, and what a lookup's outcome resolves to.
use crate::metadata::{album_matches, parse_metadata, resolve_of, Album, MusicBrainzResponse};
use vstd::prelude::*;

verus! {

#[verifier::external_type_specification]
#[verifier::external_body]
pub struct ExUreqError(ureq::Error);

#[verifier::external_type_specification]
#[verifier::external_body]
pub struct ExJsonError(serde_json::Error);

/// Why a lookup gave no answer.
#[derive(Debug)]
pub enum MusicBrainzError {
    /// The transport failed, or the service answered with another refusal.
    Network(ureq::Error),
    /// The answer's body could not be decoded.
    Parse(serde_json::Error),
    /// The service does not know the disc identifier.
    NotFound,
    /// The service asked the client to slow down.
    RateLimited,
}

/// HTTP status for an unknown disc identifier.
pub const STATUS_NOT_FOUND: u16 = 404;

/// HTTP status for a throttled client.
pub const STATUS_TOO_MANY_REQUESTS: u16 = 429;

/// The HTTP status that a transport error carries, if any.
pub uninterp spec fn status_of(error: ureq::Error) -> Option<u16>;

/// Relies on ureq's `Error::StatusCode` variant: the HTTP status that the
/// server refused the request with, and no status for every other failure.
#[verifier::external_body]
fn status_code_of(error: &ureq::Error) -> (r: Option<u16>)
    ensures
        r == status_of(*error),
{
    match error {
        ureq::Error::StatusCode(code) => Some(*code),
        _ => None,
    }
}

/// The error that a transport failure with this status stands for: 404 is
/// `NotFound`, 429 is `RateLimited`, anything else is `Network`.
pub fn error_for_status(status: Option<u16>, error: ureq::Error) -> (r: MusicBrainzError)
    ensures
        (r is NotFound) == (status == Some(STATUS_NOT_FOUND)),
        (r is RateLimited) == (status == Some(STATUS_TOO_MANY_REQUESTS)),
        (r is Network) == (status != Some(STATUS_NOT_FOUND) && status != Some(
            STATUS_TOO_MANY_REQUESTS,
        )),
        r is Network ==> r == MusicBrainzError::Network(error),
{
    match status {
        Some(code) => {
            if code == STATUS_NOT_FOUND {
                MusicBrainzError::NotFound
            } else if code == STATUS_TOO_MANY_REQUESTS {
                MusicBrainzError::RateLimited
            } else {
                MusicBrainzError::Network(error)
            }
        },
        None => MusicBrainzError::Network(error),
    }
}

impl MusicBrainzError {
    /// The error that a failure of the transport stands for: a 404 status is
    /// `NotFound`, a 429 status is `RateLimited`, and every other failure is
    /// `Network`, carrying the error itself.
    pub fn from_transport(error: ureq::Error) -> (r: MusicBrainzError)
        ensures
            (r is NotFound) == (status_of(error) == Some(STATUS_NOT_FOUND)),
            (r is RateLimited) == (status_of(error) == Some(STATUS_TOO_MANY_REQUESTS)),
            (r is Network) == (status_of(error) != Some(STATUS_NOT_FOUND) && status_of(error)
                != Some(STATUS_TOO_MANY_REQUESTS)),
            r is Network ==> r == MusicBrainzError::Network(error),
    {
        let status = status_code_of(&error);
        error_for_status(status, error)
    }
}

/// What a lookup's outcome resolves to: no album for any failure, else the
/// album that the answer resolves to.
pub fn resolve_lookup(outcome: &Result<MusicBrainzResponse, MusicBrainzError>) -> (r: Option<
    Album,
>)
    ensures
        match outcome {
            Ok(response) => album_matches(r, resolve_of(*response)),
            Err(_) => r is None,
        },
{
    match outcome {
        Ok(response) => parse_metadata(response),
        Err(_) => None,
    }
}

} // verus!
