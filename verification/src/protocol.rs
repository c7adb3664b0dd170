//! Classification of the remote service's answers. Every write to the
//! remote carries an `If-Unmodified-Since-Version` precondition and every
//! answer carries a status code and, usually, a `Last-Modified-Version`
//! header; these functions turn that pair into the engine's next step.

use vstd::prelude::*;
use crate::error::Error;
use crate::error::SyncResult;
use crate::types::SyncStatus;
use crate::types::UploadAuthorization;
use crate::types::UploadAuthorizationResponse;

verus! {

/// What a precondition-bearing write to the remote came to.
#[derive(Debug, Clone, PartialEq, Eq)]
pub enum WriteOutcome {
    /// The write was taken; the library version advanced to `new_version`.
    Accepted { new_version: i64 },
    /// The remote holds this state already; the caller keeps its version.
    NotModified,
    /// The precondition failed: the entity moved remotely. The phase must
    /// abort and a full sync must run again.
    Conflict,
    /// The payload was too large; attachments must go through the
    /// file-upload flow instead.
    TooLarge,
    /// The remote asked for a pause; the write may be retried later.
    RateLimited,
    /// Any other failing answer, with its status code.
    Rejected { code: u16 },
}

/// The HTTP method of an entity upload: new entities are created by POST
/// on the container, existing ones replaced by PUT on their key.
#[derive(Debug, Clone, Copy, PartialEq, Eq, Structural)]
pub enum UploadMethod {
    Post,
    Put,
}

/// Picks the upload method from the entity's sync state.
pub fn upload_method(status: SyncStatus) -> (r: UploadMethod)
    ensures
        r is Post <==> status is New,
{
    match status {
        SyncStatus::New => UploadMethod::Post,
        _ => UploadMethod::Put,
    }
}

/// The version a successful write advances to: the header's
/// `Last-Modified-Version` when the remote sent one, else one past the
/// precondition the caller asserted.
pub open spec fn spec_accepted_version(lmv: Option<i64>, baseline: i64) -> int {
    match lmv {
        Some(v) => v as int,
        None => baseline + 1,
    }
}

/// Classifies the answer to an entity upload (POST or PUT with an
/// `If-Unmodified-Since-Version` precondition of `baseline`).
pub fn classify_write_status(code: u16, lmv: Option<i64>, baseline: i64) -> (r: WriteOutcome)
    requires
        baseline < i64::MAX,
    ensures
        code == 200 || code == 201 ==> r == (WriteOutcome::Accepted {
            new_version: spec_accepted_version(lmv, baseline) as i64,
        }),
        code == 304 ==> r is NotModified,
        code == 412 ==> r is Conflict,
        code == 413 ==> r is TooLarge,
        code == 429 || code == 503 ==> r is RateLimited,
        !(code == 200 || code == 201 || code == 304 || code == 412 || code == 413 || code == 429
            || code == 503) ==> r == (WriteOutcome::Rejected { code }),
{
    if code == 200 || code == 201 {
        let new_version: i64 = match lmv {
            Some(v) => v,
            None => baseline + 1,
        };
        WriteOutcome::Accepted { new_version }
    } else if code == 304 {
        WriteOutcome::NotModified
    } else if code == 412 {
        WriteOutcome::Conflict
    } else if code == 413 {
        WriteOutcome::TooLarge
    } else if code == 429 || code == 503 {
        WriteOutcome::RateLimited
    } else {
        WriteOutcome::Rejected { code }
    }
}

/// Classifies the answer to an entity deletion (DELETE with an
/// `If-Unmodified-Since-Version` precondition of `baseline`); the remote
/// acknowledges a deletion with status 204.
pub fn classify_delete_status(code: u16, lmv: Option<i64>, baseline: i64) -> (r: WriteOutcome)
    requires
        baseline < i64::MAX,
    ensures
        code == 204 ==> r == (WriteOutcome::Accepted {
            new_version: spec_accepted_version(lmv, baseline) as i64,
        }),
        code == 412 ==> r is Conflict,
        code == 429 || code == 503 ==> r is RateLimited,
        !(code == 204 || code == 412 || code == 429 || code == 503) ==> r == (
        WriteOutcome::Rejected { code }),
{
    if code == 204 {
        let new_version: i64 = match lmv {
            Some(v) => v,
            None => baseline + 1,
        };
        WriteOutcome::Accepted { new_version }
    } else if code == 412 {
        WriteOutcome::Conflict
    } else if code == 429 || code == 503 {
        WriteOutcome::RateLimited
    } else {
        WriteOutcome::Rejected { code }
    }
}

/// What a request for an attachment's download URL came to.
#[derive(Debug, Clone, PartialEq, Eq)]
pub enum RedirectOutcome {
    /// Status 302 with a location: the signed download URL.
    Redirect { url: String },
    /// Status 302 without a usable location header.
    BadRedirect,
    /// Status 404: the remote holds no blob for this item. Non-fatal;
    /// attachment download skips such items.
    Missing,
    /// Any other answer.
    Rejected { code: u16 },
}

/// Classifies the answer to an attachment download-URL request, which the
/// remote answers with a manual redirect.
pub fn classify_redirect(code: u16, location: Option<String>) -> (r: RedirectOutcome)
    ensures
        code == 302 && location is Some ==> r == (RedirectOutcome::Redirect {
            url: location->Some_0,
        }),
        code == 302 && location is None ==> r is BadRedirect,
        code == 404 ==> r is Missing,
        code != 302 && code != 404 ==> r == (RedirectOutcome::Rejected { code }),
{
    if code == 302 {
        match location {
            Some(url) => RedirectOutcome::Redirect { url },
            None => RedirectOutcome::BadRedirect,
        }
    } else if code == 404 {
        RedirectOutcome::Missing
    } else {
        RedirectOutcome::Rejected { code }
    }
}

/// Whether a status code reports success.
pub fn is_success_status(code: u16) -> (r: bool)
    ensures
        r <==> 200 <= code < 300,
{
    200 <= code && code < 300
}

/// Classifies the answer to a plain request that carries no version
/// (blob download, upload registration, key lookup): any non-success
/// status is surfaced as an API error with its code and body.
pub fn classify_simple_status(code: u16, message: String) -> (r: SyncResult<()>)
    ensures
        r is Ok <==> 200 <= code < 300,
        200 <= code < 300 ==> r is Ok,
        !(200 <= code < 300) ==> (r matches Err(Error::Api { code: c, message: m }) && c == code
            && m@ == message@),
{
    if is_success_status(code) {
        Ok(())
    } else {
        Err(Error::Api { code, message })
    }
}

/// Classifies the answer to a file upload-authorization request: 200
/// says the remote already holds identical content; 201 hands back the
/// upload URL, key and form parameters; anything else fails. A 201 whose
/// body could not be decoded is a validation failure.
pub fn classify_upload_auth(code: u16, parsed: Option<UploadAuthorizationResponse>, message: String)
    -> (r: SyncResult<UploadAuthorization>)
    ensures
        code == 200 ==> (r matches Ok(a) && a.exists && a.upload_url is None
            && a.upload_key is None && a.params is None),
        code == 201 && parsed is Some ==> (r matches Ok(a) && !a.exists && a.upload_url == Some(
            parsed->Some_0.url,
        ) && a.upload_key == Some(parsed->Some_0.upload_key) && a.params == Some(
            parsed->Some_0.params,
        )),
        code == 201 && parsed is None ==> r matches Err(Error::Validation(_)),
        code != 200 && code != 201 ==> (r matches Err(Error::Api { code: c, message: m }) && c
            == code && m@ == message@),
{
    if code == 200 {
        Ok(UploadAuthorization { exists: true, upload_url: None, upload_key: None, params: None })
    } else if code == 201 {
        match parsed {
            Some(auth) => Ok(
                UploadAuthorization {
                    exists: false,
                    upload_url: Some(auth.url),
                    upload_key: Some(auth.upload_key),
                    params: Some(auth.params),
                },
            ),
            None => Err(Error::Validation("upload authorization body missing".to_owned())),
        }
    } else {
        Err(Error::Api { code, message })
    }
}

/// The error a failing write outcome surfaces: a conflict is an API
/// error with code 412 — the caller must abort the phase and rerun a
/// full sync — an oversized payload one with 413, a rate limit its own
/// kind, and any other rejection an API error with its code. An accepted
/// or not-modified outcome surfaces nothing.
pub fn write_failure_error(outcome: &WriteOutcome) -> (r: Option<Error>)
    ensures
        outcome is Accepted || outcome is NotModified ==> r is None,
        outcome is Conflict ==> (r matches Some(Error::Api { code, .. }) && code == 412),
        outcome is TooLarge ==> (r matches Some(Error::Api { code, .. }) && code == 413),
        outcome is RateLimited ==> r == Some(Error::RateLimit { retry_after: None }),
        match *outcome {
            WriteOutcome::Rejected { code: c } => r matches Some(Error::Api { code, .. })
                && code == c,
            _ => true,
        },
{
    match outcome {
        WriteOutcome::Accepted { .. } | WriteOutcome::NotModified => None,
        WriteOutcome::Conflict => Some(
            Error::Api {
                code: 412,
                message: "entity modified remotely; a full sync is required".to_owned(),
            },
        ),
        WriteOutcome::TooLarge => Some(
            Error::Api {
                code: 413,
                message: "payload too large; the file upload flow is required".to_owned(),
            },
        ),
        WriteOutcome::RateLimited => Some(Error::RateLimit { retry_after: None }),
        WriteOutcome::Rejected { code } => Some(
            Error::Api { code: *code, message: "remote rejected the write".to_owned() },
        ),
    }
}

/// The pauses a response's rate-limit headers ask for, in seconds: the
/// advisory `Backoff` (slept first, it is the more urgent) and the hard
/// `Retry-After`. A header that is absent asks for no pause.
pub fn rate_limit_waits(backoff: Option<u64>, retry_after: Option<u64>) -> (r: (u64, u64))
    ensures
        r.0 == match backoff {
            Some(b) => b,
            None => 0u64,
        },
        r.1 == match retry_after {
            Some(a) => a,
            None => 0u64,
        },
{
    let b = match backoff {
        Some(b) => b,
        None => 0,
    };
    let a = match retry_after {
        Some(a) => a,
        None => 0,
    };
    (b, a)
}

/// The next pause of the default backoff ladder, applied on 429 or 503
/// answers that carry no rate-limit header: it starts at one second,
/// doubles, and is capped at sixty seconds.
pub fn next_default_backoff(current: u64) -> (r: u64)
    ensures
        current == 0 ==> r == 1,
        current > 0 && current * 2 <= 60 ==> r == current * 2,
        current > 0 && current * 2 > 60 ==> r == 60,
{
    if current == 0 {
        1
    } else if current <= 30 {
        current * 2
    } else {
        60
    }
}

/// The version watermark a listing answer reports: the header's
/// `Last-Modified-Version` when the remote sent one, else the watermark
/// the caller asked from.
pub fn version_from_header(lmv: Option<i64>, fallback: i64) -> (r: i64)
    ensures
        r == match lmv {
            Some(v) => v,
            None => fallback,
        },
{
    match lmv {
        Some(v) => v,
        None => fallback,
    }
}

} // verus!
