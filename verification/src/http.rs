//! How HTTP responses are judged when fetching with retries.
use vstd::prelude::*;
use crate::text::{concat, concat3, push_all};

verus! {

/// What a response status means for a request.
#[derive(Debug, Clone)]
pub enum StatusClass {
    Success,
    Transient,
    Fatal,
}

/// Statuses worth retrying: timeouts, rate limits and passing server or
/// gateway failures.
pub open spec fn transient_status(code: u16) -> bool {
    code == 408 || code == 425 || code == 429 || code == 500 || code == 502 || code == 503 || code == 504
}

/// How a response status is treated: 2xx succeeds, the transient statuses
/// are retried, anything else fails at once.
pub fn classify_status(code: u16) -> (r: StatusClass)
    ensures
        200 <= code <= 299 ==> r is Success,
        !(200 <= code <= 299) && transient_status(code) ==> r is Transient,
        !(200 <= code <= 299) && !transient_status(code) ==> r is Fatal,
{
    if 200 <= code && code <= 299 {
        StatusClass::Success
    } else if code == 408 || code == 425 || code == 429 || code == 500 || code == 502 || code == 503 || code == 504 {
        StatusClass::Transient
    } else {
        StatusClass::Fatal
    }
}

/// How many times a request is tried.
pub const REQUEST_ATTEMPTS: u32 = 6;

/// Milliseconds of the first wait between request attempts.
pub const REQUEST_BACKOFF_MS: u64 = 400;

/// The error kept after a transient status: `HTTP <status> for <url>`.
pub fn transient_message(status: &str, url: &str) -> (r: String)
    ensures
        r@ == "HTTP "@ + status@ + " for "@ + url@,
{
    let mut r = concat3("HTTP ", status, " for ");
    push_all(&mut r, url);
    r
}

/// The error for a failing status, with the response body.
pub fn fatal_message(status: &str, url: &str, body: &str) -> (r: String)
    ensures
        r@ == "Download mislukt ("@ + status@ + ") "@ + url@ + ": "@ + body@,
{
    let mut r = concat3("Download mislukt (", status, ") ");
    push_all(&mut r, url);
    push_all(&mut r, ": ");
    push_all(&mut r, body);
    r
}

/// The error kept after a request could not be sent.
pub fn network_message(url: &str, err: &str) -> (r: String)
    ensures
        r@ == "Netwerkfout bij "@ + url@ + ": "@ + err@,
{
    let mut r = concat3("Netwerkfout bij ", url, ": ");
    push_all(&mut r, err);
    r
}

} // verus!
