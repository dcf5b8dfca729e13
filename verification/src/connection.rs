//! The connection handler's decisions, separated from the socket work
//! that carries them out: what a read outcome means, whether and how a
//! body must be completed, and which best-effort status answers each
//! failure before the connection closes.
use vstd::prelude::*;
use crate::MAX_BODY_SIZE;
use crate::enums::http_error::HttpError;
use crate::enums::http_status_code::HttpStatusCode;
use crate::request::{HttpRequest, pairs_view, spec_content_length, spec_header_lookup};
use crate::enums::http_method::spec_method_has_body;

verus! {

/// What a completed header read means: bytes to parse, or the peer
/// closing before it sent anything. A read of zero bytes is a clean
/// close, never a timeout.
pub open spec fn spec_header_read(bytes_read: usize) -> Result<int, HttpError> {
    if bytes_read == 0 {
        Err(HttpError::ConnectionClosed)
    } else {
        Ok(bytes_read as int)
    }
}

/// What a body-bearing request still needs before it can be answered:
/// the count of body bytes yet to read, or the error that refuses it.
pub open spec fn spec_body_plan(req: HttpRequest) -> Result<int, HttpError> {
    if !spec_method_has_body(req.method) {
        Ok(0)
    } else if spec_header_lookup(pairs_view(req.headers@), "Transfer-Encoding"@) is Some {
        Err(HttpError::NotImplemented)
    } else {
        let declared = spec_content_length(req);
        if declared == 0 {
            Err(HttpError::BodyNotFound)
        } else if declared > MAX_BODY_SIZE as int {
            Err(HttpError::BodyTooLarge)
        } else if declared >= req.body@.len() {
            Ok(declared - req.body@.len())
        } else {
            Ok(0)
        }
    }
}

/// The status a failed connection is answered with before it closes,
/// where one is owed: rate-limit trips, timeouts, body-framing faults
/// and version refusals each get their status, while a clean close and
/// request-line parse failures get none.
pub open spec fn spec_error_status(e: HttpError) -> Option<HttpStatusCode> {
    match e {
        HttpError::TooManyRequests => Some(HttpStatusCode::TooManyRequests),
        HttpError::RequestTimeout => Some(HttpStatusCode::Timeout),
        HttpError::NotImplemented => Some(HttpStatusCode::NotImplemented),
        HttpError::BodyNotFound => Some(HttpStatusCode::BadRequest),
        HttpError::BodyTooLarge => Some(HttpStatusCode::BadRequest),
        HttpError::UnsupportedVersion => Some(HttpStatusCode::Unknown(505)),
        _ => None,
    }
}

/// Classifies a completed header read: either bytes arrived and
/// parsing may start, or the peer closed first.
pub fn header_read_result(bytes_read: usize) -> (r: Result<usize, HttpError>)
    ensures
        match r {
            Ok(n) => spec_header_read(bytes_read) == Ok::<int, HttpError>(n as int) && n
                == bytes_read,
            Err(e) => spec_header_read(bytes_read) == Err::<int, HttpError>(e),
        },
{
    if bytes_read == 0 {
        Err(HttpError::ConnectionClosed)
    } else {
        Ok(bytes_read)
    }
}

/// Decides body completion for a parsed request: chunked framing is
/// refused, a missing or zero `Content-Length` is refused, a length
/// over the ceiling is refused, and otherwise the caller learns how
/// many bytes are still owed beyond the prefix already in hand.
pub fn body_plan(req: &HttpRequest) -> (r: Result<usize, HttpError>)
    ensures
        match r {
            Ok(n) => spec_body_plan(*req) == Ok::<int, HttpError>(n as int),
            Err(e) => spec_body_plan(*req) == Err::<int, HttpError>(e),
        },
{
    if !req.method.has_body() {
        return Ok(0);
    }
    if req.has_header("Transfer-Encoding") {
        return Err(HttpError::NotImplemented);
    }
    let declared = req.content_length();
    if declared == 0 {
        return Err(HttpError::BodyNotFound);
    }
    if declared > MAX_BODY_SIZE {
        return Err(HttpError::BodyTooLarge);
    }
    Ok(declared.saturating_sub(req.body.len()))
}

/// The best-effort status for a failure, or `None` where the
/// connection just closes.
pub fn error_status(e: &HttpError) -> (r: Option<HttpStatusCode>)
    ensures
        r == spec_error_status(*e),
{
    match e {
        HttpError::TooManyRequests => Some(HttpStatusCode::TooManyRequests),
        HttpError::RequestTimeout => Some(HttpStatusCode::Timeout),
        HttpError::NotImplemented => Some(HttpStatusCode::NotImplemented),
        HttpError::BodyNotFound => Some(HttpStatusCode::BadRequest),
        HttpError::BodyTooLarge => Some(HttpStatusCode::BadRequest),
        HttpError::UnsupportedVersion => Some(HttpStatusCode::Unknown(505)),
        _ => None,
    }
}

} // verus!
