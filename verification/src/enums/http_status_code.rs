use vstd::prelude::*;
use vstd::utf8::encode_utf8;
use crate::strutil::lemma_encode_utf8_len;

verus! {

/// The status codes this server can emit; `Unknown` carries any other
/// numeric code verbatim.
pub enum HttpStatusCode {
    Okay,
    Created,
    NoContent,
    BadRequest,
    Unauthorized,
    Forbidden,
    NotFound,
    Timeout,
    TooManyRequests,
    InternalServerError,
    NotImplemented,
    BadGateway,
    ServiceUnavailable,
    Unknown(u16),
}

/// The numeric code of a status.
pub open spec fn spec_code(status: HttpStatusCode) -> u16 {
    match status {
        HttpStatusCode::Okay => 200,
        HttpStatusCode::Created => 201,
        HttpStatusCode::NoContent => 204,
        HttpStatusCode::BadRequest => 400,
        HttpStatusCode::Unauthorized => 401,
        HttpStatusCode::Forbidden => 403,
        HttpStatusCode::NotFound => 404,
        HttpStatusCode::Timeout => 408,
        HttpStatusCode::TooManyRequests => 429,
        HttpStatusCode::InternalServerError => 500,
        HttpStatusCode::NotImplemented => 501,
        HttpStatusCode::BadGateway => 502,
        HttpStatusCode::ServiceUnavailable => 503,
        HttpStatusCode::Unknown(code) => code,
    }
}

/// The reason phrase of a status, which also serves as the response body.
pub open spec fn spec_reason(status: HttpStatusCode) -> Seq<char> {
    match status {
        HttpStatusCode::Okay => "OK"@,
        HttpStatusCode::Created => "Created"@,
        HttpStatusCode::NoContent => "No Content"@,
        HttpStatusCode::BadRequest => "Bad Request"@,
        HttpStatusCode::Unauthorized => "Unauthorized"@,
        HttpStatusCode::Forbidden => "Forbidden"@,
        HttpStatusCode::NotFound => "Not Found"@,
        HttpStatusCode::Timeout => "Request Timeout"@,
        HttpStatusCode::TooManyRequests => "Too Many Requests"@,
        HttpStatusCode::InternalServerError => "Internal Server Error"@,
        HttpStatusCode::NotImplemented => "Not Implemented"@,
        HttpStatusCode::BadGateway => "Bad Gateway"@,
        HttpStatusCode::ServiceUnavailable => "Service Unavailable"@,
        HttpStatusCode::Unknown(_) => "Unknown"@,
    }
}

/// Every reason phrase is short: its UTF-8 encoding fits easily in a
/// machine word.
pub proof fn lemma_reason_len(status: HttpStatusCode)
    ensures
        encode_utf8(spec_reason(status)).len() <= 84,
{
    reveal_strlit("OK");
    reveal_strlit("Created");
    reveal_strlit("No Content");
    reveal_strlit("Bad Request");
    reveal_strlit("Unauthorized");
    reveal_strlit("Forbidden");
    reveal_strlit("Not Found");
    reveal_strlit("Request Timeout");
    reveal_strlit("Too Many Requests");
    reveal_strlit("Internal Server Error");
    reveal_strlit("Not Implemented");
    reveal_strlit("Bad Gateway");
    reveal_strlit("Service Unavailable");
    reveal_strlit("Unknown");
    lemma_encode_utf8_len(spec_reason(status));
}

impl HttpStatusCode {
    pub fn code(&self) -> (r: u16)
        ensures
            r == spec_code(*self),
    {
        match self {
            HttpStatusCode::Okay => 200,
            HttpStatusCode::Created => 201,
            HttpStatusCode::NoContent => 204,
            HttpStatusCode::BadRequest => 400,
            HttpStatusCode::Unauthorized => 401,
            HttpStatusCode::Forbidden => 403,
            HttpStatusCode::NotFound => 404,
            HttpStatusCode::Timeout => 408,
            HttpStatusCode::TooManyRequests => 429,
            HttpStatusCode::InternalServerError => 500,
            HttpStatusCode::NotImplemented => 501,
            HttpStatusCode::BadGateway => 502,
            HttpStatusCode::ServiceUnavailable => 503,
            HttpStatusCode::Unknown(code) => *code,
        }
    }

    pub fn reason(&self) -> (r: &'static str)
        ensures
            r@ == spec_reason(*self),
    {
        match self {
            HttpStatusCode::Okay => "OK",
            HttpStatusCode::Created => "Created",
            HttpStatusCode::NoContent => "No Content",
            HttpStatusCode::BadRequest => "Bad Request",
            HttpStatusCode::Unauthorized => "Unauthorized",
            HttpStatusCode::Forbidden => "Forbidden",
            HttpStatusCode::NotFound => "Not Found",
            HttpStatusCode::Timeout => "Request Timeout",
            HttpStatusCode::TooManyRequests => "Too Many Requests",
            HttpStatusCode::InternalServerError => "Internal Server Error",
            HttpStatusCode::NotImplemented => "Not Implemented",
            HttpStatusCode::BadGateway => "Bad Gateway",
            HttpStatusCode::ServiceUnavailable => "Service Unavailable",
            HttpStatusCode::Unknown(_) => "Unknown",
        }
    }
}

} // verus!
