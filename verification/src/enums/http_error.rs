use vstd::prelude::*;

verus! {

/// Everything that can go wrong between accepting a connection and
/// writing its response.
#[derive(Debug, Clone, Copy, PartialEq, Eq, Structural)]
pub enum HttpError {
    DecodeUrlFailed,
    UnsupportedMethod,
    UnsupportedVersion,
    MethodNotFound,
    UrlNotFound,
    VersionNotFound,
    ConnectionClosed,
    HeadersTooLarge,
    BodyTooLarge,
    BodyNotFound,
    RequestLineNotFound,
    RequestTimeout,
    NotImplemented,
    TooManyRequests,
}

/// The name an error prints under.
pub open spec fn spec_error_str(e: HttpError) -> Seq<char> {
    match e {
        HttpError::DecodeUrlFailed => "DecodeUrlFailed"@,
        HttpError::UnsupportedMethod => "UnsupportedMethod"@,
        HttpError::UnsupportedVersion => "UnsupportedVersion"@,
        HttpError::MethodNotFound => "MethodNotFound"@,
        HttpError::UrlNotFound => "UrlNotFound"@,
        HttpError::VersionNotFound => "HttpVersionNotFound"@,
        HttpError::ConnectionClosed => "ConnectionClosed"@,
        HttpError::HeadersTooLarge => "HeadersTooLarge"@,
        HttpError::BodyTooLarge => "BodyTooLarge"@,
        HttpError::BodyNotFound => "BodyNotFound"@,
        HttpError::RequestLineNotFound => "RequestLineNotFound"@,
        HttpError::RequestTimeout => "RequestTimeout"@,
        HttpError::NotImplemented => "NotImplemented"@,
        HttpError::TooManyRequests => "TooManyRequests"@,
    }
}

impl HttpError {
    pub fn as_str(&self) -> (r: &'static str)
        ensures
            r@ == spec_error_str(*self),
    {
        match self {
            HttpError::DecodeUrlFailed => "DecodeUrlFailed",
            HttpError::UnsupportedMethod => "UnsupportedMethod",
            HttpError::UnsupportedVersion => "UnsupportedVersion",
            HttpError::MethodNotFound => "MethodNotFound",
            HttpError::UrlNotFound => "UrlNotFound",
            HttpError::VersionNotFound => "HttpVersionNotFound",
            HttpError::ConnectionClosed => "ConnectionClosed",
            HttpError::HeadersTooLarge => "HeadersTooLarge",
            HttpError::BodyTooLarge => "BodyTooLarge",
            HttpError::BodyNotFound => "BodyNotFound",
            HttpError::RequestLineNotFound => "RequestLineNotFound",
            HttpError::RequestTimeout => "RequestTimeout",
            HttpError::NotImplemented => "NotImplemented",
            HttpError::TooManyRequests => "TooManyRequests",
        }
    }
}

} // verus!
