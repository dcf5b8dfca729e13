//! A minimal HTTP/1.0-1.1 server core: a byte-level request parser,
//! version-aware response formatting, connection-handling decisions,
//! and a sliding-window rate limiter, all with verified contracts.
use vstd::prelude::*;

pub mod connection;
pub mod enums;
pub mod helper;
pub mod protocols;
pub mod rate_limiter;
pub mod request;
pub mod response;
pub mod strutil;
pub mod traits;

pub use rate_limiter::{RateEntry, RateLimiter};
pub use request::{HttpRequest, RequestModel};
pub use helper::{http_date_string, sanitize_header_value};
pub use protocols::http_v10::HttpV10;
pub use protocols::http_v11::HttpV11;
pub use response::HttpResponse;
pub use traits::HttpProtocol;
pub use connection::{body_plan, error_status, header_read_result};
pub use enums::http_error::HttpError;
pub use enums::http_method::HttpMethod;
pub use enums::http_status_code::HttpStatusCode;
pub use enums::http_version::HttpVersion;

verus! {

/// Capacity of the buffer that receives the request line and headers.
pub const MAX_HEADERS_SIZE: usize = 2048;

/// Largest number of header lines accepted before the terminating blank line.
pub const MAX_HEADERS_LENGTH: usize = 25;

/// Largest accepted `Content-Length`, in bytes (2 MiB).
pub const MAX_BODY_SIZE: usize = 2097152;

/// Requests per rolling minute from one address before it is blocked.
pub const MAX_REQUEST_PER_MINUTE: u8 = 100;

/// Seconds after which an idle rate-limit record no longer counts.
pub const STALE_ENTRY_SECS: u64 = 60;

/// Seconds between two passes of the rate limiter's background sweep.
pub const SWEEP_PERIOD_SECS: u64 = 5;

/// Seconds a single read may take before it times out.
pub const READ_TIMEOUT_SECS: u64 = 6;

/// Seconds a whole connection may take before its absolute deadline.
pub const CONNECTION_DEADLINE_SECS: u64 = 12;

} // verus!
