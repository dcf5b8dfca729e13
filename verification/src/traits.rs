//! The capability both protocol strategies implement: map a completed
//! request to response bytes. Each implementation states its own exact
//! contract.
use vstd::prelude::*;
use crate::enums::http_error::HttpError;
use crate::request::HttpRequest;

verus! {

/// One protocol version's way of answering a completed request.
pub trait HttpProtocol {
    fn handle(request: HttpRequest) -> Result<Vec<u8>, HttpError>;
}

} // verus!
