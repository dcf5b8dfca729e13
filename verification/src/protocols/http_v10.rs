//! The HTTP/1.0 strategy: responses always close the connection, and
//! the response head carries no date.
use vstd::prelude::*;
use vstd::string::{StrSliceExecFns, StringExecFns};
use vstd::utf8::encode_utf8;
use crate::enums::http_error::HttpError;
use crate::enums::http_status_code::{HttpStatusCode, lemma_reason_len, spec_code, spec_reason};
use crate::request::HttpRequest;
use crate::strutil::{dec_digits, spec_contains, usize_to_string};
use crate::traits::HttpProtocol;

verus! {

/// Everything in a 1.0 response head before its `Connection` line.
pub open spec fn spec_head_v10(status: HttpStatusCode) -> Seq<char> {
    "HTTP/1.0 "@ + dec_digits(spec_code(status) as int) + " "@ + spec_reason(status)
        + "\r\nContent-Type: text/plain\r\nContent-Length: "@ + dec_digits(
        encode_utf8(spec_reason(status)).len() as int,
    ) + "\r\n"@
}

/// A whole 1.0 response: head, `Connection: close`, the server line,
/// and the reason phrase as body.
pub open spec fn spec_render_v10(status: HttpStatusCode) -> Seq<char> {
    spec_head_v10(status) + "Connection: close\r\n"@ + "Server: RustRate/1.0.0\r\n\r\n"@
        + spec_reason(status)
}

/// The 1.0 persistence law: whatever the status and whatever the
/// request asked, a 1.0 response carries the header line
/// `Connection: close`.
pub proof fn lemma_v10_connection_close(status: HttpStatusCode)
    ensures
        spec_contains(spec_render_v10(status), "\r\nConnection: close\r\n"@),
{
    reveal_strlit("\r\n");
    reveal_strlit("Connection: close\r\n");
    reveal_strlit("\r\nConnection: close\r\n");
    let hay = spec_render_v10(status);
    let needle = "\r\nConnection: close\r\n"@;
    let k = spec_head_v10(status).len() - 2;
    assert(hay.subrange(k, k + needle.len() as int) =~= needle);
}

/// The HTTP/1.0 responder.
pub struct HttpV10;

impl HttpProtocol for HttpV10 {
    fn handle(_request: HttpRequest) -> (r: Result<Vec<u8>, HttpError>)
        ensures
            match r {
                Ok(body) => body@ == encode_utf8(spec_render_v10(HttpStatusCode::NotFound)),
                Err(_) => false,
            },
    {
        let res = Self::from_status_code(HttpStatusCode::NotFound);
        Ok(res.as_str().as_bytes_vec())
    }
}

impl HttpV10 {
    /// Renders a bare status as a full 1.0 response.
    pub fn from_status_code(status: HttpStatusCode) -> (r: String)
        ensures
            r@ == spec_render_v10(status),
    {
        let code_str = usize_to_string(status.code() as usize);
        let reason = status.reason();
        let len_str = usize_to_string(reason.len());
        let mut out = "HTTP/1.0 ".to_owned();
        out.append(code_str.as_str());
        out.append(" ");
        out.append(reason);
        out.append("\r\nContent-Type: text/plain\r\nContent-Length: ");
        out.append(len_str.as_str());
        out.append("\r\n");
        out.append("Connection: close\r\n");
        out.append("Server: RustRate/1.0.0\r\n\r\n");
        out.append(reason);
        proof {
            lemma_reason_len(status);
            assert(len_str@ == dec_digits(encode_utf8(spec_reason(status)).len() as int));
            assert(out@ =~= spec_render_v10(status));
        }
        out
    }
}

} // verus!
