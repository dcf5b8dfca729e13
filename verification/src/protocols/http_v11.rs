//! The HTTP/1.1 strategy: the connection stays open exactly when the
//! request asked to keep it alive, and the response head carries a
//! date.
use vstd::prelude::*;
use vstd::string::{StrSliceExecFns, StringExecFns};
use vstd::utf8::encode_utf8;
use crate::enums::http_error::HttpError;
use crate::enums::http_status_code::{HttpStatusCode, lemma_reason_len, spec_code, spec_reason};
use crate::helper::{http_date_string, no_line_breaks};
use crate::request::{HttpRequest, get_header_value, pairs_view, spec_header_lookup};
use crate::strutil::{dec_digits, eq_ignore_case, spec_contains, str_eq_ignore_ascii_case, usize_to_string};
use crate::traits::HttpProtocol;

verus! {

/// Whether a header list asks for the connection to be kept open: its
/// `Connection` value equals `keep-alive` up to ASCII case.
pub open spec fn spec_keep_alive(hs: Seq<(Seq<char>, Seq<char>)>) -> bool {
    match spec_header_lookup(hs, "Connection"@) {
        Some(v) => eq_ignore_case(v, "keep-alive"@),
        None => false,
    }
}

/// The `Connection` value a response echoes.
pub open spec fn spec_conn_token(keep_alive: bool) -> Seq<char> {
    if keep_alive {
        "keep-alive"@
    } else {
        "close"@
    }
}

/// Everything in a 1.1 response head before its `Connection` line.
pub open spec fn spec_head_v11(status: HttpStatusCode) -> Seq<char> {
    "HTTP/1.1 "@ + dec_digits(spec_code(status) as int) + " "@ + spec_reason(status)
        + "\r\nContent-Type: text/plain\r\nContent-Length: "@ + dec_digits(
        encode_utf8(spec_reason(status)).len() as int,
    ) + "\r\n"@
}

/// A whole 1.1 response: head, the echoed `Connection` value, the
/// date, the server line, and the reason phrase as body.
pub open spec fn spec_render_v11(status: HttpStatusCode, keep_alive: bool, date: Seq<char>) -> Seq<
    char,
> {
    spec_head_v11(status) + "Connection: "@ + spec_conn_token(keep_alive) + "\r\n"@ + "Date: "@
        + date + "\r\n"@ + "Server: RustRate/1.0.0\r\n\r\n"@ + spec_reason(status)
}

/// The 1.1 persistence law: a 1.1 response echoes the persistence
/// decision in its own head. When the request asked to keep the
/// connection alive it carries `Connection: keep-alive`, and otherwise
/// `Connection: close`, whatever the status and the date.
pub proof fn lemma_v11_connection(status: HttpStatusCode, keep_alive: bool, date: Seq<char>)
    ensures
        keep_alive ==> spec_contains(
            spec_render_v11(status, keep_alive, date),
            "\r\nConnection: keep-alive\r\n"@,
        ),
        !keep_alive ==> spec_contains(
            spec_render_v11(status, keep_alive, date),
            "\r\nConnection: close\r\n"@,
        ),
{
    reveal_strlit("\r\n");
    reveal_strlit("Connection: ");
    reveal_strlit("keep-alive");
    reveal_strlit("close");
    reveal_strlit("\r\nConnection: keep-alive\r\n");
    reveal_strlit("\r\nConnection: close\r\n");
    let hay = spec_render_v11(status, keep_alive, date);
    let k = spec_head_v11(status).len() - 2;
    if keep_alive {
        let needle = "\r\nConnection: keep-alive\r\n"@;
        assert(hay.subrange(k, k + needle.len() as int) =~= needle);
    } else {
        let needle = "\r\nConnection: close\r\n"@;
        assert(hay.subrange(k, k + needle.len() as int) =~= needle);
    }
}

/// The HTTP/1.1 responder.
pub struct HttpV11;

impl HttpProtocol for HttpV11 {
    fn handle(request: HttpRequest) -> (r: Result<Vec<u8>, HttpError>)
        ensures
            match r {
                Ok(body) => exists|d: Seq<char>|
                    no_line_breaks(d) && body@ == encode_utf8(
                        #[trigger] spec_render_v11(
                            HttpStatusCode::NotFound,
                            spec_keep_alive(pairs_view(request.headers@)),
                            d,
                        ),
                    ),
                Err(_) => false,
            },
    {
        let res = Self::from_status_code(HttpStatusCode::NotFound, request.headers);
        Ok(res.as_str().as_bytes_vec())
    }
}

impl HttpV11 {
    /// Renders a bare status as a full 1.1 response, echoing the
    /// request headers' persistence wish.
    pub fn from_status_code(status: HttpStatusCode, headers: Vec<(String, String)>) -> (r: String)
        ensures
            exists|d: Seq<char>|
                no_line_breaks(d) && r@ == #[trigger] spec_render_v11(
                    status,
                    spec_keep_alive(pairs_view(headers@)),
                    d,
                ),
    {
        let keep_alive: bool = match get_header_value(&headers, "Connection") {
            Some(v) => str_eq_ignore_ascii_case(v.as_str(), "keep-alive"),
            None => false,
        };
        let connection_header = if keep_alive {
            "keep-alive"
        } else {
            "close"
        };
        let date = http_date_string();
        let code_str = usize_to_string(status.code() as usize);
        let reason = status.reason();
        let len_str = usize_to_string(reason.len());
        let mut out = "HTTP/1.1 ".to_owned();
        out.append(code_str.as_str());
        out.append(" ");
        out.append(reason);
        out.append("\r\nContent-Type: text/plain\r\nContent-Length: ");
        out.append(len_str.as_str());
        out.append("\r\n");
        out.append("Connection: ");
        out.append(connection_header);
        out.append("\r\n");
        out.append("Date: ");
        out.append(date.as_str());
        out.append("\r\n");
        out.append("Server: RustRate/1.0.0\r\n\r\n");
        out.append(reason);
        proof {
            lemma_reason_len(status);
            assert(len_str@ == dec_digits(encode_utf8(spec_reason(status)).len() as int));
            assert(connection_header@ == spec_conn_token(
                spec_keep_alive(pairs_view(headers@)),
            ));
            assert(out@ =~= spec_render_v11(
                status,
                spec_keep_alive(pairs_view(headers@)),
                date@,
            ));
        }
        out
    }
}

} // verus!
