//! Version dispatch: a completed request becomes response bytes plus a
//! persistence decision, or is refused because its version is not
//! served.
use vstd::prelude::*;
use vstd::utf8::encode_utf8;
use crate::enums::http_error::HttpError;
use crate::enums::http_status_code::HttpStatusCode;
use crate::enums::http_version::{HttpVersion, spec_version_from, spec_version_is_supported};
use crate::connection::spec_error_status;
use crate::protocols::http_v10::{HttpV10, lemma_v10_connection_close, spec_render_v10};
use crate::protocols::http_v11::{HttpV11, spec_keep_alive, spec_render_v11};
use crate::helper::no_line_breaks;
use crate::request::{HttpRequest, get_header_value, pairs_view};
use crate::strutil::{dec_digits, digit_char, spec_contains, str_eq_ignore_ascii_case};
use crate::traits::HttpProtocol;

verus! {

/// The version-rejection law: a request line ending in `HTTP/2.0` or
/// `HTTP/3.0` parses to a version the dispatcher refuses with
/// `UnsupportedVersion`; that failure is answered with status 505
/// through the 1.0-style formatter, whose response both opens with
/// `HTTP/1.0 505 ` and orders the connection closed.
pub proof fn lemma_version_rejection()
    ensures
        !spec_version_is_supported(spec_version_from("HTTP/2.0"@)),
        !spec_version_is_supported(spec_version_from("HTTP/3.0"@)),
        spec_error_status(HttpError::UnsupportedVersion) == Some(
            HttpStatusCode::Unknown(505),
        ),
        spec_render_v10(HttpStatusCode::Unknown(505)).subrange(0, 13) == "HTTP/1.0 505 "@,
        spec_contains(
            spec_render_v10(HttpStatusCode::Unknown(505)),
            "\r\nConnection: close\r\n"@,
        ),
{
    reveal_strlit("HTTP/1.0");
    reveal_strlit("HTTP/1.1");
    reveal_strlit("HTTP/2.0");
    reveal_strlit("HTTP/3.0");
    assert("HTTP/2.0"@ != "HTTP/1.0"@ && "HTTP/2.0"@ != "HTTP/1.1"@) by {
        assert("HTTP/2.0"@[5] == '2' && "HTTP/1.0"@[5] == '1' && "HTTP/1.1"@[5] == '1');
    }
    assert("HTTP/3.0"@ != "HTTP/1.0"@ && "HTTP/3.0"@ != "HTTP/1.1"@ && "HTTP/3.0"@
        != "HTTP/2.0"@) by {
        assert("HTTP/3.0"@[5] == '3');
    }
    let five_o_five = HttpStatusCode::Unknown(505);
    assert(dec_digits(505) =~= seq!['5', '0', '5']) by {
        assert(dec_digits(5) =~= seq!['5']);
        assert(dec_digits(50) =~= dec_digits(5).push(digit_char(0)));
        assert(dec_digits(505) =~= dec_digits(50).push(digit_char(5)));
    }
    reveal_strlit("HTTP/1.0 ");
    reveal_strlit(" ");
    reveal_strlit("HTTP/1.0 505 ");
    assert(spec_render_v10(five_o_five).subrange(0, 13) =~= "HTTP/1.0 505 "@);
    lemma_v10_connection_close(five_o_five);
}

/// What one request/response cycle leaves to write and to decide: the
/// bytes to send, and whether the transport stays open afterwards.
#[derive(Debug)]
pub struct HttpResponse {
    pub keep_connection_alive: bool,
    pub body: Vec<u8>,
}

impl HttpResponse {
    /// Maps a parsed request to its response by declared version: 1.0
    /// always closes, 1.1 echoes the request's keep-alive wish, and
    /// every other version is refused here, at the dispatch boundary.
    pub fn new(req: HttpRequest) -> (r: Result<HttpResponse, HttpError>)
        ensures
            match r {
                Err(e) => !spec_version_is_supported(req.version) && e
                    == HttpError::UnsupportedVersion,
                Ok(res) => spec_version_is_supported(req.version) && match req.version {
                    HttpVersion::Http10 => res.keep_connection_alive == false && res.body@
                        == encode_utf8(spec_render_v10(HttpStatusCode::NotFound)),
                    HttpVersion::Http11 => res.keep_connection_alive == spec_keep_alive(
                        pairs_view(req.headers@),
                    ) && exists|d: Seq<char>|
                        no_line_breaks(d) && res.body@ == encode_utf8(
                            #[trigger] spec_render_v11(
                                HttpStatusCode::NotFound,
                                spec_keep_alive(pairs_view(req.headers@)),
                                d,
                            ),
                        ),
                    _ => false,
                },
            },
    {
        let version = req.version;
        let (keep_alive, body): (bool, Vec<u8>) = match version {
            HttpVersion::Http10 => {
                let body = match HttpV10::handle(req) {
                    Ok(body) => body,
                    Err(e) => {
                        return Err(e);
                    },
                };
                (false, body)
            },
            HttpVersion::Http11 => {
                let keep_alive: bool = match get_header_value(&req.headers, "Connection") {
                    Some(v) => str_eq_ignore_ascii_case(v.as_str(), "keep-alive"),
                    None => false,
                };
                let body = match HttpV11::handle(req) {
                    Ok(body) => body,
                    Err(e) => {
                        return Err(e);
                    },
                };
                (keep_alive, body)
            },
            _ => {
                return Err(HttpError::UnsupportedVersion);
            },
        };
        Ok(HttpResponse { keep_connection_alive: keep_alive, body })
    }
}

} // verus!
