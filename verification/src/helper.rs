//! Small shared helpers: header-value sanitizing and the HTTP-date
//! string that responses carry.
use vstd::prelude::*;
use crate::strutil::{remove_crlf, strip_crlf};

verus! {

/// Whether a string is free of the two line-break bytes, so that it
/// cannot break a response head apart.
pub open spec fn no_line_breaks(s: Seq<char>) -> bool {
    forall|i: int| 0 <= i < s.len() ==> s[i] != '\r' && s[i] != '\n'
}

/// Strips embedded carriage returns and line feeds out of a header
/// value, against header injection.
pub fn sanitize_header_value(value: &str) -> (r: String)
    ensures
        r@ == strip_crlf(value@),
{
    remove_crlf(value)
}

/// The current moment formatted as an RFC 1123 GMT date, for the
/// `Date` response header.
///
/// Relies on `chrono::Utc::now` and `DateTime::format` with a fixed
/// format of English names and digits: whatever the moment, the text
/// holds no carriage return and no line feed.
#[verifier::external_body]
pub fn http_date_string() -> (r: String)
    ensures
        no_line_breaks(r@),
{
    let now = chrono::Utc::now();
    now.format("%a, %d %b %Y %H:%M:%S GMT").to_string()
}

} // verus!
