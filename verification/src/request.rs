//! The byte-level request parser: one buffer in, a structured request
//! or a precise parse error out. The grammar is stated as spec
//! functions over the raw byte sequence, and the executable parser is
//! proved to follow them.
use vstd::prelude::*;
use vstd::slice::slice_to_vec;
use vstd::utf8::{decode_utf8, encode_utf8, valid_utf8};
use crate::MAX_HEADERS_LENGTH;
use crate::enums::http_error::HttpError;
use crate::enums::http_method::{
    HttpMethod, spec_method_from, spec_method_has_body, spec_method_is_supported,
};
use crate::enums::http_version::{HttpVersion, spec_version_from};
use crate::strutil::{
    bytes_to_str, dec_value, find_char, find_char_from, is_dec_string, is_space_char, num_part,
    parse_usize, spec_trim, str_eq, str_trim, strip_crlf,
};
use crate::helper::sanitize_header_value;

verus! {

/// A parsed request. `headers` keeps the header lines in arrival
/// order; a name given twice is read last-write-wins through
/// [`spec_header_lookup`].
#[derive(Debug)]
pub struct HttpRequest {
    pub path: String,
    pub method: HttpMethod,
    pub version: HttpVersion,
    pub headers: Vec<(String, String)>,
    pub body: Vec<u8>,
}

/// What a request parses to, stated over the raw bytes: everything
/// except the percent-decoded path, which the decoder contributes.
pub struct RequestModel {
    pub method: HttpMethod,
    pub version: HttpVersion,
    pub headers: Seq<(Seq<char>, Seq<char>)>,
    pub body: Seq<u8>,
}

/// The first position at or after `i` where a CRLF pair starts, or -1.
pub open spec fn find_crlf_from(b: Seq<u8>, i: int) -> int
    decreases b.len() - i,
{
    if i < 0 || i + 1 >= b.len() {
        -1
    } else if b[i] == 13 && b[i + 1] == 10 {
        i
    } else {
        find_crlf_from(b, i + 1)
    }
}

/// Where the request line ends: the buffer's first CRLF.
pub open spec fn spec_line_end(b: Seq<u8>) -> int {
    find_crlf_from(b, 0)
}

/// The request line's bytes.
pub open spec fn spec_line(b: Seq<u8>) -> Seq<u8> {
    b.subrange(0, spec_line_end(b))
}

/// The request line's characters.
pub open spec fn spec_line_chars(b: Seq<u8>) -> Seq<char> {
    decode_utf8(spec_line(b))
}

/// Where the method token ends: the request line's first space.
pub open spec fn spec_p1(b: Seq<u8>) -> int {
    find_char_from(spec_line_chars(b), ' ', 0)
}

/// The method token: the request line up to its first space.
pub open spec fn spec_method_token(b: Seq<u8>) -> Seq<char> {
    spec_line_chars(b).subrange(0, spec_p1(b))
}

/// The method the buffer names.
pub open spec fn spec_method(b: Seq<u8>) -> HttpMethod {
    spec_method_from(spec_method_token(b))
}

/// The request line after the first space.
pub open spec fn spec_rest_chars(b: Seq<u8>) -> Seq<char> {
    spec_line_chars(b).subrange(spec_p1(b) + 1, spec_line_chars(b).len() as int)
}

/// Where the path token ends within the line's remainder.
pub open spec fn spec_p2(b: Seq<u8>) -> int {
    find_char_from(spec_rest_chars(b), ' ', 0)
}

/// The path token, still percent-encoded.
pub open spec fn spec_path_token(b: Seq<u8>) -> Seq<char> {
    spec_rest_chars(b).subrange(0, spec_p2(b))
}

/// The version token: everything after the second space.
pub open spec fn spec_version_token(b: Seq<u8>) -> Seq<char> {
    spec_rest_chars(b).subrange(spec_p2(b) + 1, spec_rest_chars(b).len() as int)
}

/// The version the buffer names.
pub open spec fn spec_version(b: Seq<u8>) -> HttpVersion {
    spec_version_from(spec_version_token(b))
}

/// The request line's verdict, up to the path token: either one of the
/// request-line errors, or the still-encoded path token awaiting the
/// percent decoder.
pub open spec fn spec_head(b: Seq<u8>) -> Result<Seq<char>, HttpError> {
    if spec_line_end(b) < 0 {
        Err(HttpError::RequestLineNotFound)
    } else if !valid_utf8(spec_line(b)) {
        Err(HttpError::RequestLineNotFound)
    } else if !spec_method_is_supported(spec_method(b)) {
        Err(HttpError::UnsupportedMethod)
    } else if spec_p1(b) == spec_line_chars(b).len() {
        Err(HttpError::UrlNotFound)
    } else {
        Ok(spec_path_token(b))
    }
}

/// One header line split at its first colon: trimmed name, trimmed and
/// sanitized value. A line without a colon, or one that is not UTF-8,
/// contributes nothing.
pub open spec fn spec_parse_header(line: Seq<u8>) -> Option<(Seq<char>, Seq<char>)> {
    if !valid_utf8(line) {
        None
    } else {
        let s = decode_utf8(line);
        let c = find_char_from(s, ':', 0);
        if c == s.len() {
            None
        } else {
            Some(
                (
                    spec_trim(s.subrange(0, c)),
                    strip_crlf(spec_trim(s.subrange(c + 1, s.len() as int))),
                ),
            )
        }
    }
}

/// The header scan, carried out from CRLF to CRLF. `i` is the scan
/// position, `j` the start of the slice that holds the line being
/// gathered, `n` the header lines seen, and `hs` those already parsed.
/// It ends `Some((headers, body start, line count))` at the blank
/// line, or `None` when the buffer runs out first.
pub open spec fn spec_scan_headers(
    b: Seq<u8>,
    i: int,
    j: int,
    n: int,
    hs: Seq<(Seq<char>, Seq<char>)>,
) -> Option<(Seq<(Seq<char>, Seq<char>)>, int, int)>
    decreases b.len() - i,
{
    if i < 0 || i + 3 >= b.len() {
        None
    } else if b[i] == 13 && b[i + 1] == 10 {
        let hs2 = match spec_parse_header(b.subrange(j, i)) {
            Some(kv) => hs.push(kv),
            None => hs,
        };
        if b[i + 2] == 13 && b[i + 3] == 10 {
            Some((hs2, i + 4, n))
        } else {
            spec_scan_headers(b, i + 2, i, n + 1, hs2)
        }
    } else {
        spec_scan_headers(b, i + 1, j, n, hs)
    }
}

/// What parsing yields once the path token is in hand: the version
/// must be present, the header block must close within the buffer and
/// within the line ceiling, and only a body-bearing method keeps the
/// trailing bytes.
pub open spec fn spec_rest(b: Seq<u8>) -> Result<RequestModel, HttpError> {
    if spec_p2(b) == spec_rest_chars(b).len() {
        Err(HttpError::VersionNotFound)
    } else {
        match spec_scan_headers(b, spec_line_end(b), spec_line_end(b), 0, Seq::empty()) {
            None => Err(HttpError::HeadersTooLarge),
            Some((hs, body_start, n)) => if n > MAX_HEADERS_LENGTH as int {
                Err(HttpError::HeadersTooLarge)
            } else {
                Ok(
                    RequestModel {
                        method: spec_method(b),
                        version: spec_version(b),
                        headers: hs,
                        body: if spec_method_has_body(spec_method(b)) {
                            b.subrange(body_start, b.len() as int)
                        } else {
                            Seq::empty()
                        },
                    },
                )
            },
        }
    }
}

/// The header pairs as character sequences.
pub open spec fn pairs_view(hs: Seq<(String, String)>) -> Seq<(Seq<char>, Seq<char>)> {
    Seq::new(hs.len(), |i: int| (hs[i].0@, hs[i].1@))
}

/// The value recorded under `key`: of several lines with one name, the
/// last written wins.
pub open spec fn spec_header_lookup(
    hs: Seq<(Seq<char>, Seq<char>)>,
    key: Seq<char>,
) -> Option<Seq<char>>
    decreases hs.len(),
{
    if hs.len() == 0 {
        None
    } else if hs.last().0 == key {
        Some(hs.last().1)
    } else {
        spec_header_lookup(hs.drop_last(), key)
    }
}

/// The body length a request declares: its `Content-Length` value read
/// as a decimal number, or zero when absent or unreadable.
pub open spec fn spec_content_length(req: HttpRequest) -> int {
    match spec_header_lookup(pairs_view(req.headers@), "Content-Length"@) {
        Some(v) => if is_dec_string(v) && dec_value(num_part(v)) <= usize::MAX {
            dec_value(num_part(v))
        } else {
            0
        },
        None => 0,
    }
}

/// Whether a token holds no percent sign, so that decoding it is the
/// identity.
pub open spec fn no_percent(s: Seq<char>) -> bool {
    forall|i: int| 0 <= i < s.len() ==> s[i] != '%'
}

/// Whether a parsed request carries exactly what the buffer said, with
/// `path` as the decoded path.
pub open spec fn model_matches(req: HttpRequest, path: Seq<char>, m: RequestModel) -> bool {
    &&& req.method == m.method
    &&& req.version == m.version
    &&& req.path@ == path
    &&& pairs_view(req.headers@) == m.headers
    &&& req.body@ == m.body
}

/// Whether every character is plain ASCII text that cannot disturb the
/// line structure: below 128 and neither carriage return nor line feed.
pub open spec fn plain_chars(s: Seq<char>) -> bool {
    forall|i: int|
        0 <= i < s.len() ==> (((#[trigger] s[i]) as u32) < 128 && s[i] != '\r' && s[i] != '\n')
}

/// No character of `s` is a space.
pub open spec fn no_space(s: Seq<char>) -> bool {
    forall|i: int| 0 <= i < s.len() ==> (#[trigger] s[i]) != ' '
}

/// Positions before `j` hold no CRLF, so the scan runs up to `j`.
proof fn lemma_find_crlf_skips(b: Seq<u8>, i: int, j: int)
    requires
        0 <= i <= j,
        forall|k: int| i <= k < j ==> !((#[trigger] b[k]) == 13 && b[k + 1] == 10),
    ensures
        find_crlf_from(b, i) == find_crlf_from(b, j),
    decreases j - i,
{
    if i < j {
        lemma_find_crlf_skips(b, i + 1, j);
    }
}

/// Positions before `j` hold no `c`, so the search runs up to `j`.
proof fn lemma_find_char_skips(s: Seq<char>, c: char, i: int, j: int)
    requires
        0 <= i <= j <= s.len(),
        forall|k: int| i <= k < j ==> (#[trigger] s[k]) != c,
    ensures
        find_char_from(s, c, i) == find_char_from(s, c, j),
    decreases j - i,
{
    if i < j {
        lemma_find_char_skips(s, c, i + 1, j);
    }
}

/// ASCII text encodes byte-for-byte.
proof fn lemma_ascii_encode(s: Seq<char>)
    requires
        forall|i: int| 0 <= i < s.len() ==> ((#[trigger] s[i]) as u32) < 128,
    ensures
        vstd::utf8::is_ascii_chars(s),
        encode_utf8(s).len() == s.len(),
        forall|k: int| 0 <= k < s.len() ==> #[trigger] encode_utf8(s)[k] == s[k] as u8,
{
    assert forall|i: int| 0 <= i < s.len() implies '\0' <= #[trigger] s[i] <= '\u{7f}' by {
        let c = s[i];
        assert((c as u32) < 128);
        vstd::utf8::char_u32_cast(c, c as u32);
        vstd::utf8::char_u32_cast('\u{7f}', '\u{7f}' as u32);
        vstd::utf8::char_u32_cast('\0', '\0' as u32);
    }
    vstd::utf8::is_ascii_chars_encode_utf8(s);
}

/// Plain text encodes to bytes that cannot look like a line break.
proof fn lemma_plain_encode(s: Seq<char>)
    requires
        plain_chars(s),
    ensures
        vstd::utf8::is_ascii_chars(s),
        encode_utf8(s).len() == s.len(),
        forall|k: int| 0 <= k < s.len() ==> #[trigger] encode_utf8(s)[k] == s[k] as u8,
        forall|k: int|
            0 <= k < s.len() ==> (#[trigger] encode_utf8(s)[k]) != 13 && encode_utf8(s)[k] != 10,
{
    lemma_ascii_encode(s);
    assert forall|k: int|
        0 <= k < s.len() implies (#[trigger] encode_utf8(s)[k]) != 13 && encode_utf8(s)[k]
        != 10 by {
        let c = s[k];
        if c as u8 == 13 {
            assert(c as u32 == 13);
            vstd::utf8::char_u32_cast(c, c as u32);
            vstd::utf8::char_u32_cast('\r', '\r' as u32);
            assert(c == '\r');
        }
        if c as u8 == 10 {
            assert(c as u32 == 10);
            vstd::utf8::char_u32_cast(c, c as u32);
            vstd::utf8::char_u32_cast('\n', '\n' as u32);
            assert(c == '\n');
        }
    }
}

/// Positions before `j` hold only whitespace, so trimming skips them.
proof fn lemma_first_non_space_skips(s: Seq<char>, i: int, j: int)
    requires
        0 <= i <= j <= s.len(),
        forall|t: int| i <= t < j ==> is_space_char(#[trigger] s[t]),
    ensures
        crate::strutil::first_non_space(s, i) == crate::strutil::first_non_space(s, j),
    decreases j - i,
{
    if i < j {
        lemma_first_non_space_skips(s, i + 1, j);
    }
}

/// Text without carriage returns and line feeds is its own sanitized
/// form.
proof fn lemma_strip_crlf_id(s: Seq<char>)
    requires
        forall|i: int| 0 <= i < s.len() ==> (#[trigger] s[i]) != '\r' && s[i] != '\n',
    ensures
        strip_crlf(s) == s,
    decreases s.len(),
{
    if s.len() > 0 {
        lemma_strip_crlf_id(s.drop_last());
        assert(strip_crlf(s) =~= s);
    }
}

/// The request line of a buffer assembled from three tokens and a
/// terminated remainder parses back to exactly those tokens.
proof fn lemma_head_round_trip(m: Seq<char>, p: Seq<char>, v: Seq<char>, after: Seq<u8>)
    requires
        plain_chars(m) && plain_chars(p) && plain_chars(v),
        no_space(m) && no_space(p),
        m.len() >= 1 && v.len() >= 1,
        spec_method_is_supported(spec_method_from(m)),
        after.len() >= 2 && after[0] == 13 && after[1] == 10,
    ensures
        ({
            let line = m + seq![' '] + p + seq![' '] + v;
            let b = encode_utf8(line) + after;
            &&& spec_line_end(b) == encode_utf8(line).len()
            &&& spec_line_chars(b) == line
            &&& spec_method(b) == spec_method_from(m)
            &&& spec_path_token(b) == p
            &&& spec_version_token(b) == v
            &&& spec_p2(b) != spec_rest_chars(b).len()
            &&& spec_head(b) == Ok::<Seq<char>, HttpError>(p)
        }),
{
    broadcast use vstd::utf8::encode_utf8_valid_utf8, vstd::utf8::encode_utf8_decode_utf8;

    let line = m + seq![' '] + p + seq![' '] + v;
    let enc = encode_utf8(line);
    let b = enc + after;
    let e = enc.len() as int;
    assert(plain_chars(line));
    lemma_plain_encode(line);
    assert(forall|k: int| 0 <= k < e ==> (#[trigger] b[k]) == enc[k]);
    assert(b[e] == 13 && b[e + 1] == 10);
    lemma_find_crlf_skips(b, 0, e);
    assert(spec_line_end(b) == e);
    assert(spec_line(b) =~= enc);
    assert(spec_line_chars(b) == line);

    assert(line[m.len() as int] == ' ');
    assert(forall|k: int| 0 <= k < m.len() ==> (#[trigger] line[k]) == m[k] && line[k] != ' ');
    lemma_find_char_skips(line, ' ', 0, m.len() as int);
    assert(spec_p1(b) == m.len());
    assert(spec_method_token(b) =~= m);
    let rest = p + seq![' '] + v;
    assert(spec_rest_chars(b) =~= rest);
    assert(rest[p.len() as int] == ' ');
    assert(forall|k: int| 0 <= k < p.len() ==> (#[trigger] rest[k]) == p[k] && rest[k] != ' ');
    lemma_find_char_skips(rest, ' ', 0, p.len() as int);
    assert(spec_p2(b) == p.len());
    assert(spec_path_token(b) =~= p);
    assert(spec_p1(b) < spec_line_chars(b).len());
    assert(spec_head(b) == Ok::<Seq<char>, HttpError>(spec_path_token(b)));
    assert(spec_version_token(b) =~= v);
}

/// The round-trip law for a headerless request: a buffer assembled
/// from a supported method token, a space-free path token, a version
/// token and a body, with the empty header block between them, parses
/// back to exactly those parts. Together with the parser's own
/// contract, such a buffer is accepted and every field of the result
/// reflects the input.
pub proof fn lemma_round_trip(m: Seq<char>, p: Seq<char>, v: Seq<char>, body: Seq<u8>)
    requires
        plain_chars(m) && plain_chars(p) && plain_chars(v),
        no_space(m) && no_space(p),
        m.len() >= 1 && v.len() >= 1,
        spec_method_is_supported(spec_method_from(m)),
    ensures
        ({
            let line = m + seq![' '] + p + seq![' '] + v;
            let b = encode_utf8(line) + seq![13u8, 10u8, 13u8, 10u8] + body;
            &&& spec_head(b) == Ok::<Seq<char>, HttpError>(p)
            &&& spec_rest(b) matches Ok(model) && model.method == spec_method_from(m)
                && model.version == spec_version_from(v) && model.headers == Seq::<
                (Seq<char>, Seq<char>),
            >::empty() && model.body == if spec_method_has_body(spec_method_from(m)) {
                body
            } else {
                Seq::<u8>::empty()
            }
        }),
{
    broadcast use vstd::utf8::encode_utf8_valid_utf8, vstd::utf8::encode_utf8_decode_utf8;

    let line = m + seq![' '] + p + seq![' '] + v;
    let enc = encode_utf8(line);
    let after = seq![13u8, 10u8, 13u8, 10u8] + body;
    let b = enc + after;
    let e = enc.len() as int;
    lemma_head_round_trip(m, p, v, after);
    assert(enc + seq![13u8, 10u8, 13u8, 10u8] + body =~= b);

    assert(b[e] == 13 && b[e + 1] == 10 && b[e + 2] == 13 && b[e + 3] == 10);
    let empty_line = b.subrange(e, e);
    assert(empty_line =~= Seq::<u8>::empty());
    assert(empty_line =~= encode_utf8(Seq::<char>::empty()));
    assert(valid_utf8(empty_line) && decode_utf8(empty_line) =~= Seq::<char>::empty());
    assert(spec_parse_header(empty_line) is None);
    assert(b.len() == e + 4 + body.len());
    assert(spec_scan_headers(b, e, e, 0, Seq::empty()) == Some(
        (Seq::<(Seq<char>, Seq<char>)>::empty(), e + 4, 0int),
    ));
    assert(b.subrange(e + 4, b.len() as int) =~= body);
}

/// Bytes that cannot open a CRLF pair only move the header scan along.
proof fn lemma_scan_skips(
    b: Seq<u8>,
    i: int,
    j: int,
    n: int,
    hs: Seq<(Seq<char>, Seq<char>)>,
    k: int,
)
    requires
        0 <= i <= k,
        k + 3 < b.len(),
        forall|t: int| i <= t < k ==> (#[trigger] b[t]) != 13,
    ensures
        spec_scan_headers(b, i, j, n, hs) == spec_scan_headers(b, k, j, n, hs),
    decreases k - i,
{
    if i < k {
        lemma_scan_skips(b, i + 1, j, n, hs, k);
    }
}

/// The round-trip law carried through the header block: with one
/// well-shaped header line between the request line and the blank
/// line, parsing yields exactly that one name/value pair beside the
/// three tokens and the body.
pub proof fn lemma_round_trip_header(
    m: Seq<char>,
    p: Seq<char>,
    v: Seq<char>,
    name: Seq<char>,
    value: Seq<char>,
    body: Seq<u8>,
)
    requires
        plain_chars(m) && plain_chars(p) && plain_chars(v),
        plain_chars(name) && plain_chars(value),
        no_space(m) && no_space(p),
        m.len() >= 1 && v.len() >= 1 && name.len() >= 1 && value.len() >= 1,
        !is_space_char(name[0]) && !is_space_char(name.last()),
        !is_space_char(value[0]) && !is_space_char(value.last()),
        forall|i: int| 0 <= i < name.len() ==> (#[trigger] name[i]) != ':',
        spec_method_is_supported(spec_method_from(m)),
    ensures
        ({
            let line = m + seq![' '] + p + seq![' '] + v;
            let hdr = name + seq![':', ' '] + value;
            let b = encode_utf8(line) + seq![13u8, 10u8] + encode_utf8(hdr) + seq![
                13u8,
                10u8,
                13u8,
                10u8,
            ] + body;
            &&& spec_head(b) == Ok::<Seq<char>, HttpError>(p)
            &&& spec_rest(b) matches Ok(model) && model.method == spec_method_from(m)
                && model.version == spec_version_from(v) && model.headers == seq![(name, value)]
                && model.body == if spec_method_has_body(spec_method_from(m)) {
                body
            } else {
                Seq::<u8>::empty()
            }
        }),
{
    broadcast use vstd::utf8::encode_utf8_valid_utf8, vstd::utf8::encode_utf8_decode_utf8;

    let line = m + seq![' '] + p + seq![' '] + v;
    let hdr = name + seq![':', ' '] + value;
    let enc = encode_utf8(line);
    let enc_h = encode_utf8(hdr);
    let after = seq![13u8, 10u8] + enc_h + seq![13u8, 10u8, 13u8, 10u8] + body;
    let b = enc + after;
    let e = enc.len() as int;
    assert(plain_chars(hdr));
    lemma_plain_encode(hdr);
    let h = enc_h.len() as int;
    lemma_head_round_trip(m, p, v, after);
    assert(encode_utf8(line) + seq![13u8, 10u8] + encode_utf8(hdr) + seq![
        13u8,
        10u8,
        13u8,
        10u8,
    ] + body =~= b);

    let c1 = e + 2 + h;
    assert(b.len() == c1 + 4 + body.len());
    assert(b[e] == 13 && b[e + 1] == 10);
    assert(forall|k: int| 0 <= k < h ==> (#[trigger] b[e + 2 + k]) == enc_h[k]);
    assert(b[c1] == 13 && b[c1 + 1] == 10 && b[c1 + 2] == 13 && b[c1 + 3] == 10);

    // The scan passes the request line's CRLF, walks the header line,
    // parses it at its CRLF, and stops at the blank line.
    assert(b[e + 2] == enc_h[0] && enc_h[0] != 13);
    assert(spec_scan_headers(b, e, e, 0, Seq::empty()) == spec_scan_headers(
        b,
        e + 2,
        e,
        1,
        Seq::empty(),
    )) by {
        let empty_line = b.subrange(e, e);
        assert(empty_line =~= encode_utf8(Seq::<char>::empty()));
        assert(valid_utf8(empty_line) && decode_utf8(empty_line) =~= Seq::<char>::empty());
        assert(spec_parse_header(empty_line) is None);
    }
    assert forall|t: int| e + 2 <= t < c1 implies (#[trigger] b[t]) != 13 by {
        assert(b[t] == enc_h[t - (e + 2)]);
    }
    lemma_scan_skips(b, e + 2, e, 1, Seq::empty(), c1);

    // The gathered line is the CRLF plus the header text; it splits at
    // the colon and trims back to the given name and value.
    let hline = seq!['\r', '\n'] + hdr;
    assert(forall|i: int| 0 <= i < hline.len() ==> ((#[trigger] hline[i]) as u32) < 128);
    lemma_ascii_encode(hline);
    assert(b.subrange(e, c1) =~= encode_utf8(hline)) by {
        assert(encode_utf8(hline).len() == 2 + hdr.len());
        assert(encode_utf8(hline)[0] == '\r' as u8 && encode_utf8(hline)[1] == '\n' as u8);
        assert('\r' as u8 == 13 && '\n' as u8 == 10);
        assert(forall|k: int|
            2 <= k < hline.len() ==> #[trigger] encode_utf8(hline)[k] == hdr[k - 2] as u8);
        assert(forall|k: int| 0 <= k < hdr.len() ==> (#[trigger] enc_h[k]) == hdr[k] as u8);
    }
    assert(valid_utf8(b.subrange(e, c1)) && decode_utf8(b.subrange(e, c1)) == hline);
    let colon = 2 + name.len() as int;
    assert(hline[colon] == ':');
    assert forall|k: int| 0 <= k < colon implies (#[trigger] hline[k]) != ':' by {
        if k >= 2 {
            assert(hline[k] == name[k - 2]);
        }
    }
    lemma_find_char_skips(hline, ':', 0, colon);
    assert(find_char_from(hline, ':', 0) == colon);

    let key_part = hline.subrange(0, colon);
    assert(key_part =~= seq!['\r', '\n'] + name);
    assert(is_space_char('\r') && is_space_char('\n'));
    assert(forall|t: int| 0 <= t < 2 ==> is_space_char(#[trigger] key_part[t]));
    lemma_first_non_space_skips(key_part, 0, 2);
    assert(!is_space_char(key_part[2]));
    assert(crate::strutil::first_non_space(key_part, 0) == 2);
    assert(!is_space_char(key_part.last()));
    assert(crate::strutil::last_non_space(key_part, key_part.len() - 1) == key_part.len() - 1);
    assert(spec_trim(key_part) =~= name);

    let value_part = hline.subrange(colon + 1, hline.len() as int);
    assert(value_part =~= seq![' '] + value);
    assert(is_space_char(value_part[0]) && !is_space_char(value_part[1]));
    lemma_first_non_space_skips(value_part, 0, 1);
    assert(crate::strutil::first_non_space(value_part, 0) == 1);
    assert(!is_space_char(value_part.last()));
    assert(crate::strutil::last_non_space(value_part, value_part.len() - 1) == value_part.len()
        - 1);
    assert(spec_trim(value_part) =~= value);
    lemma_strip_crlf_id(value);
    assert(spec_parse_header(b.subrange(e, c1)) == Some((name, value)));

    assert(spec_scan_headers(b, c1, e, 1, Seq::empty()) == Some(
        (seq![(name, value)], c1 + 4, 1int),
    )) by {
        assert(Seq::<(Seq<char>, Seq<char>)>::empty().push((name, value)) =~= seq![
            (name, value),
        ]);
    }
    assert(b.subrange(c1 + 4, b.len() as int) =~= body);
}

/// The header-ceiling law: when the scan has seen more header lines
/// than the ceiling before the terminating blank line, or never found
/// that blank line, the parse fails with `HeadersTooLarge`, however
/// large the buffer.
pub proof fn lemma_header_ceiling(b: Seq<u8>)
    requires
        spec_p2(b) != spec_rest_chars(b).len(),
        match spec_scan_headers(b, spec_line_end(b), spec_line_end(b), 0, Seq::empty()) {
            Some(scanned) => scanned.2 > MAX_HEADERS_LENGTH as int,
            None => true,
        },
    ensures
        spec_rest(b) == Err::<RequestModel, HttpError>(HttpError::HeadersTooLarge),
{
}

/// A name for what `urlencoding::decode` yields: the decoded text is a
/// function of the input characters alone.
pub uninterp spec fn percent_decoded(s: Seq<char>) -> Seq<char>;

/// Percent-decodes a path token.
///
/// Relies on `urlencoding::decode`: the result depends on the input
/// alone, and an input without a percent sign comes back unchanged and
/// successfully.
#[verifier::external_body]
fn decode_url(s: &str) -> (r: Option<String>)
    ensures
        match r {
            Some(d) => d@ == percent_decoded(s@) && (no_percent(s@) ==> d@ == s@),
            None => !no_percent(s@),
        },
{
    match urlencoding::decode(s) {
        Ok(cow) => Some(cow.into_owned()),
        Err(_) => None,
    }
}

/// The first position at or after `from` where a CRLF pair starts.
fn find_crlf(bytes: &[u8], from: usize) -> (r: Option<usize>)
    requires
        from <= bytes@.len(),
    ensures
        match r {
            Some(k) => find_crlf_from(bytes@, from as int) == k && from <= k && k + 1
                < bytes@.len(),
            None => find_crlf_from(bytes@, from as int) == -1,
        },
{
    let n = bytes.len();
    let mut i: usize = from;
    while n - i > 1 && !(bytes[i] == 13 && bytes[i + 1] == 10)
        invariant
            from <= i <= n,
            n == bytes@.len(),
            find_crlf_from(bytes@, from as int) == find_crlf_from(bytes@, i as int),
        decreases n - i,
    {
        i = i + 1;
    }
    if n - i > 1 {
        Some(i)
    } else {
        None
    }
}

/// Splits one header line at its first colon.
fn parse_header(line: &[u8]) -> (r: Option<(String, String)>)
    ensures
        match r {
            Some(kv) => spec_parse_header(line@) == Some((kv.0@, kv.1@)),
            None => spec_parse_header(line@) == None::<(Seq<char>, Seq<char>)>,
        },
{
    let s = match bytes_to_str(line) {
        Some(s) => s,
        None => {
            return None;
        },
    };
    let n = s.unicode_len();
    let c = find_char(s, ':', 0);
    if c == n {
        return None;
    }
    let key = str_trim(s.substring_char(0, c)).to_owned();
    let value = sanitize_header_value(str_trim(s.substring_char(c + 1, n)));
    Some((key, value))
}

/// Gathers the header block: scans CRLF-delimited lines from the end
/// of the request line to the blank line, or reports that none fits
/// the buffer.
fn scan_headers(bytes: &[u8], start: usize) -> (r: Option<(Vec<(String, String)>, usize, usize)>)
    requires
        start <= bytes@.len(),
    ensures
        match r {
            Some(scanned) => spec_scan_headers(
                bytes@,
                start as int,
                start as int,
                0,
                Seq::empty(),
            ) == Some((pairs_view(scanned.0@), scanned.1 as int, scanned.2 as int))
                && scanned.1 <= bytes@.len(),
            None => spec_scan_headers(bytes@, start as int, start as int, 0, Seq::empty())
                == None::<(Seq<(Seq<char>, Seq<char>)>, int, int)>,
        },
{
    let length = bytes.len();
    let mut i: usize = start;
    let mut j: usize = start;
    let mut count: usize = 0;
    let mut headers: Vec<(String, String)> = Vec::new();
    proof {
        assert(pairs_view(headers@) =~= Seq::<(Seq<char>, Seq<char>)>::empty());
    }
    while length - i > 3
        invariant
            start <= j <= i <= length,
            length == bytes@.len(),
            2 * count + start <= i,
            spec_scan_headers(bytes@, start as int, start as int, 0, Seq::empty())
                == spec_scan_headers(
                bytes@,
                i as int,
                j as int,
                count as int,
                pairs_view(headers@),
            ),
        decreases length - i,
    {
        if bytes[i] == 13 && bytes[i + 1] == 10 {
            let ghost before = pairs_view(headers@);
            match parse_header(&bytes[j..i]) {
                Some(kv) => {
                    headers.push(kv);
                    proof {
                        assert(pairs_view(headers@) =~= before.push((kv.0@, kv.1@)));
                    }
                },
                None => {},
            }
            if bytes[i + 2] == 13 && bytes[i + 3] == 10 {
                return Some((headers, i + 4, count));
            }
            j = i;
            i = i + 2;
            count = count + 1;
        } else {
            i = i + 1;
        }
    }
    None
}

/// The value recorded under `name` in a header list, reading the last
/// line written where a name repeats.
pub fn get_header_value(headers: &Vec<(String, String)>, name: &str) -> (r: Option<String>)
    ensures
        match r {
            Some(v) => spec_header_lookup(pairs_view(headers@), name@) == Some(v@),
            None => spec_header_lookup(pairs_view(headers@), name@) == None::<Seq<char>>,
        },
{
    let mut idx = headers.len();
    proof {
        assert(pairs_view(headers@).subrange(0, idx as int) =~= pairs_view(headers@));
    }
    while idx > 0
        invariant
            idx <= headers@.len(),
            spec_header_lookup(pairs_view(headers@), name@) == spec_header_lookup(
                pairs_view(headers@).subrange(0, idx as int),
                name@,
            ),
        decreases idx,
    {
        proof {
            let pv = pairs_view(headers@);
            assert(pv.subrange(0, idx as int).last() == pv[idx - 1]);
            assert(pv.subrange(0, idx as int).drop_last() =~= pv.subrange(0, idx - 1));
        }
        if str_eq(headers[idx - 1].0.as_str(), name) {
            return Some(headers[idx - 1].1.clone());
        }
        idx = idx - 1;
    }
    proof {
        assert(pairs_view(headers@).subrange(0, 0).len() == 0);
    }
    None
}

impl HttpRequest {
    /// Parses one request buffer: the request line, then the header
    /// block, then (for a body-bearing method) the body prefix that
    /// followed the blank line.
    pub fn new(bytes: &[u8]) -> (r: Result<HttpRequest, HttpError>)
        ensures
            match spec_head(bytes@) {
                Err(e) => r == Err::<HttpRequest, HttpError>(e),
                Ok(token) => match spec_rest(bytes@) {
                    Err(e) => r == Err::<HttpRequest, HttpError>(e) || r == Err::<
                        HttpRequest,
                        HttpError,
                    >(HttpError::DecodeUrlFailed),
                    Ok(m) => match r {
                        Ok(req) => model_matches(req, percent_decoded(token), m),
                        Err(e) => e == HttpError::DecodeUrlFailed,
                    },
                },
            },
            (spec_head(bytes@) matches Ok(token) && no_percent(token)) ==> r != Err::<
                HttpRequest,
                HttpError,
            >(HttpError::DecodeUrlFailed),
            (match (spec_head(bytes@), r) {
                (Ok(token), Ok(req)) => no_percent(token) ==> req.path@ == token,
                _ => true,
            }),
    {
        let e = match find_crlf(bytes, 0) {
            Some(e) => e,
            None => {
                return Err(HttpError::RequestLineNotFound);
            },
        };
        let line: &[u8] = &bytes[0..e];
        let s: &str = match bytes_to_str(line) {
            Some(s) => s,
            None => {
                return Err(HttpError::RequestLineNotFound);
            },
        };
        let n = s.unicode_len();
        let p1 = find_char(s, ' ', 0);
        let method = HttpMethod::from_str(s.substring_char(0, p1));
        if !method.is_supported() {
            return Err(HttpError::UnsupportedMethod);
        }
        if p1 == n {
            return Err(HttpError::UrlNotFound);
        }
        let rest = s.substring_char(p1 + 1, n);
        let p2 = find_char(rest, ' ', 0);
        let path_token = rest.substring_char(0, p2);
        let decoded = decode_url(path_token);
        Self::from_parts(bytes, decoded)
    }

    /// Finishes parsing once the percent decoder has spoken: `path` is
    /// what the decoder made of the path token, or `None` where it
    /// failed. Everything here is a function of the buffer and that
    /// one argument.
    pub fn from_parts(bytes: &[u8], path: Option<String>) -> (r: Result<HttpRequest, HttpError>)
        requires
            spec_head(bytes@) is Ok,
        ensures
            match path {
                None => r == Err::<HttpRequest, HttpError>(HttpError::DecodeUrlFailed),
                Some(p) => match spec_rest(bytes@) {
                    Err(e) => r == Err::<HttpRequest, HttpError>(e),
                    Ok(m) => match r {
                        Ok(req) => model_matches(req, p@, m),
                        Err(_) => false,
                    },
                },
            },
    {
        let length = bytes.len();
        let e = match find_crlf(bytes, 0) {
            Some(e) => e,
            None => {
                proof {
                    assert(false);
                }
                return Err(HttpError::RequestLineNotFound);
            },
        };
        let line: &[u8] = &bytes[0..e];
        let s: &str = match bytes_to_str(line) {
            Some(s) => s,
            None => {
                proof {
                    assert(false);
                }
                return Err(HttpError::RequestLineNotFound);
            },
        };
        let n = s.unicode_len();
        let p1 = find_char(s, ' ', 0);
        let method = HttpMethod::from_str(s.substring_char(0, p1));
        let decoded_path = match path {
            Some(p) => p,
            None => {
                return Err(HttpError::DecodeUrlFailed);
            },
        };
        proof {
            assert(p1 < n);
        }
        let rest = s.substring_char(p1 + 1, n);
        let rest_n = rest.unicode_len();
        let p2 = find_char(rest, ' ', 0);
        if p2 == rest_n {
            return Err(HttpError::VersionNotFound);
        }
        let version = HttpVersion::from_str(rest.substring_char(p2 + 1, rest_n));
        match scan_headers(bytes, e) {
            None => Err(HttpError::HeadersTooLarge),
            Some((headers, body_start, count)) => {
                if count > MAX_HEADERS_LENGTH {
                    return Err(HttpError::HeadersTooLarge);
                }
                let body: Vec<u8> = if method.has_body() {
                    slice_to_vec(&bytes[body_start..length])
                } else {
                    Vec::new()
                };
                Ok(
                    HttpRequest {
                        path: decoded_path,
                        method,
                        version,
                        headers,
                        body,
                    },
                )
            },
        }
    }

    /// Replaces the body, once the rest of it has been read.
    pub fn set_body(&mut self, body: Vec<u8>)
        ensures
            final(self).body == body,
            final(self).path == old(self).path,
            final(self).method == old(self).method,
            final(self).version == old(self).version,
            final(self).headers == old(self).headers,
    {
        self.body = body;
    }

    /// The value of the header named `name`, exactly as recorded.
    pub fn get_header(&self, name: &str) -> (r: Option<String>)
        ensures
            match r {
                Some(v) => spec_header_lookup(pairs_view(self.headers@), name@) == Some(v@),
                None => spec_header_lookup(pairs_view(self.headers@), name@) == None::<
                    Seq<char>,
                >,
            },
    {
        get_header_value(&self.headers, name)
    }

    /// Whether a header named `name` is present.
    pub fn has_header(&self, name: &str) -> (r: bool)
        ensures
            r == (spec_header_lookup(pairs_view(self.headers@), name@) is Some),
    {
        match self.get_header(name) {
            Some(_) => true,
            None => false,
        }
    }

    /// The declared `Content-Length`, or zero when it is absent or not
    /// a number that fits.
    pub fn content_length(&self) -> (r: usize)
        ensures
            r == spec_content_length(*self),
    {
        match self.get_header("Content-Length") {
            Some(v) => match parse_usize(v.as_str()) {
                Some(value) => value,
                None => 0,
            },
            None => 0,
        }
    }
}

} // verus!
