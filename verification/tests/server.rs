use rustrate::{
    body_plan, error_status, header_read_result, http_date_string, sanitize_header_value,
    HttpError, HttpMethod, HttpRequest, HttpResponse, HttpStatusCode, HttpV10, HttpV11,
    HttpVersion, RateLimiter, MAX_BODY_SIZE, MAX_HEADERS_LENGTH,
};

fn parse(input: &str) -> Result<HttpRequest, HttpError> {
    HttpRequest::new(input.as_bytes())
}

#[test]
fn parse_simple_get() {
    let req = parse("GET /hello HTTP/1.1\r\nHost: x\r\nConnection: keep-alive\r\n\r\n").unwrap();
    assert_eq!(req.method, HttpMethod::Get);
    assert_eq!(req.path, "/hello");
    assert!(matches!(req.version, HttpVersion::Http11));
    assert_eq!(req.get_header("Host"), Some(String::from("x")));
    assert_eq!(req.get_header("Connection"), Some(String::from("keep-alive")));
    assert!(req.body.is_empty());
}

#[test]
fn scenario_keep_alive_not_found() {
    let req = parse("GET /hello HTTP/1.1\r\nHost: x\r\nConnection: keep-alive\r\n\r\n").unwrap();
    let res = HttpResponse::new(req).unwrap();
    assert!(res.keep_connection_alive);
    let text = String::from_utf8(res.body.clone()).unwrap();
    assert!(text.starts_with("HTTP/1.1 404 Not Found\r\n"));
    assert!(text.contains("\r\nConnection: keep-alive\r\n"));
    assert!(text.contains("\r\nContent-Length: 9\r\n"));
    assert!(text.ends_with("\r\n\r\nNot Found"));
}

#[test]
fn response_without_keep_alive_closes() {
    let req = parse("GET / HTTP/1.1\r\nHost: x\r\n\r\n").unwrap();
    let res = HttpResponse::new(req).unwrap();
    assert!(!res.keep_connection_alive);
    let text = String::from_utf8(res.body).unwrap();
    assert!(text.contains("\r\nConnection: close\r\n"));
}

#[test]
fn keep_alive_is_case_insensitive() {
    let req = parse("GET / HTTP/1.1\r\nConnection: Keep-Alive\r\n\r\n").unwrap();
    let res = HttpResponse::new(req).unwrap();
    assert!(res.keep_connection_alive);
}

#[test]
fn http10_always_closes() {
    let req = parse("GET / HTTP/1.0\r\nConnection: keep-alive\r\n\r\n").unwrap();
    let res = HttpResponse::new(req).unwrap();
    assert!(!res.keep_connection_alive);
    let text = String::from_utf8(res.body).unwrap();
    assert!(text.starts_with("HTTP/1.0 404 Not Found\r\n"));
    assert!(text.contains("\r\nConnection: close\r\n"));
    assert!(!text.contains("Date:"));
}

#[test]
fn scenario_version_rejection() {
    for line in ["GET / HTTP/2.0\r\n\r\n", "GET / HTTP/3.0\r\n\r\n"] {
        let req = parse(line).unwrap();
        assert!(!req.version.is_supported());
        let err = HttpResponse::new(req).unwrap_err();
        assert_eq!(err, HttpError::UnsupportedVersion);
        let status = error_status(&err).unwrap();
        assert_eq!(status.code(), 505);
        let rendered = HttpV10::from_status_code(status);
        assert!(rendered.starts_with("HTTP/1.0 505 "));
        assert!(rendered.contains("\r\nConnection: close\r\n"));
    }
}

#[test]
fn header_ceiling_at_twenty_six_lines() {
    let mut ok_input = String::from("GET / HTTP/1.1\r\n");
    for i in 0..MAX_HEADERS_LENGTH {
        ok_input.push_str(&format!("H{}: v\r\n", i));
    }
    ok_input.push_str("\r\n");
    assert!(parse(&ok_input).is_ok());

    let mut bad_input = String::from("GET / HTTP/1.1\r\n");
    for i in 0..(MAX_HEADERS_LENGTH + 1) {
        bad_input.push_str(&format!("H{}: v\r\n", i));
    }
    bad_input.push_str("\r\n");
    assert_eq!(parse(&bad_input).unwrap_err(), HttpError::HeadersTooLarge);
}

#[test]
fn missing_terminator_is_headers_too_large() {
    assert_eq!(
        parse("GET / HTTP/1.1\r\nHost: x\r\n").unwrap_err(),
        HttpError::HeadersTooLarge
    );
}

#[test]
fn request_line_errors() {
    assert_eq!(parse("no line break at all").unwrap_err(), HttpError::RequestLineNotFound);
    assert_eq!(
        HttpRequest::new(&[0xFF, 0xFE, 0x0D, 0x0A, 0x0D, 0x0A]).unwrap_err(),
        HttpError::RequestLineNotFound
    );
    assert_eq!(parse("BREW / HTTP/1.1\r\n\r\n").unwrap_err(), HttpError::UnsupportedMethod);
    assert_eq!(parse("GET\r\n\r\n").unwrap_err(), HttpError::UrlNotFound);
    assert_eq!(parse("GET /\r\n\r\n").unwrap_err(), HttpError::VersionNotFound);
}

#[test]
fn percent_decoding_rewrites_the_path() {
    let req = parse("GET /a%20b%41 HTTP/1.1\r\n\r\n").unwrap();
    assert_eq!(req.path, "/a bA");
}

#[test]
fn invalid_escape_fails_decoding() {
    assert_eq!(
        parse("GET /%FF HTTP/1.1\r\n\r\n").unwrap_err(),
        HttpError::DecodeUrlFailed
    );
}

#[test]
fn method_table() {
    assert_eq!(HttpMethod::from_str(" get "), HttpMethod::Get);
    assert_eq!(HttpMethod::from_str("POST"), HttpMethod::Post);
    assert_eq!(HttpMethod::from_str("Put"), HttpMethod::Put);
    assert_eq!(HttpMethod::from_str("patch"), HttpMethod::Patch);
    assert_eq!(HttpMethod::from_str("DELETE"), HttpMethod::Delete);
    assert_eq!(HttpMethod::from_str("head"), HttpMethod::Head);
    assert!(!HttpMethod::from_str("BREW").is_supported());
    assert_ne!(HttpMethod::from_str("BREW"), HttpMethod::from_str("TRACE"));
    assert!(HttpMethod::Post.has_body());
    assert!(HttpMethod::Put.has_body());
    assert!(HttpMethod::Patch.has_body());
    assert!(!HttpMethod::Get.has_body());
    assert!(!HttpMethod::Head.has_body());
}

#[test]
fn version_table() {
    assert!(matches!(HttpVersion::from_str("HTTP/1.0"), HttpVersion::Http10));
    assert!(matches!(HttpVersion::from_str("HTTP/1.1"), HttpVersion::Http11));
    assert!(matches!(HttpVersion::from_str("HTTP/2"), HttpVersion::Http20));
    assert!(matches!(HttpVersion::from_str("HTTP/3"), HttpVersion::Http30));
    assert!(matches!(HttpVersion::from_str("http/1.1"), HttpVersion::Unknown(())));
    assert_eq!(HttpVersion::Http10.as_str(), "HTTP/1.0");
    assert_eq!(HttpVersion::Http11.as_str(), "HTTP/1.1");
    assert!(HttpVersion::Http11.is_supported());
    assert!(!HttpVersion::Http30.is_supported());
}

#[test]
fn status_codes_and_reasons() {
    assert_eq!(HttpStatusCode::Okay.code(), 200);
    assert_eq!(HttpStatusCode::Okay.reason(), "OK");
    assert_eq!(HttpStatusCode::NotFound.code(), 404);
    assert_eq!(HttpStatusCode::NotFound.reason(), "Not Found");
    assert_eq!(HttpStatusCode::Timeout.code(), 408);
    assert_eq!(HttpStatusCode::TooManyRequests.code(), 429);
    assert_eq!(HttpStatusCode::TooManyRequests.reason(), "Too Many Requests");
    assert_eq!(HttpStatusCode::NotImplemented.code(), 501);
    assert_eq!(HttpStatusCode::Unknown(505).code(), 505);
    assert_eq!(HttpStatusCode::Unknown(505).reason(), "Unknown");
}

#[test]
fn body_prefix_and_plan() {
    let mut req = parse("POST /p HTTP/1.1\r\nContent-Length: 5\r\n\r\nab").unwrap();
    assert_eq!(req.body, b"ab".to_vec());
    assert_eq!(req.content_length(), 5);
    assert_eq!(body_plan(&req).unwrap(), 3);
    req.set_body(b"abcde".to_vec());
    assert_eq!(body_plan(&req).unwrap(), 0);
}

#[test]
fn body_ignored_for_bodyless_method() {
    let req = parse("GET /p HTTP/1.1\r\nContent-Length: 5\r\n\r\nab").unwrap();
    assert!(req.body.is_empty());
    assert_eq!(body_plan(&req).unwrap(), 0);
}

#[test]
fn body_enforcement_errors() {
    let absent = parse("POST /p HTTP/1.1\r\nHost: x\r\n\r\nab").unwrap();
    assert_eq!(body_plan(&absent).unwrap_err(), HttpError::BodyNotFound);

    let zero = parse("POST /p HTTP/1.1\r\nContent-Length: 0\r\n\r\n").unwrap();
    assert_eq!(body_plan(&zero).unwrap_err(), HttpError::BodyNotFound);

    let unreadable = parse("POST /p HTTP/1.1\r\nContent-Length: abc\r\n\r\nxy").unwrap();
    assert_eq!(unreadable.content_length(), 0);
    assert_eq!(body_plan(&unreadable).unwrap_err(), HttpError::BodyNotFound);

    let overflowing =
        parse("POST /p HTTP/1.1\r\nContent-Length: 99999999999999999999\r\n\r\n").unwrap();
    assert_eq!(body_plan(&overflowing).unwrap_err(), HttpError::BodyNotFound);

    let big = format!("POST /p HTTP/1.1\r\nContent-Length: {}\r\n\r\n", MAX_BODY_SIZE + 1);
    let too_large = parse(&big).unwrap();
    assert_eq!(body_plan(&too_large).unwrap_err(), HttpError::BodyTooLarge);

    let exactly_max = format!("POST /p HTTP/1.1\r\nContent-Length: {}\r\n\r\n", MAX_BODY_SIZE);
    let at_limit = parse(&exactly_max).unwrap();
    assert_eq!(body_plan(&at_limit).unwrap(), MAX_BODY_SIZE);
}

#[test]
fn chunked_framing_is_not_implemented() {
    let req = parse("POST /p HTTP/1.1\r\nTransfer-Encoding: chunked\r\nContent-Length: 2\r\n\r\nab")
        .unwrap();
    assert_eq!(body_plan(&req).unwrap_err(), HttpError::NotImplemented);
    assert_eq!(
        error_status(&HttpError::NotImplemented).unwrap().code(),
        501
    );
}

#[test]
fn plus_prefixed_content_length_parses() {
    let req = parse("POST /p HTTP/1.1\r\nContent-Length: +7\r\n\r\n").unwrap();
    assert_eq!(req.content_length(), 7);
}

#[test]
fn header_values_are_sanitized_and_trimmed() {
    assert_eq!(sanitize_header_value("a\r\nb"), "ab");
    let req = parse("GET / HTTP/1.1\r\nX-Test:  padded\rvalue \r\n\r\n").unwrap();
    assert_eq!(req.get_header("X-Test"), Some(String::from("paddedvalue")));
}

#[test]
fn duplicate_header_is_last_write_wins() {
    let req = parse("GET / HTTP/1.1\r\nX-K: first\r\nX-K: second\r\n\r\n").unwrap();
    assert_eq!(req.get_header("X-K"), Some(String::from("second")));
}

#[test]
fn header_line_without_colon_is_skipped() {
    let req = parse("GET / HTTP/1.1\r\nstray line\r\nHost: x\r\n\r\n").unwrap();
    assert_eq!(req.get_header("stray line"), None);
    assert_eq!(req.get_header("Host"), Some(String::from("x")));
}

#[test]
fn read_classification() {
    assert_eq!(header_read_result(0).unwrap_err(), HttpError::ConnectionClosed);
    assert_eq!(header_read_result(17).unwrap(), 17);
    assert!(error_status(&HttpError::ConnectionClosed).is_none());
    assert_eq!(error_status(&HttpError::RequestTimeout).unwrap().code(), 408);
    assert_eq!(error_status(&HttpError::BodyNotFound).unwrap().code(), 400);
    assert_eq!(error_status(&HttpError::BodyTooLarge).unwrap().code(), 400);
    assert_eq!(error_status(&HttpError::TooManyRequests).unwrap().code(), 429);
    assert!(error_status(&HttpError::RequestLineNotFound).is_none());
    assert!(error_status(&HttpError::DecodeUrlFailed).is_none());
}

#[test]
fn date_header_is_present_and_clean() {
    let date = http_date_string();
    assert!(!date.contains('\r') && !date.contains('\n'));
    assert!(date.ends_with(" GMT"));
    let rendered = HttpV11::from_status_code(HttpStatusCode::Okay, Vec::new());
    assert!(rendered.contains("\r\nDate: "));
    assert!(rendered.starts_with("HTTP/1.1 200 OK\r\n"));
    assert!(rendered.contains("\r\nContent-Length: 2\r\n"));
    assert!(rendered.ends_with("\r\n\r\nOK"));
}

#[test]
fn error_names() {
    assert_eq!(HttpError::HeadersTooLarge.as_str(), "HeadersTooLarge");
    assert_eq!(HttpError::VersionNotFound.as_str(), "HttpVersionNotFound");
    assert_eq!(format!("{:?}", HttpError::BodyTooLarge), "BodyTooLarge");
}

#[test]
fn rate_limiter_counts_and_blocks() {
    let mut limiter = RateLimiter::new();
    let ip = String::from("192.0.2.7");
    for n in 1..=99u64 {
        limiter.add(ip.clone(), 10);
        assert_eq!(limiter.get(&ip), Some((n as u8, 10)));
        assert!(!limiter.is_blocked(&ip, 10), "blocked too early at {}", n);
    }
    limiter.add(ip.clone(), 10);
    assert!(limiter.is_blocked(&ip, 10));
}

#[test]
fn scenario_hundred_and_first_connection_is_rejected() {
    let mut limiter = RateLimiter::new();
    let ip = String::from("203.0.113.9");
    let mut refused = None;
    for second in 0..101u64 {
        let now = second / 10;
        limiter.add(ip.clone(), now);
        if limiter.is_blocked(&ip, now) && refused.is_none() {
            refused = Some(second + 1);
        }
    }
    assert_eq!(refused, Some(100));
    assert!(limiter.is_blocked(&ip, 10));
    let status = error_status(&HttpError::TooManyRequests).unwrap();
    let rendered = HttpV11::from_status_code(status, Vec::new());
    assert!(rendered.starts_with("HTTP/1.1 429 Too Many Requests\r\n"));
    assert!(rendered.contains("\r\nConnection: close\r\n"));
}

#[test]
fn rate_limiter_window_expires() {
    let mut limiter = RateLimiter::new();
    let ip = String::from("198.51.100.3");
    for _ in 0..150 {
        limiter.add(ip.clone(), 5);
    }
    assert!(limiter.is_blocked(&ip, 5));
    assert!(!limiter.is_blocked(&ip, 70), "a stale record must not block");
    limiter.add(ip.clone(), 70);
    assert_eq!(limiter.get(&ip), Some((1, 70)));
    assert!(!limiter.is_blocked(&ip, 70));
}

#[test]
fn rate_limiter_cleanup_sweeps_stale_entries() {
    let mut limiter = RateLimiter::new();
    let old_ip = String::from("192.0.2.1");
    let fresh_ip = String::from("192.0.2.2");
    limiter.add(old_ip.clone(), 0);
    limiter.add(fresh_ip.clone(), 50);
    limiter.cleanup(65);
    assert_eq!(limiter.get(&old_ip), None);
    assert_eq!(limiter.get(&fresh_ip), Some((1, 50)));
}

#[test]
fn rate_limiter_count_saturates() {
    let mut limiter = RateLimiter::new();
    let ip = String::from("192.0.2.200");
    for _ in 0..300 {
        limiter.add(ip.clone(), 1);
    }
    assert_eq!(limiter.get(&ip), Some((255, 1)));
}

#[test]
fn rate_limiter_keys_are_independent() {
    let mut limiter = RateLimiter::new();
    limiter.add(String::from("10.0.0.1"), 3);
    limiter.add(String::from("10.0.0.2"), 4);
    limiter.add(String::from("10.0.0.1"), 5);
    assert_eq!(limiter.get(&String::from("10.0.0.1")), Some((2, 5)));
    assert_eq!(limiter.get(&String::from("10.0.0.2")), Some((1, 4)));
    assert_eq!(limiter.get(&String::from("10.0.0.3")), None);
}

#[test]
fn from_parts_reflects_the_decoder() {
    let bytes = "GET /x HTTP/1.1\r\n\r\n".as_bytes();
    let decoded = HttpRequest::from_parts(bytes, Some(String::from("/x"))).unwrap();
    assert_eq!(decoded.path, "/x");
    let failed = HttpRequest::from_parts(bytes, None).unwrap_err();
    assert_eq!(failed, HttpError::DecodeUrlFailed);
}

#[test]
fn version_token_takes_the_rest_of_the_line() {
    let req = parse("GET /p HTTP/1.1 extra\r\n\r\n").unwrap();
    assert!(matches!(req.version, HttpVersion::Unknown(())));
}

#[test]
fn double_space_gives_empty_path_token() {
    let req = parse("GET  HTTP/1.1\r\n\r\n").unwrap();
    assert_eq!(req.path, "");
    assert!(matches!(req.version, HttpVersion::Http11));
}

#[test]
fn utf8_header_values_survive() {
    let req = parse("GET / HTTP/1.1\r\nX-Name: caf\u{e9}\r\n\r\n").unwrap();
    assert_eq!(req.get_header("X-Name"), Some(String::from("caf\u{e9}")));
}

#[test]
fn trailing_space_makes_version_unknown() {
    let req = parse("GET / HTTP/1.1 \r\n\r\n").unwrap();
    assert!(matches!(req.version, HttpVersion::Unknown(())));
    assert!(matches!(
        HttpResponse::new(req),
        Err(HttpError::UnsupportedVersion)
    ));
}
