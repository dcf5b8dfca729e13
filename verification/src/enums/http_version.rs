use vstd::prelude::*;
use crate::strutil::str_eq;

verus! {

/// The protocol versions the parser can name. Only 1.0 and 1.1 are
/// served; 2 and 3 are recognized so they can be rejected as such.
#[derive(Debug, Clone, Copy)]
pub enum HttpVersion {
    Http10,
    Http11,
    Http20,
    Http30,
    Unknown(()),
}

/// The exact wire spelling of a version.
pub open spec fn spec_version_str(v: HttpVersion) -> Seq<char> {
    match v {
        HttpVersion::Http10 => "HTTP/1.0"@,
        HttpVersion::Http11 => "HTTP/1.1"@,
        HttpVersion::Http20 => "HTTP/2.0"@,
        HttpVersion::Http30 => "HTTP/3.0"@,
        HttpVersion::Unknown(_) => "UNKNOWN"@,
    }
}

/// The version a token names; the match is exact, with no trimming or
/// case folding.
pub open spec fn spec_version_from(s: Seq<char>) -> HttpVersion {
    if s == "HTTP/1.0"@ {
        HttpVersion::Http10
    } else if s == "HTTP/1.1"@ {
        HttpVersion::Http11
    } else if s == "HTTP/2.0"@ || s == "HTTP/2"@ {
        HttpVersion::Http20
    } else if s == "HTTP/3.0"@ || s == "HTTP/3"@ {
        HttpVersion::Http30
    } else {
        HttpVersion::Unknown(())
    }
}

/// Whether the server speaks this version.
pub open spec fn spec_version_is_supported(v: HttpVersion) -> bool {
    v is Http10 || v is Http11
}

impl HttpVersion {
    pub fn as_str(&self) -> (r: &'static str)
        ensures
            r@ == spec_version_str(*self),
    {
        match self {
            HttpVersion::Http10 => "HTTP/1.0",
            HttpVersion::Http11 => "HTTP/1.1",
            HttpVersion::Http20 => "HTTP/2.0",
            HttpVersion::Http30 => "HTTP/3.0",
            HttpVersion::Unknown(_) => "UNKNOWN",
        }
    }

    pub fn from_str(version: &str) -> (r: HttpVersion)
        ensures
            r == spec_version_from(version@),
    {
        if str_eq(version, "HTTP/1.0") {
            HttpVersion::Http10
        } else if str_eq(version, "HTTP/1.1") {
            HttpVersion::Http11
        } else if str_eq(version, "HTTP/2.0") || str_eq(version, "HTTP/2") {
            HttpVersion::Http20
        } else if str_eq(version, "HTTP/3.0") || str_eq(version, "HTTP/3") {
            HttpVersion::Http30
        } else {
            HttpVersion::Unknown(())
        }
    }

    pub fn is_supported(&self) -> (r: bool)
        ensures
            r == spec_version_is_supported(*self),
    {
        matches!(self, HttpVersion::Http10 | HttpVersion::Http11)
    }
}

} // verus!
