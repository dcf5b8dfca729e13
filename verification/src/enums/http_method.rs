use vstd::prelude::*;
use crate::strutil::{spec_trim, spec_upper, str_eq, str_trim, to_upper_string};

verus! {

/// The request verbs the parser recognizes; anything else is `Unknown`.
#[derive(Debug, Clone, Copy)]
pub enum HttpMethod {
    Get,
    Post,
    Put,
    Patch,
    Delete,
    Head,
    Unknown(()),
}

/// The method a token names once trimmed and folded to upper case.
pub open spec fn spec_method_from(s: Seq<char>) -> HttpMethod {
    let u = spec_upper(spec_trim(s));
    if u == "GET"@ {
        HttpMethod::Get
    } else if u == "POST"@ {
        HttpMethod::Post
    } else if u == "PUT"@ {
        HttpMethod::Put
    } else if u == "PATCH"@ {
        HttpMethod::Patch
    } else if u == "DELETE"@ {
        HttpMethod::Delete
    } else if u == "HEAD"@ {
        HttpMethod::Head
    } else {
        HttpMethod::Unknown(())
    }
}

/// Whether the server serves this verb at all.
pub open spec fn spec_method_is_supported(m: HttpMethod) -> bool {
    !(m is Unknown)
}

/// Whether this verb may carry a request body.
pub open spec fn spec_method_has_body(m: HttpMethod) -> bool {
    m is Post || m is Put || m is Patch
}

/// Two methods are equal only when both are recognized verbs; an
/// unknown method equals nothing, itself included.
pub open spec fn spec_method_eq(a: HttpMethod, b: HttpMethod) -> bool {
    match (a, b) {
        (HttpMethod::Get, HttpMethod::Get) => true,
        (HttpMethod::Post, HttpMethod::Post) => true,
        (HttpMethod::Put, HttpMethod::Put) => true,
        (HttpMethod::Patch, HttpMethod::Patch) => true,
        (HttpMethod::Delete, HttpMethod::Delete) => true,
        (HttpMethod::Head, HttpMethod::Head) => true,
        _ => false,
    }
}

impl PartialEq for HttpMethod {
    fn eq(&self, other: &Self) -> (r: bool) {
        match (self, other) {
            (HttpMethod::Get, HttpMethod::Get) => true,
            (HttpMethod::Post, HttpMethod::Post) => true,
            (HttpMethod::Put, HttpMethod::Put) => true,
            (HttpMethod::Patch, HttpMethod::Patch) => true,
            (HttpMethod::Delete, HttpMethod::Delete) => true,
            (HttpMethod::Head, HttpMethod::Head) => true,
            _ => false,
        }
    }
}

impl vstd::std_specs::cmp::PartialEqSpecImpl for HttpMethod {
    open spec fn obeys_eq_spec() -> bool {
        true
    }

    open spec fn eq_spec(&self, other: &Self) -> bool {
        spec_method_eq(*self, *other)
    }
}

impl HttpMethod {
    /// Reads a method token, ignoring surrounding whitespace and case.
    pub fn from_str(version: &str) -> (r: HttpMethod)
        ensures
            r == spec_method_from(version@),
    {
        let upper = to_upper_string(str_trim(version));
        if str_eq(upper.as_str(), "GET") {
            HttpMethod::Get
        } else if str_eq(upper.as_str(), "POST") {
            HttpMethod::Post
        } else if str_eq(upper.as_str(), "PUT") {
            HttpMethod::Put
        } else if str_eq(upper.as_str(), "PATCH") {
            HttpMethod::Patch
        } else if str_eq(upper.as_str(), "DELETE") {
            HttpMethod::Delete
        } else if str_eq(upper.as_str(), "HEAD") {
            HttpMethod::Head
        } else {
            HttpMethod::Unknown(())
        }
    }

    pub fn is_supported(&self) -> (r: bool)
        ensures
            r == spec_method_is_supported(*self),
    {
        !matches!(self, HttpMethod::Unknown(_))
    }

    pub fn has_body(&self) -> (r: bool)
        ensures
            r == spec_method_has_body(*self),
    {
        matches!(self, HttpMethod::Post | HttpMethod::Put | HttpMethod::Patch)
    }
}

} // verus!
