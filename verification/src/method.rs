//! The request methods the server recognises.
use crate::text::{str_eq, to_uppercase, uppercase_of};
use vstd::prelude::*;

verus! {

/// A request method. The set is closed: a request with any other method is not parsed.
#[derive(Debug, Clone, Copy, PartialEq, Eq, Structural)]
pub enum HttpMethod {
    GET,
    POST,
    PUT,
    DELETE,
    HEAD,
    OPTIONS,
    TRACE,
}

impl HttpMethod {
    /// The method whose upper-case name is exactly `name`.
    pub open spec fn spec_name_of(name: Seq<char>) -> Option<HttpMethod> {
        if name == "GET"@ {
            Some(HttpMethod::GET)
        } else if name == "POST"@ {
            Some(HttpMethod::POST)
        } else if name == "PUT"@ {
            Some(HttpMethod::PUT)
        } else if name == "DELETE"@ {
            Some(HttpMethod::DELETE)
        } else if name == "HEAD"@ {
            Some(HttpMethod::HEAD)
        } else if name == "OPTIONS"@ {
            Some(HttpMethod::OPTIONS)
        } else if name == "TRACE"@ {
            Some(HttpMethod::TRACE)
        } else {
            None
        }
    }

    /// The method that the token `token` of a request line names, whatever the
    /// case of its letters: the method whose name is the upper-case form of the token.
    pub open spec fn spec_from_token(token: Seq<char>) -> Option<HttpMethod> {
        Self::spec_name_of(uppercase_of(token))
    }

    /// Looks a method up by its upper-case name. The match is exact: `get` names no method.
    pub fn name_of(name: String) -> (r: Option<HttpMethod>)
        ensures
            r == Self::spec_name_of(name@),
    {
        if str_eq(name.as_str(), "GET") {
            Some(HttpMethod::GET)
        } else if str_eq(name.as_str(), "POST") {
            Some(HttpMethod::POST)
        } else if str_eq(name.as_str(), "PUT") {
            Some(HttpMethod::PUT)
        } else if str_eq(name.as_str(), "DELETE") {
            Some(HttpMethod::DELETE)
        } else if str_eq(name.as_str(), "HEAD") {
            Some(HttpMethod::HEAD)
        } else if str_eq(name.as_str(), "OPTIONS") {
            Some(HttpMethod::OPTIONS)
        } else if str_eq(name.as_str(), "TRACE") {
            Some(HttpMethod::TRACE)
        } else {
            None
        }
    }

    /// Looks a method up by a token of a request line, ignoring the case of its letters.
    pub fn from_token(token: &str) -> (r: Option<HttpMethod>)
        ensures
            r == Self::spec_from_token(token@),
    {
        Self::name_of(to_uppercase(token))
    }
}

} // verus!
