//! The request method.

use crate::http::text::chars_of;
use crate::http::text::string_of;
use crate::http::text::text_is;
use vstd::prelude::*;

verus! {

/// The method of a request: one of the nine standard methods, or the token
/// of the request line as it came where it names none of them.
#[derive(Debug, PartialEq)]
pub enum Method {
    GET,
    HEAD,
    POST,
    PUT,
    DELETE,
    TRACE,
    OPTIONS,
    CONNECT,
    PATCH,
    UNKNOWN(String),
}

/// What a `Method` stands for: the same variants, over a sequence of
/// characters.
pub enum Verb {
    Get,
    Head,
    Post,
    Put,
    Delete,
    Trace,
    Options,
    Connect,
    Patch,
    Unknown(Seq<char>),
}

impl View for Method {
    type V = Verb;

    open spec fn view(&self) -> Verb {
        match self {
            Method::GET => Verb::Get,
            Method::HEAD => Verb::Head,
            Method::POST => Verb::Post,
            Method::PUT => Verb::Put,
            Method::DELETE => Verb::Delete,
            Method::TRACE => Verb::Trace,
            Method::OPTIONS => Verb::Options,
            Method::CONNECT => Verb::Connect,
            Method::PATCH => Verb::Patch,
            Method::UNKNOWN(token) => Verb::Unknown(token@),
        }
    }
}

impl Clone for Method {
    fn clone(&self) -> (copy: Method)
        ensures
            copy@ == self@,
    {
        match self {
            Method::GET => Method::GET,
            Method::HEAD => Method::HEAD,
            Method::POST => Method::POST,
            Method::PUT => Method::PUT,
            Method::DELETE => Method::DELETE,
            Method::TRACE => Method::TRACE,
            Method::OPTIONS => Method::OPTIONS,
            Method::CONNECT => Method::CONNECT,
            Method::PATCH => Method::PATCH,
            Method::UNKNOWN(token) => Method::UNKNOWN(token.clone()),
        }
    }
}

/// The method that a token of the request line names. The match is exact:
/// a token in lower case names no standard method.
pub open spec fn verb_of(token: Seq<char>) -> Verb {
    if token == "GET"@ {
        Verb::Get
    } else if token == "HEAD"@ {
        Verb::Head
    } else if token == "POST"@ {
        Verb::Post
    } else if token == "PUT"@ {
        Verb::Put
    } else if token == "DELETE"@ {
        Verb::Delete
    } else if token == "TRACE"@ {
        Verb::Trace
    } else if token == "OPTIONS"@ {
        Verb::Options
    } else if token == "CONNECT"@ {
        Verb::Connect
    } else if token == "PATCH"@ {
        Verb::Patch
    } else {
        Verb::Unknown(token)
    }
}

/// The method that the characters of `token` name.
pub fn method_of_chars(token: &[char]) -> (method: Method)
    ensures
        method@ == verb_of(token@),
{
    if text_is(token, "GET") {
        Method::GET
    } else if text_is(token, "HEAD") {
        Method::HEAD
    } else if text_is(token, "POST") {
        Method::POST
    } else if text_is(token, "PUT") {
        Method::PUT
    } else if text_is(token, "DELETE") {
        Method::DELETE
    } else if text_is(token, "TRACE") {
        Method::TRACE
    } else if text_is(token, "OPTIONS") {
        Method::OPTIONS
    } else if text_is(token, "CONNECT") {
        Method::CONNECT
    } else if text_is(token, "PATCH") {
        Method::PATCH
    } else {
        Method::UNKNOWN(string_of(token))
    }
}

impl Method {
    /// The method that `method` names. Every token maps to exactly one
    /// variant; none is refused.
    pub fn new(method: &str) -> (m: Method)
        ensures
            m@ == verb_of(method@),
    {
        let token = chars_of(method);
        method_of_chars(token.as_slice())
    }
}

} // verus!
