//! Responses and their framing on the wire.

use crate::http::headers::folded_keys;
use crate::http::headers::folds_plainly;
use crate::http::headers::lowercase;
use crate::http::headers::Headers;
use crate::http::strmap::distinct_keys;
use crate::http::strmap::has_key;
use crate::http::strmap::lemma_map_of_domain;
use crate::http::strmap::map_of;
use crate::http::strmap::put;
use crate::http::strmap::without;
use crate::http::strmap::Entry;
use vstd::prelude::*;
use vstd::slice::slice_to_vec;
use vstd::string::StringExecFns;
use vstd::utf8::encode_utf8;

verus! {

/// The reason phrase of a status code: the canonical phrase of a standard
/// code, and the empty text for any other code.
pub open spec fn reason_phrase(code: int) -> Seq<char> {
    if code == 100 {
        "Continue"@
    } else if code == 101 {
        "Switching Protocols"@
    } else if code == 200 {
        "OK"@
    } else if code == 201 {
        "Created"@
    } else if code == 202 {
        "Accepted"@
    } else if code == 203 {
        "Non-Authoritative Information"@
    } else if code == 204 {
        "No Content"@
    } else if code == 205 {
        "Reset Content"@
    } else if code == 206 {
        "Partial Content"@
    } else if code == 300 {
        "Multiple Choices"@
    } else if code == 301 {
        "Moved Permanently"@
    } else if code == 302 {
        "Found"@
    } else if code == 303 {
        "See Other"@
    } else if code == 304 {
        "Not Modified"@
    } else if code == 305 {
        "Use Proxy"@
    } else if code == 307 {
        "Temporary Redirect"@
    } else if code == 400 {
        "Bad Request"@
    } else if code == 401 {
        "Unauthorized"@
    } else if code == 402 {
        "Payment Required"@
    } else if code == 403 {
        "Forbidden"@
    } else if code == 404 {
        "Not Found"@
    } else if code == 405 {
        "Method Not Allowed"@
    } else if code == 406 {
        "Not Acceptable"@
    } else if code == 407 {
        "Proxy Authentication Required"@
    } else if code == 408 {
        "Request Time-out"@
    } else if code == 409 {
        "Conflict"@
    } else if code == 410 {
        "Gone"@
    } else if code == 411 {
        "Length Required"@
    } else if code == 412 {
        "Precondition Failed"@
    } else if code == 413 {
        "Request Entity Too Large"@
    } else if code == 414 {
        "Request-URI Too Large"@
    } else if code == 415 {
        "Unsupported Media Type"@
    } else if code == 416 {
        "Requested range not satisfiable"@
    } else if code == 417 {
        "Expectation Failed"@
    } else if code == 500 {
        "Internal Server Error"@
    } else if code == 501 {
        "Not Implemented"@
    } else if code == 502 {
        "Bad Gateway"@
    } else if code == 503 {
        "Service Unavailable"@
    } else if code == 504 {
        "Gateway Time-out"@
    } else if code == 505 {
        "HTTP Version not supported"@
    } else {
        ""@
    }
}

/// The reason phrase of a status code.
pub fn resolve_reason_phrase(code: &usize) -> (phrase: String)
    ensures
        phrase@ == reason_phrase(*code as int),
{
    let phrase: &str = match *code {
        100 => "Continue",
        101 => "Switching Protocols",
        200 => "OK",
        201 => "Created",
        202 => "Accepted",
        203 => "Non-Authoritative Information",
        204 => "No Content",
        205 => "Reset Content",
        206 => "Partial Content",
        300 => "Multiple Choices",
        301 => "Moved Permanently",
        302 => "Found",
        303 => "See Other",
        304 => "Not Modified",
        305 => "Use Proxy",
        307 => "Temporary Redirect",
        400 => "Bad Request",
        401 => "Unauthorized",
        402 => "Payment Required",
        403 => "Forbidden",
        404 => "Not Found",
        405 => "Method Not Allowed",
        406 => "Not Acceptable",
        407 => "Proxy Authentication Required",
        408 => "Request Time-out",
        409 => "Conflict",
        410 => "Gone",
        411 => "Length Required",
        412 => "Precondition Failed",
        413 => "Request Entity Too Large",
        414 => "Request-URI Too Large",
        415 => "Unsupported Media Type",
        416 => "Requested range not satisfiable",
        417 => "Expectation Failed",
        500 => "Internal Server Error",
        501 => "Not Implemented",
        502 => "Bad Gateway",
        503 => "Service Unavailable",
        504 => "Gateway Time-out",
        505 => "HTTP Version not supported",
        _ => "",
    };
    phrase.to_owned()
}

/// The character of a decimal digit.
pub open spec fn digit(d: int) -> char {
    ((48 + d) as u8) as char
}

/// The decimal numeral of `n`, without leading zeros.
pub open spec fn decimal(n: nat) -> Seq<char>
    decreases n,
{
    if n < 10 {
        seq![digit(n as int)]
    } else {
        decimal(n / 10).push(digit((n % 10) as int))
    }
}

/// Appends the decimal numeral of `n` to `text`.
pub fn push_decimal(text: &mut String, n: usize)
    ensures
        final(text)@ == old(text)@ + decimal(n as nat),
    decreases n,
{
    if n >= 10 {
        push_decimal(text, n / 10);
    }
    let d: u8 = (n % 10) as u8;
    text.push((48 + d) as char);
    assert(text@ =~= old(text)@ + decimal(n as nat));
}

/// The status line of a response, with its line break.
pub open spec fn status_line(code: nat) -> Seq<char> {
    "HTTP/1.1 "@ + decimal(code) + " "@ + reason_phrase(code as int) + "\r\n"@
}

/// The line of one header field, with its line break.
pub open spec fn header_line(field: Entry) -> Seq<char> {
    field.0 + ": "@ + field.1 + "\r\n"@
}

/// The lines of the header fields, in their order.
pub open spec fn header_lines(fields: Seq<Entry>) -> Seq<char>
    decreases fields.len(),
{
    if fields.len() == 0 {
        Seq::empty()
    } else {
        header_lines(fields.drop_last()) + header_line(fields.last())
    }
}

/// What a response stands for: the status code, the header fields in the
/// order in which they are written, and the body.
pub struct ResponseView {
    pub code: nat,
    pub headers: Seq<Entry>,
    pub body: Seq<u8>,
}

/// The text that goes before the body: the status line, the header lines,
/// and a blank line only where the body is not empty.
pub open spec fn head_text(response: ResponseView) -> Seq<char> {
    status_line(response.code) + header_lines(response.headers) + if response.body.len() > 0 {
        "\r\n"@
    } else {
        Seq::empty()
    }
}

/// The bytes of a response on the wire: the head in UTF-8, then the body as
/// it is.
pub open spec fn wire(response: ResponseView) -> Seq<u8> {
    encode_utf8(head_text(response)) + response.body
}

impl ResponseView {
    /// The value of each header field, by its stored name.
    pub open spec fn fields(self) -> Map<Seq<char>, Seq<char>> {
        map_of(self.headers)
    }

    /// No name is stored twice, and every stored name is the lower-case form
    /// of a name. This holds of every response.
    pub open spec fn well_formed(self) -> bool {
        distinct_keys(self.headers) && folded_keys(self.headers)
    }
}

/// A response under construction: a status code, header fields and a body.
/// Nothing is derived: the length of the body is written as a header only
/// if the caller adds it.
#[derive(Debug, PartialEq)]
pub struct Response {
    code: usize,
    headers: Headers,
    body: Vec<u8>,
}

impl View for Response {
    type V = ResponseView;

    closed spec fn view(&self) -> ResponseView {
        ResponseView { code: self.code as nat, headers: self.headers.entries(), body: self.body@ }
    }
}

impl Response {
    #[verifier::type_invariant]
    spec fn inv(&self) -> bool {
        self@.well_formed()
    }

    /// A response with the code 0, no header fields and an empty body.
    pub fn new() -> (response: Response)
        ensures
            response@ == (ResponseView {
                code: 0,
                headers: Seq::<Entry>::empty(),
                body: Seq::<u8>::empty(),
            }),
            response@.well_formed(),
    {
        Response { code: 0, headers: Headers::new(), body: Vec::new() }
    }

    /// Sets the status code.
    pub fn set_code(&mut self, code: usize)
        ensures
            final(self)@ == (ResponseView { code: code as nat, ..old(self)@ }),
            final(self)@.well_formed(),
    {
        proof {
            use_type_invariant(&*self);
        }
        self.code = code;
    }

    /// Gives the header field `tag` the value `value`. The name is stored in
    /// lower case, so a field given again under another case is replaced:
    /// the value is then found under `tag` in any case, and the other fields
    /// are as they were.
    pub fn add_header(&mut self, tag: String, value: String)
        ensures
            final(self)@ == (ResponseView {
                headers: put(old(self)@.headers, lowercase(tag@), value@),
                ..old(self)@
            }),
            final(self)@.fields() == old(self)@.fields().insert(lowercase(tag@), value@),
            final(self)@.well_formed(),
            folds_plainly(tag@),
    {
        proof {
            use_type_invariant(&*self);
        }
        let mut headers = Headers::new();
        std::mem::swap(&mut self.headers, &mut headers);
        headers.insert(tag.as_str(), value);
        self.headers = headers;
    }

    /// Takes the header field `tag` out, whatever the case of `tag`: no
    /// field of that name is left, and the other fields are as they were. A
    /// name that has no field changes nothing.
    pub fn remove_header(&mut self, tag: &String)
        ensures
            final(self)@ == (ResponseView {
                headers: without(old(self)@.headers, lowercase(tag@)),
                ..old(self)@
            }),
            final(self)@.fields() == old(self)@.fields().remove(lowercase(tag@)),
            !has_key(final(self)@.headers, lowercase(tag@)),
            final(self)@.well_formed(),
            folds_plainly(tag@),
    {
        proof {
            use_type_invariant(&*self);
        }
        let mut headers = Headers::new();
        std::mem::swap(&mut self.headers, &mut headers);
        let _ = headers.remove(tag.as_str());
        proof {
            lemma_map_of_domain(headers.entries(), lowercase(tag@));
        }
        self.headers = headers;
    }

    /// Puts `new_body` in place of the body.
    pub fn set_body(&mut self, new_body: Vec<u8>)
        ensures
            final(self)@ == (ResponseView { body: new_body@, ..old(self)@ }),
            final(self)@.well_formed(),
    {
        proof {
            use_type_invariant(&*self);
        }
        self.body = new_body;
    }

    /// Appends `body_to_append` to the body.
    pub fn append_body(&mut self, body_to_append: Vec<u8>)
        ensures
            final(self)@ == (ResponseView {
                body: old(self)@.body + body_to_append@,
                ..old(self)@
            }),
            final(self)@.well_formed(),
    {
        proof {
            use_type_invariant(&*self);
        }
        let mut rest = body_to_append;
        let mut body: Vec<u8> = Vec::new();
        std::mem::swap(&mut self.body, &mut body);
        body.append(&mut rest);
        self.body = body;
    }

    /// The status code.
    pub fn code(&self) -> (code: usize)
        ensures
            code == self@.code,
            self@.well_formed(),
    {
        proof {
            use_type_invariant(self);
        }
        self.code
    }

    /// The value of the header field `tag`, whatever the case of `tag`.
    pub fn header(&self, tag: &str) -> (value: Option<&String>)
        ensures
            match value {
                Some(v) => self@.fields().contains_key(lowercase(tag@)) && v@ == self@.fields()[lowercase(
                    tag@,
                )],
                None => !self@.fields().contains_key(lowercase(tag@)),
            },
            self@.well_formed(),
            folds_plainly(tag@),
    {
        proof {
            use_type_invariant(self);
        }
        self.headers.get(tag)
    }

    /// The body.
    pub fn body(&self) -> (body: &Vec<u8>)
        ensures
            body@ == self@.body,
            self@.well_formed(),
    {
        proof {
            use_type_invariant(self);
        }
        &self.body
    }

    /// The bytes of the response on the wire: the status line, one line for
    /// each header field in the order in which the names first came, a
    /// blank line only if the body is not empty, then the body.
    pub fn to_bytes(self) -> (bytes: Vec<u8>)
        ensures
            bytes@ == wire(self@),
            self@.well_formed(),
    {
        proof {
            use_type_invariant(&self);
        }
        let mut text = String::new();
        text.append("HTTP/1.1 ");
        push_decimal(&mut text, self.code);
        text.append(" ");
        let phrase = resolve_reason_phrase(&self.code);
        text.append(phrase.as_str());
        text.append("\r\n");
        assert(text@ =~= status_line(self@.code));
        let count = self.headers.len();
        let mut i: usize = 0;
        while i < count
            invariant
                i <= count,
                count == self.headers.entries().len(),
                text@ == status_line(self@.code) + header_lines(self@.headers.take(i as int)),
            decreases count - i,
        {
            let ghost taken = self@.headers.take(i + 1);
            assert(taken.drop_last() =~= self@.headers.take(i as int));
            assert(taken.last() == self@.headers[i as int]);
            let ghost before = text@;
            text.append(self.headers.name_at(i).as_str());
            text.append(": ");
            text.append(self.headers.value_at(i).as_str());
            text.append("\r\n");
            assert(text@ =~= before + header_line(self@.headers[i as int]));
            assert(text@ =~= status_line(self@.code) + header_lines(taken));
            i += 1;
        }
        assert(self@.headers.take(count as int) =~= self@.headers);
        if self.body.len() != 0 {
            text.append("\r\n");
        }
        assert(text@ =~= head_text(self@));
        let mut bytes = slice_to_vec(text.as_str().as_bytes());
        let mut body = self.body;
        bytes.append(&mut body);
        bytes
    }
}

} // verus!
