//! The answers of the file server: what is sent for a request that was read,
//! and what for bytes that held none.

use crate::http::headers::ascii_lowercase;
use crate::http::response::decimal;
use crate::http::response::push_decimal;
use crate::http::response::Response;
use crate::http::response::ResponseView;
use crate::http::strmap::has_key;
use crate::http::strmap::put;
use crate::http::strmap::Entry;
use vstd::prelude::*;
use vstd::slice::slice_to_vec;
use vstd::utf8::encode_utf8;
use vstd::utf8::is_ascii_chars;

verus! {

/// The answer that carries a file: the status that the file collaborator
/// gave, the content as the body, and the length that it reported in a
/// `Content-Length` header, written in decimal. The name of the header is
/// stored, and written, in lower case.
pub open spec fn file_response_of(code: u32, file: Seq<u8>, size: nat) -> ResponseView {
    ResponseView {
        code: code as nat,
        headers: seq![("content-length"@, decimal(size))],
        body: file,
    }
}

/// The answer to bytes that held no request: the status 400 and a plain
/// sentence as the body, without header fields.
pub open spec fn bad_request_of() -> ResponseView {
    ResponseView {
        code: 400,
        headers: Seq::empty(),
        body: encode_utf8("You have sent a wrong request"@),
    }
}

/// The answer that carries a file of `size` bytes.
pub fn file_response(code: u32, file: Vec<u8>, size: usize) -> (response: Response)
    ensures
        response@ == file_response_of(code, file@, size as nat),
{
    let mut response = Response::new();
    response.set_code(code as usize);
    let mut length = String::new();
    push_decimal(&mut length, size);
    assert(length@ =~= decimal(size as nat));
    response.add_header("Content-Length".to_string(), length);
    proof {
        lemma_content_length_folds();
        let none = Seq::<Entry>::empty();
        assert(!has_key(none, "content-length"@));
        assert(put(none, "content-length"@, length@) =~= seq![("content-length"@, length@)]);
    }
    response.set_body(file);
    response
}

/// The name `Content-Length` is ASCII, and its plain lower-case form is
/// `content-length`.
proof fn lemma_content_length_folds()
    ensures
        is_ascii_chars("Content-Length"@),
        ascii_lowercase("Content-Length"@) == "content-length"@,
{
    reveal_strlit("Content-Length");
    reveal_strlit("content-length");
    assert(ascii_lowercase("Content-Length"@) =~= "content-length"@);
}

/// The answer to bytes that held no request.
pub fn bad_request() -> (response: Response)
    ensures
        response@ == bad_request_of(),
{
    let mut response = Response::new();
    response.set_code(400);
    response.set_body(slice_to_vec("You have sent a wrong request".as_bytes()));
    response
}

} // verus!
