//! Reading one request out of the bytes of a connection.

use crate::http::headers::lowercase;
use crate::http::headers::Headers;
use crate::http::method::method_of_chars;
use crate::http::method::verb_of;
use crate::http::method::Method;
use crate::http::method::Verb;
use crate::http::strmap::map_of;
use crate::http::strmap::put;
use crate::http::strmap::Entry;
use crate::http::text::chars_of;
use crate::http::text::copy_range;
use crate::http::text::find;
use crate::http::text::find_char;
use crate::http::text::find_from;
use crate::http::text::index_of;
use crate::http::text::lemma_find_none_iff_absent;
use crate::http::text::lemma_index_of;
use crate::http::text::lemma_split_scan_nonempty;
use crate::http::text::lemma_split_without_separator;
use crate::http::text::occurs;
use crate::http::text::occurs_at;
use crate::http::text::split;
use crate::http::text::split_at_char;
use crate::http::text::split_text;
use crate::http::text::string_of;
use crate::http::text::texts;
use crate::http::uri::parse_uri;
use crate::http::uri::uri_of_chars;
use crate::http::uri::uri_view;
use crate::http::uri::QueryView;
use crate::http::uri::URIQuery;
use crate::http::uri::URI;
use vstd::prelude::*;
use vstd::slice::slice_subrange;
use vstd::slice::slice_to_vec;
use vstd::utf8::decode_utf8;
use vstd::utf8::valid_utf8;

verus! {

/// The size of the buffer that one request is read into. One read fills it;
/// what the read leaves unused stays zero.
pub const REQUEST_BUFFER_SIZE: usize = 2048;

/// Why a buffer holds no request.
#[derive(Debug, PartialEq, Eq, Clone, Copy, Structural)]
pub enum ParseError {
    /// The buffer is empty.
    EmptyInput,
    /// No blank line ends the header block.
    NoTerminator,
    /// The request line has fewer than two tokens.
    MissingMethodOrURI,
    /// A `%` stands in the path of the request target.
    RejectedPercentInPath,
}

/// What a request stands for.
pub struct RequestView {
    pub method: Verb,
    pub path: Seq<char>,
    pub query: Option<QueryView>,
    pub headers: Map<Seq<char>, Seq<char>>,
    pub body: Option<Seq<u8>>,
}

/// A request that was read whole.
#[derive(Debug, PartialEq)]
pub struct SafeRequest {
    method: Method,
    path: String,
    query: Option<URIQuery>,
    headers: Headers,
    body: Option<Vec<u8>>,
}

/// The bytes of a body, if there is one.
pub open spec fn body_view(body: Option<Vec<u8>>) -> Option<Seq<u8>> {
    match body {
        Some(bytes) => Some(bytes@),
        None => None,
    }
}

/// The view of a query, if there is one.
pub open spec fn query_view(query: Option<URIQuery>) -> Option<QueryView> {
    match query {
        Some(q) => Some(q@),
        None => None,
    }
}

impl View for SafeRequest {
    type V = RequestView;

    closed spec fn view(&self) -> RequestView {
        RequestView {
            method: self.method@,
            path: self.path@,
            query: query_view(self.query),
            headers: self.headers@,
            body: body_view(self.body),
        }
    }
}

/// The blank line that ends the header block: CR LF CR LF.
pub open spec fn terminator() -> Seq<u8> {
    seq![13u8, 10u8, 13u8, 10u8]
}

/// The separator of the lines of the header block: CR LF.
pub open spec fn line_break() -> Seq<char> {
    seq!['\r', '\n']
}

/// Every byte is zero. This holds of the empty sequence.
pub open spec fn all_zero(bytes: Seq<u8>) -> bool {
    forall|i: int| 0 <= i < bytes.len() ==> bytes[i] == 0u8
}

/// The body that the region after the blank line holds: none where every
/// byte of it is zero, the whole region otherwise. A body made of zero bytes
/// alone cannot be told from the unused rest of a read buffer, and counts as
/// absent.
pub open spec fn body_of(region: Seq<u8>) -> Option<Seq<u8>> {
    if all_zero(region) {
        None
    } else {
        Some(region)
    }
}

/// The field that a line of the header block gives: the name is what stands
/// before the first `:`, in lower case, the value what stands after it,
/// untrimmed. A line without `:` gives no field.
pub open spec fn header_of(line: Seq<char>) -> Option<Entry> {
    match index_of(line, ':') {
        Some(i) => Some((lowercase(line.take(i)), line.skip(i + 1))),
        None => None,
    }
}

/// The fields that the lines give, taken from first to last: a name that
/// comes again gets the later value.
pub open spec fn headers_of(lines: Seq<Seq<char>>) -> Seq<Entry>
    decreases lines.len(),
{
    if lines.len() == 0 {
        Seq::empty()
    } else {
        let before = headers_of(lines.drop_last());
        match header_of(lines.last()) {
            Some(field) => put(before, field.0, field.1),
            None => before,
        }
    }
}

/// The lines of a header block.
pub open spec fn lines_of(text: Seq<char>) -> Seq<Seq<char>> {
    split(text, line_break())
}

/// The tokens of the request line, which is the first line of the block.
pub open spec fn request_tokens(text: Seq<char>) -> Seq<Seq<char>> {
    split(lines_of(text)[0], seq![' '])
}

/// The request that a decoded header block and a body stand for.
pub open spec fn request_of_head(text: Seq<char>, body: Option<Seq<u8>>) -> Result<
    RequestView,
    ParseError,
> {
    let tokens = request_tokens(text);
    if tokens.len() < 2 {
        Err(ParseError::MissingMethodOrURI)
    } else {
        match parse_uri(tokens[1]) {
            None => Err(ParseError::RejectedPercentInPath),
            Some(target) => Ok(
                RequestView {
                    method: verb_of(tokens[0]),
                    path: target.0,
                    query: target.1,
                    headers: map_of(headers_of(lines_of(text).skip(1))),
                    body: body,
                },
            ),
        }
    }
}

/// The text that `String::from_utf8_lossy` gives for `bytes`: the decoding
/// of the bytes as UTF-8, with U+FFFD in place of what is not UTF-8.
pub uninterp spec fn lossy_utf8(bytes: Seq<u8>) -> Seq<char>;

/// The bytes of the header block: what stands before the first blank line.
pub open spec fn head_bytes(buffer: Seq<u8>) -> Seq<u8> {
    match find(buffer, terminator()) {
        Some(at) => buffer.take(at),
        None => buffer,
    }
}

/// The request that the bytes of a buffer stand for, where `text` is the
/// decoding of its header block. The body region is what stands after the
/// first blank line.
pub open spec fn request_of_decoded(buffer: Seq<u8>, text: Seq<char>) -> Result<
    RequestView,
    ParseError,
> {
    if buffer.len() == 0 {
        Err(ParseError::EmptyInput)
    } else {
        match find(buffer, terminator()) {
            None => Err(ParseError::NoTerminator),
            Some(at) => request_of_head(text, body_of(buffer.skip(at + 4))),
        }
    }
}

/// The request that the bytes of a buffer stand for. The header block is
/// decoded as UTF-8, with U+FFFD in place of what is not UTF-8.
pub open spec fn request_of(buffer: Seq<u8>) -> Result<RequestView, ParseError> {
    request_of_decoded(buffer, lossy_utf8(head_bytes(buffer)))
}

/// The outcome of reading a request, with views in place of values.
pub open spec fn outcome_view(outcome: Result<SafeRequest, ParseError>) -> Result<
    RequestView,
    ParseError,
> {
    match outcome {
        Ok(request) => Ok(request@),
        Err(reason) => Err(reason),
    }
}

/// `String::from_utf8_lossy`, with the result as an owned string. The result
/// is a function of the bytes alone; `lossy_utf8` is its name. Bytes that
/// are valid UTF-8 come out as the text they encode, with nothing replaced.
#[verifier::external_body]
pub(crate) fn from_utf8_lossy(bytes: &[u8]) -> (text: String)
    ensures
        text@ == lossy_utf8(bytes@),
        valid_utf8(bytes@) ==> text@ == decode_utf8(bytes@),
{
    String::from_utf8_lossy(bytes).into_owned()
}

/// Only the empty buffer is refused as empty.
pub proof fn law_empty_input(buffer: Seq<u8>)
    ensures
        request_of(buffer) == Err::<RequestView, ParseError>(ParseError::EmptyInput)
            <==> buffer.len() == 0,
{
}

/// A buffer that is not empty is refused for its missing terminator exactly
/// where no blank line stands in it.
pub proof fn law_no_terminator(buffer: Seq<u8>)
    requires
        buffer.len() > 0,
    ensures
        request_of(buffer) == Err::<RequestView, ParseError>(ParseError::NoTerminator)
            <==> !occurs(buffer, terminator()),
{
    lemma_find_none_iff_absent(buffer, terminator());
}

/// A line has fewer than two tokens between spaces exactly where it holds
/// no space.
pub proof fn law_single_token_iff_no_space(line: Seq<char>)
    ensures
        split(line, seq![' ']).len() < 2 <==> !line.contains(' '),
{
    lemma_index_of(line, ' ');
    lemma_find_none_iff_absent(line, seq![' ']);
    if line.contains(' ') {
        lemma_split_has_two(line, seq![' '], 0, 0);
    } else {
        lemma_split_without_separator(line, seq![' ']);
    }
}

/// Where the separator occurs at or after `pos`, there are two pieces or more.
proof fn lemma_split_has_two<T>(s: Seq<T>, sep: Seq<T>, start: int, pos: int)
    requires
        0 <= pos,
        sep.len() > 0,
        exists|i: int| pos <= i && occurs_at(s, sep, i),
    ensures
        crate::http::text::split_scan(s, sep, start, pos).len() >= 2,
    decreases s.len() - pos,
{
    let i = choose|i: int| pos <= i && occurs_at(s, sep, i);
    if occurs_at(s, sep, pos) {
        lemma_split_scan_nonempty(s, sep, pos + sep.len(), pos + sep.len());
    } else {
        assert(pos + 1 <= i);
        lemma_split_has_two(s, sep, start, pos + 1);
    }
}

/// A header block whose request line has fewer than two tokens between
/// spaces holds no request: the method or the target is missing.
pub proof fn law_missing_method_or_uri(text: Seq<char>, body: Option<Seq<u8>>)
    requires
        request_tokens(text).len() < 2,
    ensures
        request_of_head(text, body) == Err::<RequestView, ParseError>(
            ParseError::MissingMethodOrURI,
        ),
{
}

/// The same of a whole buffer: with a blank line, and a request line of
/// fewer than two tokens, the outcome is `MissingMethodOrURI`.
pub proof fn law_missing_method_or_uri_in_buffer(buffer: Seq<u8>)
    requires
        buffer.len() > 0,
        find(buffer, terminator()) is Some,
        request_tokens(lossy_utf8(head_bytes(buffer))).len() < 2,
    ensures
        request_of(buffer) == Err::<RequestView, ParseError>(ParseError::MissingMethodOrURI),
{
}

/// The part of a request target that stands before its first `?`: the
/// whole target where it holds no `?`.
pub open spec fn path_part(target: Seq<char>) -> Seq<char> {
    match index_of(target, '?') {
        Some(mark) => target.take(mark),
        None => target,
    }
}

/// A target with a `%` in its path is refused, whatever its query.
pub proof fn law_percent_in_path(target: Seq<char>)
    requires
        path_part(target).contains('%'),
    ensures
        parse_uri(target) is None,
{
}

/// A header block whose request line has a target with a `%` in its path
/// holds no request: the path is rejected.
pub proof fn law_rejected_percent(text: Seq<char>, body: Option<Seq<u8>>)
    requires
        request_tokens(text).len() >= 2,
        path_part(request_tokens(text)[1]).contains('%'),
    ensures
        request_of_head(text, body) == Err::<RequestView, ParseError>(
            ParseError::RejectedPercentInPath,
        ),
{
}

/// The same of a whole buffer with a blank line.
pub proof fn law_rejected_percent_in_buffer(buffer: Seq<u8>)
    requires
        buffer.len() > 0,
        find(buffer, terminator()) is Some,
        request_tokens(lossy_utf8(head_bytes(buffer))).len() >= 2,
        path_part(request_tokens(lossy_utf8(head_bytes(buffer)))[1]).contains('%'),
    ensures
        request_of(buffer) == Err::<RequestView, ParseError>(ParseError::RejectedPercentInPath),
{
}

/// A buffer that held no request: why, and the method where the request
/// line was read far enough to give one.
#[derive(Debug, PartialEq)]
pub struct Request {
    reason: ParseError,
    method: Option<Method>,
}

/// What a refused request stands for.
pub struct RefusalView {
    pub reason: ParseError,
    pub method: Option<Verb>,
}

/// The view of a method, if there is one.
pub open spec fn method_view(method: Option<Method>) -> Option<Verb> {
    match method {
        Some(m) => Some(m@),
        None => None,
    }
}

impl View for Request {
    type V = RefusalView;

    closed spec fn view(&self) -> RefusalView {
        RefusalView { reason: self.reason, method: method_view(self.method) }
    }
}

/// What is left of a header block that holds no request: the reason, and
/// the method, which is known where the request line was read and the
/// failure lies in the target.
pub open spec fn refusal_of_head(text: Seq<char>) -> Option<RefusalView> {
    match request_of_head(text, None) {
        Ok(_) => None,
        Err(reason) => Some(
            RefusalView { reason: reason, method: Some(verb_of(request_tokens(text)[0])) },
        ),
    }
}

/// What is left of a buffer that holds no request. An empty buffer and one
/// without a blank line give no method.
pub open spec fn refusal_of(buffer: Seq<u8>) -> Option<RefusalView> {
    if buffer.len() == 0 {
        Some(RefusalView { reason: ParseError::EmptyInput, method: None })
    } else {
        match find(buffer, terminator()) {
            None => Some(RefusalView { reason: ParseError::NoTerminator, method: None }),
            Some(at) => refusal_of_head(lossy_utf8(head_bytes(buffer))),
        }
    }
}

/// A refusal is given exactly where the buffer holds no request, and for
/// the reason that `request_of` gives.
pub proof fn lemma_refusal_matches_parse(buffer: Seq<u8>)
    ensures
        match request_of(buffer) {
            Ok(_) => refusal_of(buffer) is None,
            Err(reason) => refusal_of(buffer) is Some && refusal_of(buffer)->0.reason == reason,
        },
{
    if buffer.len() > 0 {
        match find(buffer, terminator()) {
            None => {},
            Some(at) => {
                lemma_head_outcome_ignores_body(
                    lossy_utf8(head_bytes(buffer)),
                    body_of(buffer.skip(at + 4)),
                    None,
                );
            },
        }
    }
}

/// Whether a header block holds a request, and why not, does not depend on
/// the body.
pub proof fn lemma_head_outcome_ignores_body(
    text: Seq<char>,
    body: Option<Seq<u8>>,
    other: Option<Seq<u8>>,
)
    ensures
        match request_of_head(text, body) {
            Ok(_) => request_of_head(text, other) is Ok,
            Err(reason) => request_of_head(text, other) == Err::<RequestView, ParseError>(reason),
        },
{
}

/// The index of the first blank line of the buffer.
pub fn find_terminator(buffer: &[u8]) -> (found: Option<usize>)
    ensures
        match found {
            Some(at) => find(buffer@, terminator()) == Some(at as int) && at + 4 <= buffer.len(),
            None => find(buffer@, terminator()) is None,
        },
{
    if buffer.len() < 4 {
        return None;
    }
    let last: usize = buffer.len() - 4;
    let mut i: usize = 0;
    let ghost mark = terminator();
    assert(mark[0] == 13u8 && mark[1] == 10u8 && mark[2] == 13u8 && mark[3] == 10u8);
    while i <= last
        invariant
            buffer.len() >= 4,
            last == buffer.len() - 4,
            mark == terminator(),
            mark[0] == 13u8 && mark[1] == 10u8 && mark[2] == 13u8 && mark[3] == 10u8,
            find(buffer@, mark) == find_from(buffer@, mark, i as int),
        decreases last + 1 - i,
    {
        if buffer[i] == 13 && buffer[i + 1] == 10 && buffer[i + 2] == 13 && buffer[i + 3] == 10 {
            assert(occurs_at(buffer@, mark, i as int)) by {
                assert forall|k: int| 0 <= k < mark.len() implies buffer@[i + k] == #[trigger] mark[k] by {
                    assert(k == 0 || k == 1 || k == 2 || k == 3);
                }
            }
            return Some(i);
        }
        assert(!occurs_at(buffer@, mark, i as int)) by {
            if occurs_at(buffer@, mark, i as int) {
                assert(buffer@[i + 0] == mark[0]);
                assert(buffer@[i + 1] == mark[1]);
                assert(buffer@[i + 2] == mark[2]);
                assert(buffer@[i + 3] == mark[3]);
            }
        }
        i += 1;
    }
    None
}

/// The body that the region after the blank line holds.
pub fn read_body(region: &[u8]) -> (body: Option<Vec<u8>>)
    ensures
        body_view(body) == body_of(region@),
{
    let mut i: usize = 0;
    while i < region.len()
        invariant
            i <= region.len(),
            forall|j: int| 0 <= j < i ==> region@[j] == 0u8,
        decreases region.len() - i,
    {
        if region[i] != 0 {
            return Some(slice_to_vec(region));
        }
        i += 1;
    }
    None
}

/// Reads the lines after the request line into header fields.
fn read_headers(lines: &Vec<Vec<char>>) -> (headers: Headers)
    requires
        lines@.len() >= 1,
    ensures
        headers.entries() == headers_of(texts(lines@).skip(1)),
{
    let mut headers = Headers::new();
    let ghost rest = texts(lines@).skip(1);
    let mut k: usize = 1;
    while k < lines.len()
        invariant
            1 <= k <= lines.len(),
            rest == texts(lines@).skip(1),
            headers.entries() == headers_of(rest.take(k - 1)),
        decreases lines.len() - k,
    {
        let line = lines[k].as_slice();
        let ghost taken = rest.take(k as int);
        assert(taken.drop_last() =~= rest.take(k - 1));
        assert(taken.last() == line@);
        match find_char(line, ':') {
            Some(i) => {
                let name = string_of(copy_range(line, 0, i).as_slice());
                assert(i < line.len());
                let value = string_of(copy_range(line, i + 1, line.len()).as_slice());
                assert(name@ =~= line@.take(i as int));
                assert(value@ =~= line@.skip(i + 1));
                headers.insert(name.as_str(), value);
            },
            None => {},
        }
        k += 1;
    }
    assert(rest.take(lines@.len() - 1) =~= rest);
    headers
}

/// Reads a decoded header block; the body is handed through.
fn read_head(text: &[char], body: Option<Vec<u8>>) -> (outcome: Result<SafeRequest, Request>)
    ensures
        match outcome {
            Ok(request) => request_of_head(text@, body_view(body)) == Ok::<
                RequestView,
                ParseError,
            >(request@),
            Err(refusal) => refusal_of_head(text@) == Some(refusal@) && request_of_head(
                text@,
                body_view(body),
            ) == Err::<RequestView, ParseError>(refusal@.reason),
        },
{
    let breaker: [char; 2] = ['\r', '\n'];
    assert(breaker@ =~= line_break());
    let lines = split_text(text, breaker.as_slice());
    proof {
        lemma_split_scan_nonempty(text@, line_break(), 0, 0);
        lemma_head_outcome_ignores_body(text@, body_view(body), None);
    }
    let tokens = split_at_char(lines[0].as_slice(), ' ');
    proof {
        lemma_split_scan_nonempty(lines@[0]@, seq![' '], 0, 0);
    }
    assert(texts(tokens@) == request_tokens(text@));
    let method = method_of_chars(tokens[0].as_slice());
    if tokens.len() < 2 {
        return Err(Request { reason: ParseError::MissingMethodOrURI, method: Some(method) });
    }
    match uri_of_chars(tokens[1].as_slice()) {
        None => Err(Request { reason: ParseError::RejectedPercentInPath, method: Some(method) }),
        Some(uri) => {
            let headers = read_headers(&lines);
            Ok(SafeRequest { method, path: uri.0, query: uri.1, headers, body })
        },
    }
}

/// Reads a request from a decoded header block and a body. The block is the
/// text before the blank line; its first line is the request line, the
/// others are header fields.
pub fn parse_head(text: &str, body: Option<Vec<u8>>) -> (outcome: Result<SafeRequest, ParseError>)
    ensures
        outcome_view(outcome) == request_of_head(text@, body_view(body)),
{
    let chars = chars_of(text);
    match read_head(chars.as_slice(), body) {
        Ok(request) => Ok(request),
        Err(refusal) => Err(refusal.reason),
    }
}

/// The outcome of reading a request or refusing it, with views in place of
/// values.
pub open spec fn refusal_view(outcome: Result<SafeRequest, Request>) -> Option<RefusalView> {
    match outcome {
        Ok(_) => None,
        Err(refusal) => Some(refusal@),
    }
}

/// The outcome of reading a request, without what a refusal keeps.
pub open spec fn reason_view(outcome: Result<SafeRequest, Request>) -> Result<
    RequestView,
    ParseError,
> {
    match outcome {
        Ok(request) => Ok(request@),
        Err(refusal) => Err(refusal@.reason),
    }
}

impl Request {
    /// Reads the request that a buffer holds. Where it holds none, what is
    /// returned says why, and gives the method if the request line was read.
    pub fn new(buffer: &[u8]) -> (outcome: Result<SafeRequest, Request>)
        ensures
            reason_view(outcome) == request_of(buffer@),
            refusal_view(outcome) == refusal_of(buffer@),
            valid_utf8(head_bytes(buffer@)) ==> reason_view(outcome) == request_of_decoded(
                buffer@,
                decode_utf8(head_bytes(buffer@)),
            ),
    {
        proof {
            lemma_refusal_matches_parse(buffer@);
        }
        if buffer.len() == 0 {
            return Err(Request { reason: ParseError::EmptyInput, method: None });
        }
        match find_terminator(buffer) {
            None => Err(Request { reason: ParseError::NoTerminator, method: None }),
            Some(at) => {
                let head = slice_subrange(buffer, 0, at);
                assert(head@ =~= buffer@.take(at as int));
                let text = from_utf8_lossy(head);
                let region = slice_subrange(buffer, at + 4, buffer.len());
                assert(region@ =~= buffer@.skip(at + 4));
                let body = read_body(region);
                let chars = chars_of(text.as_str());
                read_head(chars.as_slice(), body)
            },
        }
    }

    /// Why the buffer held no request.
    pub fn reason(&self) -> (reason: ParseError)
        ensures
            reason == self@.reason,
    {
        self.reason
    }

    /// The method, where the request line gave one.
    pub fn method(&self) -> (method: Option<Method>)
        ensures
            method_view(method) == self@.method,
    {
        match &self.method {
            Some(m) => Some(m.clone()),
            None => None,
        }
    }

    /// The target: a refused request has none.
    pub fn uri(&self) -> (uri: Option<URI>)
        ensures
            uri is None,
    {
        None
    }

    /// The header fields: a refused request has none.
    pub fn headers(&self) -> (headers: Option<Headers>)
        ensures
            headers is None,
    {
        None
    }

    /// The body: a refused request has none.
    pub fn body(&self) -> (body: Option<Vec<u8>>)
        ensures
            body is None,
    {
        None
    }
}

/// Reads the request that a buffer holds. The buffer must hold the blank
/// line that ends the header block: nothing is read piecewise.
pub fn parse(buffer: &[u8]) -> (outcome: Result<SafeRequest, ParseError>)
    ensures
        outcome_view(outcome) == request_of(buffer@),
        valid_utf8(head_bytes(buffer@)) ==> outcome_view(outcome) == request_of_decoded(
            buffer@,
            decode_utf8(head_bytes(buffer@)),
        ),
{
    match Request::new(buffer) {
        Ok(request) => Ok(request),
        Err(refusal) => Err(refusal.reason),
    }
}

impl SafeRequest {
    /// The method.
    pub fn method(&self) -> (method: Method)
        ensures
            method@ == self@.method,
    {
        self.method.clone()
    }

    /// The target: the path, and the query if there is one.
    pub fn uri(&self) -> (uri: URI)
        ensures
            uri_view(uri) == (self@.path, self@.query),
    {
        let query = match &self.query {
            Some(q) => Some(q.clone()),
            None => None,
        };
        (self.path.clone(), query)
    }

    /// The header fields.
    pub fn headers(&self) -> (headers: Headers)
        ensures
            headers@ == self@.headers,
    {
        self.headers.clone()
    }

    /// The body, if the request has one.
    pub fn body(&self) -> (body: Option<Vec<u8>>)
        ensures
            body_view(body) == self@.body,
    {
        match &self.body {
            Some(bytes) => Some(bytes.clone()),
            None => None,
        }
    }
}

} // verus!
