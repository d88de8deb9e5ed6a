//! The decisions of a server that answers one connection at a time and
//! serves files to `GET` requests only.

use crate::http::request::from_utf8_lossy;
use crate::http::request::lossy_utf8;
use crate::http::response::decimal;
use crate::http::response::push_decimal;
use crate::http::response::reason_phrase;
use crate::http::response::resolve_reason_phrase;
use crate::http::text::chars_of;
use crate::http::text::split;
use crate::http::text::split_at_char;
use crate::http::text::string_of;
use crate::http::text::text_is;
use crate::http::text::texts;
use vstd::prelude::*;
use vstd::string::StringExecFns;

verus! {

/// The size of the buffer that one request is read into.
pub const REQUEST_BUFFER_SIZE: usize = 1024;

/// The text of a response: the status line, the header text and the body,
/// each followed by LF CR.
pub open spec fn response_text(code: u32, headers: Seq<char>, body: Seq<char>) -> Seq<char> {
    "HTTP/1.1 "@ + decimal(code as nat) + " "@ + reason_phrase(code as int) + "\n\r"@ + headers
        + "\n\r"@ + body
}

/// The text of a response with the status `code`.
pub fn generate_response(code: u32, headers: String, body: String) -> (text: String)
    ensures
        text@ == response_text(code, headers@, body@),
{
    let mut text = String::new();
    text.append("HTTP/1.1 ");
    push_decimal(&mut text, code as usize);
    text.append(" ");
    let wide: usize = code as usize;
    let phrase = resolve_reason_phrase(&wide);
    text.append(phrase.as_str());
    text.append("\n\r");
    text.append(headers.as_str());
    text.append("\n\r");
    text.append(body.as_str());
    assert(text@ =~= response_text(code, headers@, body@));
    text
}

/// What to answer to a request.
#[derive(Debug, PartialEq)]
pub enum Answer {
    /// Nothing: what was read is no request line.
    Nothing,
    /// A response with this status and no content.
    Status(u32),
    /// The file at this path.
    File(String),
}

/// What an answer stands for.
pub enum AnswerView {
    Nothing,
    Status(u32),
    File(Seq<char>),
}

impl View for Answer {
    type V = AnswerView;

    open spec fn view(&self) -> AnswerView {
        match self {
            Answer::Nothing => AnswerView::Nothing,
            Answer::Status(code) => AnswerView::Status(*code),
            Answer::File(path) => AnswerView::File(path@),
        }
    }
}

/// The answer to the text of a request. The text is cut at single spaces.
/// With three tokens or fewer it is no request. A `GET` for a target that
/// does not end in `?` is answered with the file at the target; anything
/// else is not implemented.
pub open spec fn answer_of(text: Seq<char>) -> AnswerView {
    let tokens = split(text, seq![' ']);
    if tokens.len() <= 3 {
        AnswerView::Nothing
    } else if tokens[0] == "GET"@ {
        if tokens[1].len() > 0 && tokens[1].last() == '?' {
            AnswerView::Status(501)
        } else {
            AnswerView::File(tokens[1])
        }
    } else {
        AnswerView::Status(501)
    }
}

/// The answer to the text of a request.
pub fn plan_answer(text: &str) -> (answer: Answer)
    ensures
        answer@ == answer_of(text@),
{
    let chars = chars_of(text);
    let tokens = split_at_char(chars.as_slice(), ' ');
    assert(texts(tokens@) == split(text@, seq![' ']));
    if tokens.len() <= 3 {
        return Answer::Nothing;
    }
    assert(texts(tokens@)[0] == tokens@[0]@);
    assert(texts(tokens@)[1] == tokens@[1]@);
    if text_is(tokens[0].as_slice(), "GET") {
        let target = tokens[1].as_slice();
        if target.len() > 0 && target[target.len() - 1] == '?' {
            Answer::Status(501)
        } else {
            Answer::File(string_of(target))
        }
    } else {
        Answer::Status(501)
    }
}

/// The answer to the bytes that were read from a connection: they are
/// decoded as UTF-8, with U+FFFD in place of what is not, and then read as
/// text.
pub fn plan_answer_to(buffer: &[u8]) -> (answer: Answer)
    ensures
        answer@ == answer_of(lossy_utf8(buffer@)),
{
    let text = from_utf8_lossy(buffer);
    plan_answer(text.as_str())
}

} // verus!
