//! The decisions of the file collaborator: where a requested path lies on
//! disk, and what follows each attempt to read it.
//!
//! Reading is left to the program around this library. It reports each
//! attempt as a `ReadOutcome` and does what the `FetchStep` says.

use vstd::prelude::*;
use vstd::string::StringExecFns;

verus! {

/// How often a read is tried again after a first read that failed for a
/// passing reason.
pub const NUMBER_OF_RETRIES: u32 = 5;

/// The place on disk of a requested path: below `root`, and the
/// `index.html` of a directory where the path ends in `/`.
pub open spec fn real_path_of(path: Seq<char>) -> Seq<char> {
    let below = "root"@ + path;
    if below.len() > 0 && below.last() == '/' {
        below + "index.html"@
    } else {
        below
    }
}

/// The place on disk of the requested path.
pub fn real_path(path_to_file: &str) -> (path: String)
    ensures
        path@ == real_path_of(path_to_file@),
{
    let mut path = String::new();
    path.append("root");
    path.append(path_to_file);
    assert(path@ =~= "root"@ + path_to_file@);
    let chars = crate::http::text::chars_of(path.as_str());
    if chars.len() > 0 && chars[chars.len() - 1] == '/' {
        path.append("index.html");
    }
    path
}

/// How an attempt to read a file ended.
#[derive(Debug, PartialEq)]
pub enum ReadOutcome {
    /// The file was read.
    Content(Vec<u8>),
    /// The read timed out or was interrupted.
    Transient,
    /// The read failed for any other reason.
    Failed,
}

/// What follows an attempt to read a file.
#[derive(Debug, PartialEq)]
pub enum FetchStep {
    /// Answer with this status and this content.
    Reply(u32, Vec<u8>),
    /// Read again; after that read, so many further tries are left.
    Retry(u32),
    /// Give up, and answer with the page for files that were not found.
    NotFound,
}

/// What an outcome or a step stands for, with bytes in place of vectors.
pub enum StepView {
    Reply(u32, Seq<u8>),
    Retry(u32),
    NotFound,
}

impl View for FetchStep {
    type V = StepView;

    open spec fn view(&self) -> StepView {
        match self {
            FetchStep::Reply(code, content) => StepView::Reply(*code, content@),
            FetchStep::Retry(left) => StepView::Retry(*left),
            FetchStep::NotFound => StepView::NotFound,
        }
    }
}

/// What follows the first read. A file that was read is the answer, with
/// the status 200. Only a passing failure is worth another read.
pub open spec fn step_after_first_read(outcome: ReadOutcome) -> StepView {
    match outcome {
        ReadOutcome::Content(content) => StepView::Reply(200, content@),
        ReadOutcome::Transient => StepView::Retry((NUMBER_OF_RETRIES - 1) as u32),
        ReadOutcome::Failed => StepView::NotFound,
    }
}

/// What follows a read that was a retry, with `left` further tries left. A
/// file that was read is the answer, but the status stays 404: only a first
/// read that succeeds gives 200. Any failure leads to the next try while one
/// is left.
pub open spec fn step_after_retry(outcome: ReadOutcome, left: u32) -> StepView {
    match outcome {
        ReadOutcome::Content(content) => StepView::Reply(404, content@),
        _ => if left == 0 {
            StepView::NotFound
        } else {
            StepView::Retry((left - 1) as u32)
        },
    }
}

/// What follows the first read of a file.
pub fn after_first_read(outcome: ReadOutcome) -> (step: FetchStep)
    ensures
        step@ == step_after_first_read(outcome),
{
    match outcome {
        ReadOutcome::Content(content) => FetchStep::Reply(200, content),
        ReadOutcome::Transient => FetchStep::Retry(NUMBER_OF_RETRIES - 1),
        ReadOutcome::Failed => FetchStep::NotFound,
    }
}

/// What follows a read that was a retry, with `left` further tries left.
pub fn after_retry(outcome: ReadOutcome, left: u32) -> (step: FetchStep)
    ensures
        step@ == step_after_retry(outcome, left),
{
    match outcome {
        ReadOutcome::Content(content) => FetchStep::Reply(404, content),
        _ => if left == 0 {
            FetchStep::NotFound
        } else {
            FetchStep::Retry(left - 1)
        },
    }
}

/// The number of reads that may still follow a step: none after an answer,
/// one more than the tries left after a retry.
pub open spec fn reads_left(step: StepView) -> nat {
    match step {
        StepView::Retry(left) => (left + 1) as nat,
        _ => 0,
    }
}

/// After a first read that failed for a passing reason, the file is read
/// again at most `NUMBER_OF_RETRIES` times.
pub proof fn law_retries_are_bounded()
    ensures
        reads_left(step_after_first_read(ReadOutcome::Transient)) == NUMBER_OF_RETRIES,
{
}

/// Each retry that fails leaves one read fewer.
pub proof fn law_retry_counts_down(outcome: ReadOutcome, left: u32)
    requires
        !(outcome is Content),
    ensures
        reads_left(step_after_retry(outcome, left)) == left,
{
}

/// The body of the answer for a file that was not found: the page that was
/// read for it, or a plain sentence where there is no such page.
pub open spec fn not_found_body_of(page: Option<Seq<u8>>) -> Seq<u8> {
    match page {
        Some(content) => content,
        None => vstd::utf8::encode_utf8("Error 404 file not found!"@),
    }
}

/// The body of the answer for a file that was not found.
pub fn not_found_body(page: Option<Vec<u8>>) -> (body: Vec<u8>)
    ensures
        body@ == not_found_body_of(
            match page {
                Some(content) => Some(content@),
                None => None,
            },
        ),
{
    match page {
        Some(content) => content,
        None => vstd::slice::slice_to_vec("Error 404 file not found!".as_bytes()),
    }
}

} // verus!
