//! The handlers of the single routes, and the two capabilities through
//! which they reach stored files.

use crate::decimal::{parse_usize, parsed_usize};
use crate::entries::value_of;
use crate::request::{HTTPRequest, RequestModel};
use crate::response::{bare, consistent, content, lemma_outcomes_consistent, HTTPResponse, ResponseModel};
use crate::strings::{after_prefix, chars_of, starts_with, string_of};
use vstd::prelude::*;
use vstd::slice::slice_subrange;

verus! {

#[verifier::external_type_specification]
#[verifier::external_body]
pub struct ExIoError(std::io::Error);

/// The capability to read a file by its path.
pub trait FileReading {
    /// What a reader says of its own reads: that a read of `path`, made when
    /// the reader was `self`, can end with `outcome` (the text of the file, or
    /// `None` for a failure) and leave the reader as `after`. A reader that
    /// says nothing keeps the default, which admits every outcome.
    open spec fn reads(&self, path: Seq<char>, outcome: Option<Seq<char>>, after: &Self) -> bool {
        true
    }

    /// Reads the file at `path` as text.
    fn read_to_string(&mut self, path: &str) -> (result: Result<String, std::io::Error>)
        ensures
            old(self).reads(path@, read_outcome(result), final(self)),
    ;
}

/// The capability to write a file by its path.
pub trait FileWriting {
    /// What a writer says of its own writes: that a write of `bytes` to
    /// `path`, made when the writer was `self`, can end well or not (`done`)
    /// and leave the writer as `after`. A writer that says nothing keeps the
    /// default, which admits every outcome.
    open spec fn writes(&self, path: Seq<char>, bytes: Seq<u8>, done: bool, after: &Self) -> bool {
        true
    }

    /// Writes `bytes` to the file at `path`.
    fn write_bytes_to_file(&mut self, path: &str, bytes: &[u8]) -> (result: Result<
        (),
        std::io::Error,
    >)
        ensures
            old(self).writes(path@, bytes@, result is Ok, final(self)),
    ;
}

/// What a read came to: the text, or `None` for any failure.
pub open spec fn read_outcome(result: Result<String, std::io::Error>) -> Option<Seq<char>> {
    match result {
        Ok(text) => Some(text@),
        Err(_) => None,
    }
}

/// The name of the file that a path under `/files/` asks for.
pub open spec fn file_name(path: Seq<char>) -> Seq<char> {
    after_prefix(path, "/files/"@)
}

/// Where the file `name` lies under the directory `serve_dir`.
pub open spec fn file_target(serve_dir: Seq<char>, name: Seq<char>) -> Seq<char> {
    serve_dir + "/"@ + name
}

/// The answer to `GET /user-agent`: the value of `User-Agent` as plain
/// text, or `400` where the request has no such header.
pub open spec fn agent_response(headers: Seq<(Seq<char>, Seq<char>)>) -> ResponseModel {
    match value_of(headers, "User-Agent"@) {
        Some(agent) => content("text/plain"@, agent),
        None => bare(400, "Bad Request"@),
    }
}

/// The answer to `GET /echo/..`: what follows the prefix, as plain text.
pub open spec fn echo_response(path: Seq<char>) -> ResponseModel {
    content("text/plain"@, after_prefix(path, "/echo/"@))
}

/// The answer to the read of a file: its contents, or `404` for any failure.
pub open spec fn read_response(outcome: Option<Seq<char>>) -> ResponseModel {
    match outcome {
        Some(contents) => content("application/octet-stream"@, contents),
        None => bare(404, "Not Found"@),
    }
}

/// The answer to the write of a file: `201`, or `404` for any failure.
pub open spec fn write_response(done: bool) -> ResponseModel {
    if done {
        bare(201, "Created"@)
    } else {
        bare(404, "Not Found"@)
    }
}

/// The bytes that a request asks to store: the first `Content-Length` bytes
/// of its body. `None` where the request has no body, no `Content-Length`,
/// one that is no number, or one that is larger than the body.
pub open spec fn upload_of(request: RequestModel) -> Option<Seq<u8>> {
    match (request.body, value_of(request.headers, "Content-Length"@)) {
        (Some(body), Some(length)) => match parsed_usize(length) {
            Some(count) => if count <= body.len() {
                Some(body.take(count as int))
            } else {
                None
            },
            None => None,
        },
        _ => None,
    }
}

/// How `GET` on a path under `/files/` is answered: `400` for an empty
/// name, without a read; else by what one read of the file under
/// `serve_dir` came to.
pub open spec fn served_file<R: FileReading>(
    path: Seq<char>,
    serve_dir: Seq<char>,
    before: &R,
    after: &R,
    response: ResponseModel,
) -> bool {
    let name = file_name(path);
    if name.len() == 0 {
        response == bare(400, "Bad Request"@) && *after == *before
    } else {
        exists|outcome: Option<Seq<char>>| #[trigger]
            before.reads(file_target(serve_dir, name), outcome, after) && response
                == read_response(outcome)
    }
}

/// How `POST` on a path under `/files/` is answered: `400` for an empty
/// name or a request that gives nothing to store, without a write; else by
/// what one write of the upload to the file under `serve_dir` came to.
pub open spec fn stored_file<W: FileWriting>(
    request: RequestModel,
    serve_dir: Seq<char>,
    before: &W,
    after: &W,
    response: ResponseModel,
) -> bool {
    let name = file_name(request.path);
    if name.len() == 0 || upload_of(request) is None {
        response == bare(400, "Bad Request"@) && *after == *before
    } else {
        let target = file_target(serve_dir, name);
        let upload = upload_of(request)->Some_0;
        ||| before.writes(target, upload, true, after) && response == write_response(true)
        ||| before.writes(target, upload, false, after) && response == write_response(false)
    }
}

/// What follows `prefix` in `path`; all of `path` where it does not begin with `prefix`.
pub fn strip_prefix(path: &str, prefix: &str) -> (rest: String)
    ensures
        rest@ == after_prefix(path@, prefix@),
{
    let chars = chars_of(path);
    let start = chars_of(prefix);
    if starts_with(chars.as_slice(), start.as_slice()) {
        assert(path@.subrange(prefix@.len() as int, path@.len() as int) =~= path@.skip(
            prefix@.len() as int,
        ));
        string_of(chars.as_slice(), start.len(), chars.len())
    } else {
        assert(path@.subrange(0, path@.len() as int) =~= path@);
        string_of(chars.as_slice(), 0, chars.len())
    }
}

/// The path of the file `name` under the directory `serve_dir`.
pub fn join_path(serve_dir: &str, name: &str) -> (target: String)
    ensures
        target@ == file_target(serve_dir@, name@),
{
    let mut target = serve_dir.to_owned();
    target.append("/");
    target.append(name);
    target
}

/// Answers the read of a file.
pub fn file_read_response(result: Result<String, std::io::Error>) -> (response: HTTPResponse)
    ensures
        response@ == read_response(read_outcome(result)),
        consistent(response@),
{
    proof {
        lemma_outcomes_consistent(404, "Not Found"@, Seq::empty(), Seq::empty());
    }
    match result {
        Ok(contents) => HTTPResponse::with_content("application/octet-stream", contents),
        Err(_) => HTTPResponse::not_found(),
    }
}

/// Answers the write of a file.
pub fn file_write_response(result: Result<(), std::io::Error>) -> (response: HTTPResponse)
    ensures
        response@ == write_response(result is Ok),
        consistent(response@),
{
    proof {
        lemma_outcomes_consistent(404, "Not Found"@, Seq::empty(), Seq::empty());
        lemma_outcomes_consistent(201, "Created"@, Seq::empty(), Seq::empty());
    }
    match result {
        Ok(_) => HTTPResponse::created(),
        Err(_) => HTTPResponse::not_found(),
    }
}

/// The bytes that `request` asks to store.
pub fn upload(request: &HTTPRequest) -> (bytes: Option<&[u8]>)
    ensures
        match bytes {
            Some(slice) => upload_of(request@) == Some(slice@),
            None => upload_of(request@) is None,
        },
{
    let body = match &request.body {
        Some(body) => body,
        None => {
            return None;
        },
    };
    let length = match request.headers.get("Content-Length") {
        Some(length) => length,
        None => {
            return None;
        },
    };
    let digits = chars_of(length.as_str());
    match parse_usize(digits.as_slice()) {
        Some(count) => {
            if count <= body.len() {
                assert(body@.subrange(0, count as int) =~= body@.take(count as int));
                Some(slice_subrange(body.as_slice(), 0, count))
            } else {
                None
            }
        },
        None => None,
    }
}

/// Answers `GET` on a path under `/files/` with the file that it names.
pub fn handle_file_get_request<R: FileReading>(
    request: &HTTPRequest,
    serve_dir: &str,
    file_reader: &mut R,
) -> (response: HTTPResponse)
    ensures
        served_file(request@.path, serve_dir@, old(file_reader), final(file_reader), response@),
        consistent(response@),
{
    let requested_file = strip_prefix(request.path.as_str(), "/files/");
    if requested_file.as_str().is_empty() {
        proof {
            lemma_outcomes_consistent(400, "Bad Request"@, Seq::empty(), Seq::empty());
        }
        return HTTPResponse::bad_request();
    }
    let target = join_path(serve_dir, requested_file.as_str());
    let result = file_reader.read_to_string(target.as_str());
    file_read_response(result)
}

/// Answers `POST` on a path under `/files/` by storing the upload in the
/// file that the path names.
pub fn handle_file_post_request<W: FileWriting>(
    request: &HTTPRequest,
    serve_dir: &str,
    file_writer: &mut W,
) -> (response: HTTPResponse)
    ensures
        stored_file(request@, serve_dir@, old(file_writer), final(file_writer), response@),
        consistent(response@),
{
    proof {
        lemma_outcomes_consistent(400, "Bad Request"@, Seq::empty(), Seq::empty());
    }
    let requested_file = strip_prefix(request.path.as_str(), "/files/");
    if requested_file.as_str().is_empty() {
        return HTTPResponse::bad_request();
    }
    let contents = match upload(request) {
        Some(contents) => contents,
        None => {
            return HTTPResponse::bad_request();
        },
    };
    let target = join_path(serve_dir, requested_file.as_str());
    let result = file_writer.write_bytes_to_file(target.as_str(), contents);
    file_write_response(result)
}

/// Answers `GET /user-agent` with the value of the `User-Agent` header.
pub fn handle_user_agent_request(request: &HTTPRequest) -> (response: HTTPResponse)
    ensures
        response@ == agent_response(request@.headers),
        consistent(response@),
{
    match request.headers.get("User-Agent") {
        Some(user_agent) => HTTPResponse::with_content("text/plain", user_agent.clone()),
        None => {
            proof {
                lemma_outcomes_consistent(400, "Bad Request"@, Seq::empty(), Seq::empty());
            }
            HTTPResponse::bad_request()
        },
    }
}

/// Answers `GET /echo/..` with what follows the prefix.
pub fn handle_echo_request(request: &HTTPRequest) -> (response: HTTPResponse)
    ensures
        response@ == echo_response(request@.path),
        consistent(response@),
{
    let echo = strip_prefix(request.path.as_str(), "/echo/");
    HTTPResponse::with_content("text/plain", echo)
}

} // verus!
