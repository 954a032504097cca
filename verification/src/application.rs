//! The router: from a request to the handler of its route, and from the
//! text that came over the wire to the text that goes back.

use crate::handlers::{
    agent_response, echo_response, handle_echo_request, handle_file_get_request,
    handle_file_post_request, handle_user_agent_request, served_file, stored_file, FileReading,
    FileWriting,
};
use crate::request::{parsed, HTTPMethod, HTTPRequest, RequestModel};
use crate::response::{bare, consistent, lemma_outcomes_consistent, wire, HTTPResponse, ResponseModel};
use crate::strings::{chars_of, has_prefix, starts_with, str_eq};
use vstd::prelude::*;

verus! {

/// The routes of the server.
#[derive(PartialEq, Eq, Debug, Clone, Copy, Structural)]
pub enum Route {
    /// A method that the server does not implement.
    NotImplemented,
    /// `GET /`
    Root,
    /// `GET /user-agent`
    UserAgent,
    /// `GET /echo/..`
    Echo,
    /// `GET /files/..`
    FileGet,
    /// `POST /files/..`
    FilePost,
    /// Any other path.
    NotFound,
}

/// The route of a method and a path. The table is read from the top: the
/// first line that fits decides.
pub open spec fn route_of(method: HTTPMethod, path: Seq<char>) -> Route {
    if method != HTTPMethod::Get && method != HTTPMethod::Post {
        Route::NotImplemented
    } else if method == HTTPMethod::Get && path == "/"@ {
        Route::Root
    } else if method == HTTPMethod::Get && path == "/user-agent"@ {
        Route::UserAgent
    } else if method == HTTPMethod::Get && has_prefix(path, "/echo/"@) {
        Route::Echo
    } else if method == HTTPMethod::Get && has_prefix(path, "/files/"@) {
        Route::FileGet
    } else if method == HTTPMethod::Post && has_prefix(path, "/files/"@) {
        Route::FilePost
    } else {
        Route::NotFound
    }
}

/// How a server that stores no files answers: it implements `GET` alone,
/// and knows no path under `/files/`.
pub open spec fn static_response(request: RequestModel) -> ResponseModel {
    if request.method != HTTPMethod::Get {
        bare(501, "Not Implemented"@)
    } else {
        match route_of(request.method, request.path) {
            Route::Root => bare(200, "OK"@),
            Route::UserAgent => agent_response(request.headers),
            Route::Echo => echo_response(request.path),
            _ => bare(404, "Not Found"@),
        }
    }
}

/// How a request is answered, and what becomes of the reader and the
/// writer: a route that needs no file leaves both as they were, `GET` of a
/// file leaves the writer, `POST` of a file the reader.
pub open spec fn routed<R: FileReading, W: FileWriting>(
    request: RequestModel,
    serve_dir: Seq<char>,
    reader: &R,
    reader_after: &R,
    writer: &W,
    writer_after: &W,
    response: ResponseModel,
) -> bool {
    match route_of(request.method, request.path) {
        Route::FileGet => served_file(request.path, serve_dir, reader, reader_after, response)
            && *writer_after == *writer,
        Route::FilePost => stored_file(request, serve_dir, writer, writer_after, response)
            && *reader_after == *reader,
        route => *reader_after == *reader && *writer_after == *writer && response == match route {
            Route::NotImplemented => bare(501, "Not Implemented"@),
            Route::Root => bare(200, "OK"@),
            Route::UserAgent => agent_response(request.headers),
            Route::Echo => echo_response(request.path),
            _ => bare(404, "Not Found"@),
        },
    }
}

/// How the text of a request is answered: a text that is no request with
/// `400`, a request as its route says.
pub open spec fn answered<R: FileReading, W: FileWriting>(
    raw: Seq<char>,
    serve_dir: Seq<char>,
    reader: &R,
    reader_after: &R,
    writer: &W,
    writer_after: &W,
    response: ResponseModel,
) -> bool {
    match parsed(raw) {
        Ok(request) => routed(request, serve_dir, reader, reader_after, writer, writer_after, response),
        Err(_) => response == bare(400, "Bad Request"@) && *reader_after == *reader && *writer_after
            == *writer,
    }
}

/// Finds the route of a method and a path.
pub fn route(method: HTTPMethod, path: &str) -> (found: Route)
    ensures
        found == route_of(method, path@),
{
    let get = match method {
        HTTPMethod::Get => true,
        HTTPMethod::Post => false,
        _ => {
            return Route::NotImplemented;
        },
    };
    let chars = chars_of(path);
    if get && str_eq(path, "/") {
        Route::Root
    } else if get && str_eq(path, "/user-agent") {
        Route::UserAgent
    } else if get && starts_with(chars.as_slice(), chars_of("/echo/").as_slice()) {
        Route::Echo
    } else if starts_with(chars.as_slice(), chars_of("/files/").as_slice()) {
        if get {
            Route::FileGet
        } else {
            Route::FilePost
        }
    } else {
        Route::NotFound
    }
}

/// Answers a request without access to files.
pub fn handle_request(request: HTTPRequest) -> (response: HTTPResponse)
    ensures
        response@ == static_response(request@),
        consistent(response@),
{
    proof {
        lemma_outcomes_consistent(501, "Not Implemented"@, Seq::empty(), Seq::empty());
        lemma_outcomes_consistent(200, "OK"@, Seq::empty(), Seq::empty());
        lemma_outcomes_consistent(404, "Not Found"@, Seq::empty(), Seq::empty());
    }
    match request.method {
        HTTPMethod::Get => {},
        _ => {
            return HTTPResponse::not_implemented();
        },
    }
    match route(request.method, request.path.as_str()) {
        Route::Root => HTTPResponse::ok(),
        Route::UserAgent => handle_user_agent_request(&request),
        Route::Echo => handle_echo_request(&request),
        _ => HTTPResponse::not_found(),
    }
}

/// Answers a request, with the files under `serve_dir` reached through
/// `reader` and `writer`.
pub fn dispatch<R: FileReading, W: FileWriting>(
    request: &HTTPRequest,
    serve_dir: &str,
    reader: &mut R,
    writer: &mut W,
) -> (response: HTTPResponse)
    ensures
        routed(
            request@,
            serve_dir@,
            old(reader),
            final(reader),
            old(writer),
            final(writer),
            response@,
        ),
        consistent(response@),
{
    proof {
        lemma_outcomes_consistent(501, "Not Implemented"@, Seq::empty(), Seq::empty());
        lemma_outcomes_consistent(200, "OK"@, Seq::empty(), Seq::empty());
        lemma_outcomes_consistent(404, "Not Found"@, Seq::empty(), Seq::empty());
    }
    match route(request.method, request.path.as_str()) {
        Route::NotImplemented => HTTPResponse::not_implemented(),
        Route::Root => HTTPResponse::ok(),
        Route::UserAgent => handle_user_agent_request(request),
        Route::Echo => handle_echo_request(request),
        Route::FileGet => handle_file_get_request(request, serve_dir, reader),
        Route::FilePost => handle_file_post_request(request, serve_dir, writer),
        Route::NotFound => HTTPResponse::not_found(),
    }
}

/// Answers the text of a request with the text of the response: a text
/// that is no request gets `400 Bad Request`.
pub fn respond<R: FileReading, W: FileWriting>(
    raw: &str,
    serve_dir: &str,
    reader: &mut R,
    writer: &mut W,
) -> (text: String)
    ensures
        exists|response: ResponseModel|
            text@ == wire(response) && consistent(response) && #[trigger] answered(
                raw@,
                serve_dir@,
                old(reader),
                final(reader),
                old(writer),
                final(writer),
                response,
            ),
{
    let response = match HTTPRequest::parse(raw) {
        Ok(request) => dispatch(&request, serve_dir, reader, writer),
        Err(_) => {
            proof {
                lemma_outcomes_consistent(400, "Bad Request"@, Seq::empty(), Seq::empty());
            }
            HTTPResponse::bad_request()
        },
    };
    let text = response.to_wire();
    assert(answered(
        raw@,
        serve_dir@,
        old(reader),
        final(reader),
        old(writer),
        final(writer),
        response@,
    ));
    text
}

/// The server's configuration.
pub struct Application {
    /// The directory under which the files of `/files/..` lie.
    pub serve_dir: String,
}

impl Application {
    /// An application that serves the directory `public`.
    pub fn new() -> (application: Application)
        ensures
            application.serve_dir@ == "public"@,
    {
        Application { serve_dir: "public".to_owned() }
    }

    /// Answers a request; see `dispatch`.
    pub fn handle_request<R: FileReading, W: FileWriting>(
        self,
        request: HTTPRequest,
        reader: &mut R,
        writer: &mut W,
    ) -> (response: HTTPResponse)
        ensures
            routed(
                request@,
                self.serve_dir@,
                old(reader),
                final(reader),
                old(writer),
                final(writer),
                response@,
            ),
            consistent(response@),
    {
        dispatch(&request, self.serve_dir.as_str(), reader, writer)
    }
}

} // verus!
