//! What holds of every answer of the router.

use crate::application::routed;
use crate::decimal::{decimal, parsed_usize};
use crate::entries::{lemma_with_entry_value, value_of};
use crate::handlers::{
    file_name, file_target, served_file, stored_file, upload_of, FileReading, FileWriting,
};
use crate::request::{HTTPMethod, RequestModel};
use crate::response::{
    bare, consistent, content, lemma_outcomes_consistent, lemma_wire_states_length, wire,
    ResponseModel,
};
use crate::store::MemoryStore;
use crate::strings::{byte_length, has_prefix, occurs};
use vstd::prelude::*;
use vstd::utf8::{decode_utf8, decode_utf8_encode_utf8, encode_utf8, valid_utf8};

verus! {

/// Every answer of the router is consistent; one with a body carries, on
/// the wire, a `Content-Length` line with the number of bytes of that body.
pub proof fn lemma_answer_states_length<R: FileReading, W: FileWriting>(
    request: RequestModel,
    serve_dir: Seq<char>,
    reader: &R,
    reader_after: &R,
    writer: &W,
    writer_after: &W,
    response: ResponseModel,
)
    requires
        routed(request, serve_dir, reader, reader_after, writer, writer_after, response),
    ensures
        consistent(response),
        response.body.len() > 0 ==> value_of(response.headers, "Content-Length"@) == Some(
            decimal(byte_length(response.body)),
        ),
        response.body.len() > 0 ==> occurs(
            wire(response),
            "Content-Length"@ + ": "@ + decimal(byte_length(response.body)) + "\r\n"@,
        ),
{
    assert forall|code: u16, text: Seq<char>, kind: Seq<char>, body: Seq<char>|
        consistent(#[trigger] bare(code, text)) && consistent(#[trigger] content(kind, body)) by {
        lemma_outcomes_consistent(code, text, kind, body);
    }
    if response.body.len() > 0 {
        lemma_wire_states_length(response);
    }
}

/// `GET /echo/X` is answered `200 OK` with `X` as the body, whatever `X` is.
pub proof fn lemma_echo_gives_back<R: FileReading, W: FileWriting>(
    request: RequestModel,
    text: Seq<char>,
    serve_dir: Seq<char>,
    reader: &R,
    reader_after: &R,
    writer: &W,
    writer_after: &W,
    response: ResponseModel,
)
    requires
        request.method == HTTPMethod::Get,
        request.path == "/echo/"@ + text,
        routed(request, serve_dir, reader, reader_after, writer, writer_after, response),
    ensures
        response == content("text/plain"@, text),
        response.status_code == 200,
        response.body == text,
{
    reveal_strlit("/");
    reveal_strlit("/user-agent");
    reveal_strlit("/echo/");
    let prefix = "/echo/"@;
    assert(request.path.subrange(0, prefix.len() as int) =~= prefix);
    assert(request.path.skip(prefix.len() as int) =~= text);
    assert(request.path[1] == 'e');
    assert("/user-agent"@[1] == 'u');
}

/// A path that is none of the routes' is answered `404 Not Found`, and no
/// file is touched.
pub proof fn lemma_unknown_path_is_not_found<R: FileReading, W: FileWriting>(
    request: RequestModel,
    serve_dir: Seq<char>,
    reader: &R,
    reader_after: &R,
    writer: &W,
    writer_after: &W,
    response: ResponseModel,
)
    requires
        request.method == HTTPMethod::Get || request.method == HTTPMethod::Post,
        !has_prefix(request.path, "/files/"@),
        request.method == HTTPMethod::Get ==> request.path != "/"@ && request.path
            != "/user-agent"@ && !has_prefix(request.path, "/echo/"@),
        routed(request, serve_dir, reader, reader_after, writer, writer_after, response),
    ensures
        response == bare(404, "Not Found"@),
        *reader_after == *reader,
        *writer_after == *writer,
{
}

/// A method other than `GET` and `POST` is answered `501 Not Implemented`,
/// whatever the path, and no file is touched.
pub proof fn lemma_other_method_is_not_implemented<R: FileReading, W: FileWriting>(
    request: RequestModel,
    serve_dir: Seq<char>,
    reader: &R,
    reader_after: &R,
    writer: &W,
    writer_after: &W,
    response: ResponseModel,
)
    requires
        request.method != HTTPMethod::Get,
        request.method != HTTPMethod::Post,
        routed(request, serve_dir, reader, reader_after, writer, writer_after, response),
    ensures
        response == bare(501, "Not Implemented"@),
        *reader_after == *reader,
        *writer_after == *writer,
{
}

/// `GET /user-agent` without a `User-Agent` header is answered `400 Bad Request`.
pub proof fn lemma_missing_agent_is_bad_request<R: FileReading, W: FileWriting>(
    request: RequestModel,
    serve_dir: Seq<char>,
    reader: &R,
    reader_after: &R,
    writer: &W,
    writer_after: &W,
    response: ResponseModel,
)
    requires
        request.method == HTTPMethod::Get,
        request.path == "/user-agent"@,
        value_of(request.headers, "User-Agent"@) is None,
        routed(request, serve_dir, reader, reader_after, writer, writer_after, response),
    ensures
        response == bare(400, "Bad Request"@),
{
    reveal_strlit("/");
    reveal_strlit("/user-agent");
    assert("/user-agent"@.len() != "/"@.len());
}

/// `POST` under `/files/` without a `Content-Length`, or with one that is no
/// number, is answered `400 Bad Request`, and nothing is written.
pub proof fn lemma_missing_length_is_bad_request<R: FileReading, W: FileWriting>(
    request: RequestModel,
    serve_dir: Seq<char>,
    reader: &R,
    reader_after: &R,
    writer: &W,
    writer_after: &W,
    response: ResponseModel,
)
    requires
        request.method == HTTPMethod::Post,
        has_prefix(request.path, "/files/"@),
        match value_of(request.headers, "Content-Length"@) {
            Some(length) => parsed_usize(length) is None,
            None => true,
        },
        routed(request, serve_dir, reader, reader_after, writer, writer_after, response),
    ensures
        response == bare(400, "Bad Request"@),
        *reader_after == *reader,
        *writer_after == *writer,
{
}

/// What was written to a store is served from it: after a write of `bytes`
/// that are UTF-8 to the file `name` under `serve_dir`, `GET /files/name` is
/// answered `200 OK` with a body whose bytes are `bytes`.
pub proof fn lemma_written_file_is_served(
    store: MemoryStore,
    written: MemoryStore,
    read: MemoryStore,
    serve_dir: Seq<char>,
    name: Seq<char>,
    bytes: Seq<u8>,
    done: bool,
    response: ResponseModel,
)
    requires
        name.len() > 0,
        valid_utf8(bytes),
        store.writes(file_target(serve_dir, name), bytes, done, &written),
        served_file("/files/"@ + name, serve_dir, &written, &read, response),
    ensures
        done,
        response == content("application/octet-stream"@, decode_utf8(bytes)),
        response.status_code == 200,
        encode_utf8(response.body) == bytes,
        read == written,
{
    let prefix = "/files/"@;
    let path = prefix + name;
    assert(path.subrange(0, prefix.len() as int) =~= prefix);
    assert(path.skip(prefix.len() as int) =~= name);
    assert(file_name(path) == name);
    lemma_with_entry_value(store@, file_target(serve_dir, name), bytes, file_target(serve_dir, name));
    decode_utf8_encode_utf8(bytes);
}

/// A file that `POST` stored is served by a later `GET` of the same path:
/// the body of the answer is the text of the upload.
pub proof fn lemma_stored_file_is_served(
    store: MemoryStore,
    stored: MemoryStore,
    read: MemoryStore,
    request: RequestModel,
    serve_dir: Seq<char>,
    created: ResponseModel,
    response: ResponseModel,
)
    requires
        file_name(request.path).len() > 0,
        upload_of(request) is Some,
        valid_utf8(upload_of(request)->Some_0),
        stored_file(request, serve_dir, &store, &stored, created),
        served_file(request.path, serve_dir, &stored, &read, response),
    ensures
        created == bare(201, "Created"@),
        response == content("application/octet-stream"@, decode_utf8(upload_of(request)->Some_0)),
        encode_utf8(response.body) == upload_of(request)->Some_0,
{
    let target = file_target(serve_dir, file_name(request.path));
    let upload = upload_of(request)->Some_0;
    lemma_with_entry_value(store@, target, upload, target);
    decode_utf8_encode_utf8(upload);
}

} // verus!
