//! The response: its model, the standard outcomes, and its wire format.

use crate::decimal::{decimal, decimal_string};
use crate::entries::{lemma_position, position, value_of};
use crate::headers::Headers;
use crate::strings::{byte_length, join, joined, lemma_occurs_within, occurs, occurs_at, texts};
use vstd::prelude::*;

verus! {

/// An HTTP response.
#[derive(PartialEq, Debug)]
pub struct HTTPResponse {
    pub status_code: u16,
    pub status_text: String,
    pub headers: Headers,
    pub body: String,
}

/// What a response holds, as plain values.
pub struct ResponseModel {
    pub status_code: u16,
    pub status_text: Seq<char>,
    pub headers: Seq<(Seq<char>, Seq<char>)>,
    pub body: Seq<char>,
}

impl View for HTTPResponse {
    type V = ResponseModel;

    open spec fn view(&self) -> ResponseModel {
        ResponseModel {
            status_code: self.status_code,
            status_text: self.status_text@,
            headers: self.headers@,
            body: self.body@,
        }
    }
}

/// A response that is a status and nothing else: no header, empty body.
pub open spec fn bare(status_code: u16, status_text: Seq<char>) -> ResponseModel {
    ResponseModel {
        status_code,
        status_text,
        headers: Seq::<(Seq<char>, Seq<char>)>::empty(),
        body: Seq::<char>::empty(),
    }
}

/// The response `200 OK` that carries `body`: `Content-Type` is the given
/// type, `Content-Length` the number of bytes of the body, in decimal.
pub open spec fn content(content_type: Seq<char>, body: Seq<char>) -> ResponseModel {
    ResponseModel {
        status_code: 200,
        status_text: "OK"@,
        headers: seq![
            ("Content-Type"@, content_type),
            ("Content-Length"@, decimal(byte_length(body))),
        ],
        body,
    }
}

/// Headers and body agree: a response with a body names its type, and gives
/// the number of bytes of the body as its `Content-Length`.
pub open spec fn consistent(response: ResponseModel) -> bool {
    response.body.len() > 0 ==> {
        &&& value_of(response.headers, "Content-Length"@) == Some(
            decimal(byte_length(response.body)),
        )
        &&& value_of(response.headers, "Content-Type"@) is Some
    }
}

/// The first line of a response on the wire, without its terminator.
pub open spec fn status_line(response: ResponseModel) -> Seq<char> {
    "HTTP/1.1 "@ + decimal(response.status_code as nat) + " "@ + response.status_text
}

/// One header on the wire, without its terminator.
pub open spec fn header_line(entry: (Seq<char>, Seq<char>)) -> Seq<char> {
    entry.0 + ": "@ + entry.1
}

/// The headers on the wire: each one's line and its terminator, in order.
pub open spec fn header_block(headers: Seq<(Seq<char>, Seq<char>)>) -> Seq<char>
    decreases headers.len(),
{
    if headers.len() == 0 {
        Seq::<char>::empty()
    } else {
        header_block(headers.drop_last()) + header_line(headers.last()) + "\r\n"@
    }
}

/// A response on the wire: status line, headers, an empty line, body.
pub open spec fn wire(response: ResponseModel) -> Seq<char> {
    status_line(response) + "\r\n"@ + header_block(response.headers) + "\r\n"@ + response.body
}

/// A bare response and a response made by `content` are consistent.
pub proof fn lemma_outcomes_consistent(
    status_code: u16,
    status_text: Seq<char>,
    content_type: Seq<char>,
    body: Seq<char>,
)
    ensures
        consistent(bare(status_code, status_text)),
        consistent(content(content_type, body)),
{
    reveal_strlit("Content-Type");
    reveal_strlit("Content-Length");
    let headers = content(content_type, body).headers;
    assert("Content-Type"@.len() != "Content-Length"@.len());
    assert(headers[0].0 == "Content-Type"@);
    assert(headers[1].0 == "Content-Length"@);
    reveal_with_fuel(position, 3);
}

/// Every header stands on the wire as its line and the line's terminator.
pub proof fn lemma_wire_holds_header(response: ResponseModel, index: int)
    requires
        0 <= index < response.headers.len(),
    ensures
        occurs(wire(response), header_line(response.headers[index]) + "\r\n"@),
{
    lemma_block_holds_header(response.headers, index);
    lemma_occurs_within(
        status_line(response) + "\r\n"@,
        header_block(response.headers),
        "\r\n"@ + response.body,
        header_line(response.headers[index]) + "\r\n"@,
    );
    assert(wire(response) =~= (status_line(response) + "\r\n"@) + header_block(response.headers)
        + ("\r\n"@ + response.body));
}

/// Every header stands in the block of headers.
pub proof fn lemma_block_holds_header(headers: Seq<(Seq<char>, Seq<char>)>, index: int)
    requires
        0 <= index < headers.len(),
    ensures
        occurs(header_block(headers), header_line(headers[index]) + "\r\n"@),
    decreases headers.len(),
{
    let needle = header_line(headers[index]) + "\r\n"@;
    let front = header_block(headers.drop_last());
    let last = header_line(headers.last()) + "\r\n"@;
    assert(header_block(headers) =~= front + last);
    if index == headers.len() - 1 {
        assert((front + last).subrange(front.len() as int, (front.len() + needle.len()) as int) =~= needle);
        assert(occurs_at(front + last, needle, front.len() as int));
    } else {
        lemma_block_holds_header(headers.drop_last(), index);
        lemma_occurs_within(Seq::<char>::empty(), front, last, needle);
        assert(Seq::<char>::empty() + front + last =~= front + last);
    }
}

/// On the wire a consistent response with a body carries a `Content-Length`
/// line that gives the number of bytes of that body.
pub proof fn lemma_wire_states_length(response: ResponseModel)
    requires
        consistent(response),
        response.body.len() > 0,
    ensures
        occurs(
            wire(response),
            "Content-Length"@ + ": "@ + decimal(byte_length(response.body)) + "\r\n"@,
        ),
{
    lemma_position(response.headers, "Content-Length"@, 0);
    let index = position(response.headers, "Content-Length"@, 0);
    lemma_wire_holds_header(response, index);
}

impl HTTPResponse {
    /// `200 OK`, with no header and an empty body.
    pub fn ok() -> (response: HTTPResponse)
        ensures
            response@ == bare(200, "OK"@),
    {
        HTTPResponse::status(200, "OK")
    }

    /// `201 Created`, with no header and an empty body.
    pub fn created() -> (response: HTTPResponse)
        ensures
            response@ == bare(201, "Created"@),
    {
        HTTPResponse::status(201, "Created")
    }

    /// `400 Bad Request`, with no header and an empty body.
    pub fn bad_request() -> (response: HTTPResponse)
        ensures
            response@ == bare(400, "Bad Request"@),
    {
        HTTPResponse::status(400, "Bad Request")
    }

    /// `404 Not Found`, with no header and an empty body.
    pub fn not_found() -> (response: HTTPResponse)
        ensures
            response@ == bare(404, "Not Found"@),
    {
        HTTPResponse::status(404, "Not Found")
    }

    /// `501 Not Implemented`, with no header and an empty body.
    pub fn not_implemented() -> (response: HTTPResponse)
        ensures
            response@ == bare(501, "Not Implemented"@),
    {
        HTTPResponse::status(501, "Not Implemented")
    }

    /// The response with the given status, no header and an empty body.
    pub fn status(status_code: u16, status_text: &str) -> (response: HTTPResponse)
        ensures
            response@ == bare(status_code, status_text@),
    {
        HTTPResponse {
            status_code,
            status_text: status_text.to_owned(),
            headers: Headers::new(),
            body: String::new(),
        }
    }

    /// `200 OK` with `body` as its body, of the given content type.
    pub fn with_content(content_type: &str, body: String) -> (response: HTTPResponse)
        ensures
            response@ == content(content_type@, body@),
            consistent(response@),
    {
        let length = decimal_string(body.as_str().as_bytes().len());
        let mut headers = Headers::new();
        headers.insert("Content-Type".to_owned(), content_type.to_owned());
        headers.insert("Content-Length".to_owned(), length);
        proof {
            reveal_strlit("Content-Type");
            reveal_strlit("Content-Length");
            assert("Content-Type"@.len() != "Content-Length"@.len());
            reveal_with_fuel(position, 3);
            lemma_outcomes_consistent(200, "OK"@, content_type@, body@);
        }
        let response = HTTPResponse { status_code: 200, status_text: "OK".to_owned(), headers, body };
        assert(response@.headers =~= content(content_type@, body@).headers);
        response
    }

    /// The response as it goes over the wire.
    pub fn to_wire(&self) -> (text: String)
        ensures
            text@ == wire(self@),
    {
        let mut first = "HTTP/1.1 ".to_owned();
        first.append(decimal_string(self.status_code as usize).as_str());
        first.append(" ");
        first.append(self.status_text.as_str());
        let mut lines: Vec<String> = Vec::new();
        lines.push(first);
        let ghost crlf = "\r\n"@;
        let ghost head = status_line(self@) + crlf;
        let ghost headers = self.headers@;
        assert(texts(lines@) =~= seq![status_line(self@)]);
        assert(headers.take(0) =~= Seq::<(Seq<char>, Seq<char>)>::empty());
        let mut i: usize = 0;
        let count = self.headers.len();
        while i < count
            invariant
                i <= count == headers.len(),
                headers == self.headers@,
                crlf == "\r\n"@,
                head == status_line(self@) + crlf,
                lines@.len() == i + 1,
                joined(texts(lines@), crlf) + crlf == head + header_block(headers.take(i as int)),
            decreases count - i,
        {
            let mut line = self.headers.key_at(i).clone();
            line.append(": ");
            line.append(self.headers.value_at(i).as_str());
            let ghost before = texts(lines@);
            lines.push(line);
            proof {
                let entry = headers[i as int];
                assert(line@ == header_line(entry));
                assert(texts(lines@) =~= before.push(line@));
                assert(texts(lines@).drop_last() =~= before);
                assert(headers.take(i + 1).drop_last() =~= headers.take(i as int));
                assert(headers.take(i + 1).last() == entry);
                assert(joined(texts(lines@), crlf) + crlf =~= (joined(before, crlf) + crlf)
                    + header_line(entry) + crlf);
                assert(head + header_block(headers.take(i + 1)) =~= (head + header_block(
                    headers.take(i as int),
                )) + header_line(entry) + crlf);
            }
            i += 1;
        }
        let ghost before_empty = texts(lines@);
        lines.push(String::new());
        let ghost before_body = texts(lines@);
        lines.push(self.body.clone());
        proof {
            assert(headers.take(i as int) =~= headers);
            assert(before_body =~= before_empty.push(Seq::<char>::empty()));
            assert(before_body.drop_last() =~= before_empty);
            assert(texts(lines@) =~= before_body.push(self.body@));
            assert(texts(lines@).drop_last() =~= before_body);
            assert(joined(before_body, crlf) =~= joined(before_empty, crlf) + crlf);
            assert(joined(texts(lines@), crlf) =~= joined(before_body, crlf) + crlf + self.body@);
            assert(wire(self@) =~= head + header_block(headers) + crlf + self.body@);
        }
        join(&lines, "\r\n")
    }
}

} // verus!
