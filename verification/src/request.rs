//! The request and its parser.

use crate::headers::{headers_step, Headers};
use crate::strings::{chars_of, split_words, str_eq, string_of, texts};
use crate::text::{
    find, find_char, lemma_find_char, lemma_line_bounds, lemma_words_are_solid, line_at, lines,
    lines_from, next_line, read_line, trim_bounds, trimmed, words,
};
use vstd::prelude::*;
use vstd::slice::slice_subrange;
use vstd::utf8::encode_utf8;

verus! {

/// The methods that a request can carry.
#[derive(PartialEq, Eq, Debug, Clone, Copy, Structural)]
pub enum HTTPMethod {
    Get,
    Post,
    Put,
    Delete,
}

/// Why a text is no request.
#[derive(PartialEq, Eq, Debug, Clone, Copy, Structural)]
pub enum ParseFailure {
    /// The start line names a method that is none of `GET`, `POST`, `PUT`, `DELETE`.
    UnsupportedMethod,
    /// There is no start line, or it lacks one of method, path and version,
    /// or its path does not begin with `/`.
    Malformed,
}

/// An HTTP request.
#[derive(PartialEq, Debug)]
pub struct HTTPRequest {
    pub method: HTTPMethod,
    pub path: String,
    pub version: String,
    pub headers: Headers,
    pub body: Option<Vec<u8>>,
}

/// What a request holds, as plain values.
pub struct RequestModel {
    pub method: HTTPMethod,
    pub path: Seq<char>,
    pub version: Seq<char>,
    pub headers: Seq<(Seq<char>, Seq<char>)>,
    pub body: Option<Seq<u8>>,
}

impl View for HTTPRequest {
    type V = RequestModel;

    open spec fn view(&self) -> RequestModel {
        RequestModel {
            method: self.method,
            path: self.path@,
            version: self.version@,
            headers: self.headers@,
            body: match self.body {
                Some(bytes) => Some(bytes@),
                None => None,
            },
        }
    }
}

/// The method that a token of the start line names. Case counts.
pub open spec fn method_of(token: Seq<char>) -> Option<HTTPMethod> {
    if token == "GET"@ {
        Some(HTTPMethod::Get)
    } else if token == "POST"@ {
        Some(HTTPMethod::Post)
    } else if token == "PUT"@ {
        Some(HTTPMethod::Put)
    } else if token == "DELETE"@ {
        Some(HTTPMethod::Delete)
    } else {
        None
    }
}

/// Method, path and version of a start line: its first three words. A line
/// with fewer words is malformed, and so is one whose path does not begin
/// with `/`; a first word that names no method comes before both.
pub open spec fn start_line_of(line: Seq<char>) -> Result<
    (HTTPMethod, Seq<char>, Seq<char>),
    ParseFailure,
> {
    let tokens = words(line);
    if tokens.len() == 0 {
        Err(ParseFailure::Malformed)
    } else if method_of(tokens[0]) is None {
        Err(ParseFailure::UnsupportedMethod)
    } else if tokens.len() < 3 || tokens[1][0] != '/' {
        Err(ParseFailure::Malformed)
    } else {
        Ok((method_of(tokens[0])->Some_0, tokens[1], tokens[2]))
    }
}

/// Name and value of a header line: what stands before and after its first
/// colon, each without the whitespace around it. `None` for a line without a colon.
pub open spec fn header_of(line: Seq<char>) -> Option<(Seq<char>, Seq<char>)> {
    let colon = find_char(line, ':', 0);
    if colon < line.len() {
        Some((trimmed(line.subrange(0, colon)), trimmed(line.subrange(colon + 1, line.len() as int))))
    } else {
        None
    }
}

/// The headers that a list of lines gives: each line with a colon sets its
/// name to its value, a later line over an earlier one; the others are passed over.
pub open spec fn headers_of(lines: Seq<Seq<char>>) -> Seq<(Seq<char>, Seq<char>)>
    decreases lines.len(),
{
    if lines.len() == 0 {
        Seq::<(Seq<char>, Seq<char>)>::empty()
    } else {
        headers_step(headers_of(lines.drop_last()), header_of(lines.last()))
    }
}

/// The lines of `s` from `from` up to the first empty line, or to the end.
pub open spec fn header_lines_from(s: Seq<char>, from: int) -> Seq<Seq<char>>
    decreases s.len() - from,
    via header_lines_from_decreases
{
    if from < 0 || from >= s.len() || line_at(s, from).len() == 0 {
        Seq::<Seq<char>>::empty()
    } else {
        seq![line_at(s, from)] + header_lines_from(s, next_line(s, from))
    }
}

#[via_fn]
proof fn header_lines_from_decreases(s: Seq<char>, from: int) {
    if 0 <= from < s.len() {
        lemma_find_char(s, '\n', from);
    }
}

/// Where the body starts: after the first empty line at or after `from`.
/// `None` where no line is empty.
pub open spec fn body_start_from(s: Seq<char>, from: int) -> Option<int>
    decreases s.len() - from,
    via body_start_from_decreases
{
    if from < 0 || from >= s.len() {
        None
    } else if line_at(s, from).len() == 0 {
        Some(next_line(s, from))
    } else {
        body_start_from(s, next_line(s, from))
    }
}

#[via_fn]
proof fn body_start_from_decreases(s: Seq<char>, from: int) {
    if 0 <= from < s.len() {
        lemma_find_char(s, '\n', from);
    }
}

/// The body of a request whose headers start at `from`: the bytes of all
/// that follows the first empty line.
pub open spec fn body_from(s: Seq<char>, from: int) -> Option<Seq<u8>> {
    match body_start_from(s, from) {
        Some(start) => Some(encode_utf8(s.skip(start))),
        None => None,
    }
}

/// The lines of `lines` that come before its first empty line.
pub open spec fn up_to_empty(lines: Seq<Seq<char>>) -> Seq<Seq<char>>
    decreases lines.len(),
{
    if lines.len() == 0 || lines[0].len() == 0 {
        Seq::<Seq<char>>::empty()
    } else {
        seq![lines[0]] + up_to_empty(lines.drop_first())
    }
}

/// The body of the request that `raw` holds: the bytes of all that follows
/// the first empty line after the start line. `None` where no line is empty.
pub open spec fn body_of(raw: Seq<char>) -> Option<Seq<u8>> {
    body_from(raw, next_line(raw, 0))
}

/// The request that a text holds. The first line is the start line; the
/// lines after it, up to the first empty line, are the headers; what follows
/// that empty line is the body. A text without a line is malformed.
pub open spec fn parsed(raw: Seq<char>) -> Result<RequestModel, ParseFailure> {
    let all = lines(raw);
    if all.len() == 0 {
        Err(ParseFailure::Malformed)
    } else {
        match start_line_of(all[0]) {
            Err(failure) => Err(failure),
            Ok(start) => Ok(
                RequestModel {
                    method: start.0,
                    path: start.1,
                    version: start.2,
                    headers: headers_of(up_to_empty(all.drop_first())),
                    body: body_of(raw),
                },
            ),
        }
    }
}

/// The lines from `from` up to the first empty one are the lines that
/// `header_lines_from` gives.
pub proof fn lemma_header_lines(s: Seq<char>, from: int)
    requires
        0 <= from <= s.len(),
    ensures
        header_lines_from(s, from) == up_to_empty(lines_from(s, from)),
    decreases s.len() - from,
{
    if from < s.len() {
        lemma_line_bounds(s, from);
        let rest = lines_from(s, next_line(s, from));
        assert(lines_from(s, from).drop_first() =~= rest);
        if line_at(s, from).len() > 0 {
            lemma_header_lines(s, next_line(s, from));
        }
    }
}

/// A text has no line exactly if it is empty; its first line starts at its
/// first character, and the other lines where the first one's terminator ends.
pub proof fn lemma_first_line(raw: Seq<char>)
    ensures
        lines(raw).len() == 0 <==> raw.len() == 0,
        raw.len() > 0 ==> lines(raw)[0] == line_at(raw, 0) && lines(raw).drop_first()
            == lines_from(raw, next_line(raw, 0)),
{
    if raw.len() > 0 {
        assert(lines(raw).drop_first() =~= lines_from(raw, next_line(raw, 0)));
    }
}

/// The texts of a list of string slices.
pub open spec fn slice_texts(lines: Seq<&str>) -> Seq<Seq<char>> {
    Seq::new(lines.len(), |i: int| lines[i]@)
}

/// A request that was parsed has a path that begins with `/`, and neither
/// its path nor its version is empty or holds whitespace.
pub proof fn lemma_parsed_shape(raw: Seq<char>)
    requires
        parsed(raw) is Ok,
    ensures
        parsed(raw)->Ok_0.path.len() > 0,
        parsed(raw)->Ok_0.path[0] == '/',
        parsed(raw)->Ok_0.version.len() > 0,
        forall|i: int|
            0 <= i < parsed(raw)->Ok_0.path.len() ==> !crate::text::is_whitespace(
                parsed(raw)->Ok_0.path[i],
            ),
        forall|i: int|
            0 <= i < parsed(raw)->Ok_0.version.len() ==> !crate::text::is_whitespace(
                parsed(raw)->Ok_0.version[i],
            ),
{
    lemma_first_line(raw);
    let line = line_at(raw, 0);
    lemma_words_are_solid(line, 0);
    let tokens = words(line);
    assert(tokens[1].len() > 0);
    assert(tokens[2].len() > 0);
}

/// Reads the method that `token` names.
pub fn parse_method(token: &str) -> (method: Option<HTTPMethod>)
    ensures
        method == method_of(token@),
{
    if str_eq(token, "GET") {
        Some(HTTPMethod::Get)
    } else if str_eq(token, "POST") {
        Some(HTTPMethod::Post)
    } else if str_eq(token, "PUT") {
        Some(HTTPMethod::Put)
    } else if str_eq(token, "DELETE") {
        Some(HTTPMethod::Delete)
    } else {
        None
    }
}

/// Reads method, path and version from a start line.
pub fn parse_start_line(line: &[char]) -> (start: Result<(HTTPMethod, String, String), ParseFailure>)
    ensures
        match start {
            Ok(parts) => start_line_of(line@) == Ok::<
                (HTTPMethod, Seq<char>, Seq<char>),
                ParseFailure,
            >((parts.0, parts.1@, parts.2@)),
            Err(failure) => start_line_of(line@) == Err::<
                (HTTPMethod, Seq<char>, Seq<char>),
                ParseFailure,
            >(failure),
        },
{
    let mut tokens = split_words(line);
    proof {
        lemma_words_are_solid(line@, 0);
    }
    if tokens.len() == 0 {
        return Err(ParseFailure::Malformed);
    }
    assert(texts(tokens@)[0] == tokens@[0]@);
    let method = match parse_method(tokens[0].as_str()) {
        Some(method) => method,
        None => {
            return Err(ParseFailure::UnsupportedMethod);
        },
    };
    if tokens.len() < 3 {
        return Err(ParseFailure::Malformed);
    }
    assert(texts(tokens@)[1] == tokens@[1]@);
    assert(texts(tokens@)[2] == tokens@[2]@);
    assert(words(line@)[1].len() > 0);
    if tokens[1].as_str().get_char(0) != '/' {
        return Err(ParseFailure::Malformed);
    }
    let version = tokens.swap_remove(2);
    let path = tokens.swap_remove(1);
    Ok((method, path, version))
}

/// Reads name and value from the characters of a header line.
pub fn parse_header_chars(line: &[char]) -> (entry: Option<(String, String)>)
    ensures
        match entry {
            Some(pair) => header_of(line@) == Some((pair.0@, pair.1@)),
            None => header_of(line@) is None,
        },
{
    let colon = find(line, ':', 0);
    proof {
        lemma_find_char(line@, ':', 0);
    }
    if colon >= line.len() {
        return None;
    }
    let before = slice_subrange(line, 0, colon);
    let after = slice_subrange(line, colon + 1, line.len());
    let key_bounds = trim_bounds(before);
    let value_bounds = trim_bounds(after);
    let key = string_of(before, key_bounds.0, key_bounds.1);
    let value = string_of(after, value_bounds.0, value_bounds.1);
    Some((key, value))
}

/// Reads name and value from a header line.
pub fn parse_header_line(line: &str) -> (entry: Option<(String, String)>)
    ensures
        match entry {
            Some(pair) => header_of(line@) == Some((pair.0@, pair.1@)),
            None => header_of(line@) is None,
        },
{
    let chars = chars_of(line);
    parse_header_chars(chars.as_slice())
}

/// Reads the headers that a list of lines gives.
pub fn parse_headers(headers: Vec<&str>) -> (map: Headers)
    ensures
        map@ == headers_of(slice_texts(headers@)),
{
    let mut map = Headers::new();
    let ghost lines = slice_texts(headers@);
    assert(lines.take(0) =~= Seq::<Seq<char>>::empty());
    let mut i: usize = 0;
    while i < headers.len()
        invariant
            i <= headers@.len(),
            lines == slice_texts(headers@),
            map@ == headers_of(lines.take(i as int)),
        decreases headers@.len() - i,
    {
        assert(lines.take(i + 1).drop_last() =~= lines.take(i as int));
        assert(lines.take(i + 1).last() == headers@[i as int]@);
        match parse_header_line(headers[i]) {
            Some(pair) => {
                map.insert(pair.0, pair.1);
            },
            None => {},
        }
        i += 1;
    }
    assert(lines.take(i as int) =~= lines);
    map
}

impl HTTPRequest {
    /// Reads a request from the text that came over the wire.
    pub fn parse(request: &str) -> (result: Result<HTTPRequest, ParseFailure>)
        ensures
            match result {
                Ok(read) => parsed(request@) == Ok::<RequestModel, ParseFailure>(read@),
                Err(failure) => parsed(request@) == Err::<RequestModel, ParseFailure>(failure),
            },
    {
        let chars = chars_of(request);
        let raw = chars.as_slice();
        proof {
            lemma_first_line(raw@);
        }
        if raw.len() == 0 {
            return Err(ParseFailure::Malformed);
        }
        let first = read_line(raw, 0);
        let start = match parse_start_line(slice_subrange(raw, 0, first.0)) {
            Ok(start) => start,
            Err(failure) => {
                return Err(failure);
            },
        };
        let mut headers = Headers::new();
        let mut body: Option<Vec<u8>> = None;
        let mut at: usize = first.1;
        let ghost mut done: Seq<Seq<char>> = Seq::empty();
        assert(done + header_lines_from(raw@, at as int) =~= header_lines_from(raw@, at as int));
        while at < raw.len()
            invariant_except_break
                body is None,
                headers@ == headers_of(done),
                done + header_lines_from(raw@, at as int) == header_lines_from(raw@, first.1 as int),
                body_start_from(raw@, at as int) == body_start_from(raw@, first.1 as int),
            invariant
                first.1 <= at <= raw@.len(),
            ensures
                headers@ == headers_of(header_lines_from(raw@, first.1 as int)),
                match body {
                    Some(bytes) => body_from(raw@, first.1 as int) == Some(bytes@),
                    None => body_from(raw@, first.1 as int) is None,
                },
            decreases raw@.len() - at,
        {
            let line = read_line(raw, at);
            if line.0 == at {
                let rest = string_of(raw, line.1, raw.len());
                assert(raw@.subrange(line.1 as int, raw@.len() as int) =~= raw@.skip(line.1 as int));
                body = Some(rest.as_str().as_bytes_vec());
                assert(done + Seq::<Seq<char>>::empty() =~= done);
                break ;
            }
            let ghost text = line_at(raw@, at as int);
            assert(done.push(text).drop_last() =~= done);
            assert(done.push(text) + header_lines_from(raw@, line.1 as int) =~= done + (seq![text]
                + header_lines_from(raw@, line.1 as int)));
            match parse_header_chars(slice_subrange(raw, at, line.0)) {
                Some(pair) => {
                    headers.insert(pair.0, pair.1);
                },
                None => {},
            }
            proof {
                done = done.push(text);
            }
            at = line.1;
        }
        proof {
            if body is None {
                assert(done + Seq::<Seq<char>>::empty() =~= done);
            }
            lemma_header_lines(raw@, first.1 as int);
        }
        Ok(HTTPRequest { method: start.0, path: start.1, version: start.2, headers, body })
    }
}

} // verus!
