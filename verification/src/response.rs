//! Responses: which one a request line gets, and how it is written on the wire.

use vstd::prelude::*;
use vstd::string::*;
use vstd::utf8::*;
use crate::decimal::{decimal, decimal_value, is_digit, lemma_decimal_denotes, to_decimal};
use crate::text::{
    all_white_space, lemma_encode_concat, lemma_trimmed_of_padded, lemma_trimmed_shape, same_text,
    trim, trimmed,
};

verus! {

/// The one request line that is served: a `GET` of the root path under HTTP/1.1.
pub const ROOT_REQUEST: &'static str = "GET / HTTP/1.1";

/// The page sent with `200 OK`.
pub const OK_PAGE: &'static str =
    "<html><head><title>200 Ok</title></head><body><h1>Hello, World!</h1></body></html>";

/// The page sent with `404 Not Found`.
pub const NOT_FOUND_PAGE: &'static str =
    "<html><head><title>404 Not Found</title></head><body><h1>404 Not Found</h1></body></html>";

/// The outcome of classifying a request line.
#[derive(Clone, Copy, Debug, PartialEq, Eq, Structural)]
pub enum Status {
    /// `200 OK`: the request line names the root page.
    Found,
    /// `404 Not Found`: anything else.
    NotFound,
}

/// The status that a request line gets: `Found` where the line, without surrounding white
/// space, is exactly [`ROOT_REQUEST`], and `NotFound` for every other line.
pub open spec fn status_for(line: Seq<char>) -> Status {
    if trimmed(line) == ROOT_REQUEST@ {
        Status::Found
    } else {
        Status::NotFound
    }
}

/// The root request with white space around it is found, whatever the white space.
pub proof fn lemma_found_when_padded(before: Seq<char>, after: Seq<char>)
    requires
        all_white_space(before),
        all_white_space(after),
    ensures
        status_for(before + ROOT_REQUEST@ + after) == Status::Found,
{
    reveal_strlit("GET / HTTP/1.1");
    lemma_trimmed_of_padded(before, ROOT_REQUEST@, after);
}

/// Nothing else is found: a line with the status `Found` is the root request with white space
/// before it, up to the first cut returned, and white space after it, from the second cut on.
pub proof fn lemma_found_only_when_padded(line: Seq<char>) -> (cuts: (int, int))
    requires
        status_for(line) == Status::Found,
    ensures
        0 <= cuts.0 <= cuts.1 <= line.len(),
        all_white_space(line.take(cuts.0)),
        all_white_space(line.skip(cuts.1)),
        line == line.take(cuts.0) + ROOT_REQUEST@ + line.skip(cuts.1),
{
    lemma_trimmed_shape(line)
}

/// Classifies a request line.
pub fn classify(line: &str) -> (status: Status)
    ensures
        status == status_for(line@),
{
    if same_text(trim(line), ROOT_REQUEST) {
        Status::Found
    } else {
        Status::NotFound
    }
}

impl Status {
    /// The status code and reason phrase, as they stand in the status line.
    pub open spec fn text(self) -> Seq<char> {
        match self {
            Status::Found => "200 OK"@,
            Status::NotFound => "404 Not Found"@,
        }
    }

    /// The page that goes out with this status.
    pub open spec fn page_text(self) -> Seq<char> {
        match self {
            Status::Found => OK_PAGE@,
            Status::NotFound => NOT_FOUND_PAGE@,
        }
    }

    /// The status code and reason phrase.
    pub fn as_str(self) -> (text: &'static str)
        ensures
            text@ == self.text(),
    {
        match self {
            Status::Found => "200 OK",
            Status::NotFound => "404 Not Found",
        }
    }

    /// The page that goes out with this status.
    pub fn page(self) -> (page: &'static str)
        ensures
            page@ == self.page_text(),
    {
        match self {
            Status::Found => OK_PAGE,
            Status::NotFound => NOT_FOUND_PAGE,
        }
    }
}

/// A response before it is written out: a status and the text of the body.
#[derive(Clone, Copy, Debug, PartialEq, Eq)]
pub struct Response<'a> {
    pub status: Status,
    pub body: &'a str,
}

/// The head of a response: the status line, a `Content-Length` header that announces a body
/// of `body_len` bytes, and the blank line that ends the head.
pub open spec fn head_text(status: Status, body_len: nat) -> Seq<char> {
    "HTTP/1.1 "@ + status.text() + "\r\nContent-Length: "@ + decimal(body_len) + "\r\n\r\n"@
}

/// The text of a response on the wire: the head, which announces the number of bytes that
/// the body takes in UTF-8, and then the body.
pub open spec fn wire_text(status: Status, body: Seq<char>) -> Seq<char> {
    head_text(status, encode_utf8(body).len()) + body
}

/// The text of the response that a request line gets.
pub open spec fn response_text(line: Seq<char>) -> Seq<char> {
    wire_text(status_for(line), status_for(line).page_text())
}

impl<'a> Response<'a> {
    /// The text of this response on the wire.
    pub open spec fn text(&self) -> Seq<char> {
        wire_text(self.status, self.body@)
    }

    /// Writes the response out as text.
    pub fn render(&self) -> (text: String)
        ensures
            text@ == self.text(),
    {
        let body_len: usize = self.body.as_bytes().len();
        let mut out = String::from_str("HTTP/1.1 ");
        out.append(self.status.as_str());
        out.append("\r\nContent-Length: ");
        out.append(to_decimal(body_len).as_str());
        out.append("\r\n\r\n");
        out.append(self.body);
        out
    }

    /// Writes the response out as the bytes that go on the wire.
    pub fn to_bytes(&self) -> (bytes: Vec<u8>)
        ensures
            bytes@ == encode_utf8(self.text()),
    {
        self.render().as_str().as_bytes_vec()
    }
}

/// The `Content-Length` of a response is the length of its body: on the wire the response is
/// the bytes of the head followed by the bytes of the body, and the numeral in the head is
/// made of digits that denote the number of those body bytes.
pub proof fn lemma_content_length(status: Status, body: Seq<char>)
    ensures
        ({
            let body_bytes = encode_utf8(body);
            let numeral = decimal(body_bytes.len());
            &&& encode_utf8(wire_text(status, body)) == encode_utf8(
                head_text(status, body_bytes.len()),
            ) + body_bytes
            &&& head_text(status, body_bytes.len()) == "HTTP/1.1 "@ + status.text()
                + "\r\nContent-Length: "@ + numeral + "\r\n\r\n"@
            &&& forall|i: int| 0 <= i < numeral.len() ==> is_digit(#[trigger] numeral[i])
            &&& decimal_value(numeral) == body_bytes.len()
        }),
{
    lemma_encode_concat(head_text(status, encode_utf8(body).len()), body);
    lemma_decimal_denotes(encode_utf8(body).len());
}

/// Chooses the response for a request line: the root page with `200 OK` where the line,
/// without surrounding white space, is exactly [`ROOT_REQUEST`]; for every other line the
/// error page with `404 Not Found`.
pub fn respond(line: &str) -> (response: Response<'static>)
    ensures
        trimmed(line@) == ROOT_REQUEST@ ==> response.status == Status::Found && response.body@
            == OK_PAGE@,
        trimmed(line@) != ROOT_REQUEST@ ==> response.status == Status::NotFound && response.body@
            == NOT_FOUND_PAGE@,
        response.text() == response_text(line@),
{
    let status = classify(line);
    Response { status, body: status.page() }
}

/// Answers one request line with the bytes of a complete response.
pub fn handle_request(line: &str) -> (bytes: Vec<u8>)
    ensures
        trimmed(line@) == ROOT_REQUEST@ ==> bytes@ == encode_utf8(
            wire_text(Status::Found, OK_PAGE@),
        ),
        trimmed(line@) != ROOT_REQUEST@ ==> bytes@ == encode_utf8(
            wire_text(Status::NotFound, NOT_FOUND_PAGE@),
        ),
        bytes@ == encode_utf8(response_text(line@)),
{
    respond(line).to_bytes()
}

} // verus!
