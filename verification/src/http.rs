//! Request and response data: headers as raw byte strings, and the fixed
//! responses that the server produces without touching the filesystem.
use crate::ascii::{CR, LF};
use crate::bytes::append_text;
use vstd::prelude::*;
use vstd::string::StrSliceExecFns;
use vstd::utf8::encode_utf8;

verus! {

/// One header: a name and a value, both as raw bytes, exactly as the HTTP
/// engine hands them over.  A name may repeat in a header list.
pub struct Header {
    pub name: Vec<u8>,
    pub value: Vec<u8>,
}

/// The mathematical model of a header list: the sequence of its
/// (name, value) byte strings, in order.
pub open spec fn pairs_of(hs: Seq<Header>) -> Seq<(Seq<u8>, Seq<u8>)> {
    hs.map(|i: int, h: Header| (h.name@, h.value@))
}

/// One parsed request head, as the HTTP engine hands it over: method token,
/// request path, header list, and the client address when it is known.
/// The body is not part of it: it is streamed separately, chunk by chunk.
pub struct Request {
    pub method: Vec<u8>,
    pub uri: Vec<u8>,
    pub headers: Vec<Header>,
    pub remote: Option<Vec<u8>>,
}

/// Ghost model of a request head.
pub struct ReqModel {
    pub method: Seq<u8>,
    pub uri: Seq<u8>,
    pub headers: Seq<(Seq<u8>, Seq<u8>)>,
    pub remote: Option<Seq<u8>>,
}

impl Request {
    /// The model this request denotes.
    pub open spec fn model(self) -> ReqModel {
        ReqModel {
            method: self.method@,
            uri: self.uri@,
            headers: pairs_of(self.headers@),
            remote: match self.remote {
                Option::Some(a) => Option::Some(a@),
                Option::None => Option::None,
            },
        }
    }
}

/// An HTTP response: status code, header list, and body bytes.
pub struct Response {
    pub status: u16,
    pub headers: Vec<Header>,
    pub body: Vec<u8>,
}

/// Ghost model of a response: status, header pairs, body bytes.
pub struct RespModel {
    pub status: int,
    pub headers: Seq<(Seq<u8>, Seq<u8>)>,
    pub body: Seq<u8>,
}

impl Response {
    /// The model this response denotes.
    pub open spec fn model(self) -> RespModel {
        RespModel { status: self.status as int, headers: pairs_of(self.headers@), body: self.body@ }
    }
}

/// Body of the health-check response: `OK\r\n`.
pub open spec fn ping_body() -> Seq<u8> {
    encode_utf8("OK"@) + seq![CR, LF]
}

/// Body of the robots response: `User-agent: *\r\nDisallow: /\r\n`.
pub open spec fn robots_body() -> Seq<u8> {
    encode_utf8("User-agent: *"@) + seq![CR, LF] + encode_utf8("Disallow: /"@) + seq![CR, LF]
}

/// Body of the not-found response: one fixed HTML document.
pub open spec fn not_found_body() -> Seq<u8> {
    encode_utf8(not_found_html())
}

/// The not-found HTML document, as characters.
pub open spec fn not_found_html() -> Seq<char> {
    "<!DOCTYPE html>\n<html>\n<head>\n    <meta charset=\"utf-8\">\n    <title>404 Not Found</title>\n</head>\n<body align=\"center\">\n    <div align=\"center\">\n        <h1>404: Not Found</h1>\n        <p>The requested resource could not be found.</p>\n    </div>\n</body>\n</html>"@
}

/// Model of a handler response with no headers of its own.
pub open spec fn bare_model(status: int, body: Seq<u8>) -> RespModel {
    RespModel { status, headers: Seq::empty(), body }
}

/// Model of the health-check response: status 200, body exactly `OK\r\n`.
pub open spec fn ping_model() -> RespModel {
    bare_model(200, ping_body())
}

/// Model of the robots response.
pub open spec fn robots_model() -> RespModel {
    bare_model(200, robots_body())
}

/// Model of the not-found response: status 404 with the fixed HTML body.
pub open spec fn not_found_model() -> RespModel {
    bare_model(404, not_found_body())
}

/// Model of the generic server-error response: status 500, empty body.
pub open spec fn server_error_model() -> RespModel {
    bare_model(500, Seq::empty())
}

/// Model of the empty success response: status 200, empty body.
pub open spec fn ok_empty_model() -> RespModel {
    bare_model(200, Seq::empty())
}

/// Health check: always status 200 with body `OK\r\n`.
pub fn ping() -> (r: Response)
    ensures
        r.model() == ping_model(),
{
    let mut body: Vec<u8> = Vec::new();
    append_text(&mut body, "OK");
    body.push(CR);
    body.push(LF);
    proof {
        assert(body@ =~= ping_body());
    }
    bare_response(200, body)
}

/// Robots directive: always status 200 with body `User-agent: *\r\nDisallow: /\r\n`.
pub fn robots() -> (r: Response)
    ensures
        r.model() == robots_model(),
{
    let mut body: Vec<u8> = Vec::new();
    append_text(&mut body, "User-agent: *");
    body.push(CR);
    body.push(LF);
    append_text(&mut body, "Disallow: /");
    body.push(CR);
    body.push(LF);
    proof {
        assert(body@ =~= robots_body());
    }
    bare_response(200, body)
}

/// Not-found responder: status 404 with one fixed HTML body, whatever the
/// request was.
pub fn not_found() -> (r: Response)
    ensures
        r.model() == not_found_model(),
{
    let s = "<!DOCTYPE html>\n<html>\n<head>\n    <meta charset=\"utf-8\">\n    <title>404 Not Found</title>\n</head>\n<body align=\"center\">\n    <div align=\"center\">\n        <h1>404: Not Found</h1>\n        <p>The requested resource could not be found.</p>\n    </div>\n</body>\n</html>";
    let body = s.as_bytes_vec();
    bare_response(404, body)
}

/// Generic server-error response for a failed upload or echo: status 500,
/// empty body.
pub fn server_error() -> (r: Response)
    ensures
        r.model() == server_error_model(),
{
    bare_response(500, Vec::new())
}

/// Empty success response for a completed upload or echo: status 200, empty body.
pub fn ok_empty() -> (r: Response)
    ensures
        r.model() == ok_empty_model(),
{
    bare_response(200, Vec::new())
}

/// A response with the given status and body and no handler headers.
fn bare_response(status: u16, body: Vec<u8>) -> (r: Response)
    ensures
        r.model() == bare_model(status as int, body@),
{
    proof {
        assert(pairs_of(Seq::<Header>::empty()) =~= Seq::<(Seq<u8>, Seq<u8>)>::empty());
    }
    Response { status, headers: Vec::new(), body }
}

} // verus!
