//! Data types shared by the parser, the router and the formatter.

use vstd::prelude::*;

verus! {

pub const KB: usize = 1024;

pub const PORT: usize = 3000;

/// Capacity of the buffer that one read from a connection fills.
pub const MAX_HEADER_SIZE: usize = KB;

#[derive(Debug, Clone, Copy, PartialEq, Eq, Structural)]
pub enum ContentType {
    ApplicationJson,
    TextHtml,
    TextPlain,
    Unknown,
}

#[derive(Debug, Clone, Copy, PartialEq, Eq, Structural)]
pub enum MethodType {
    GET,
    POST,
    PUT,
    DELETE,
    UNKNOWN,
}

/// A parsed request. Header keys are lower-cased; duplicates are kept in order.
pub struct Request {
    pub http_v: String,
    pub path: String,
    pub host: String,
    pub method: MethodType,
    pub content_type: ContentType,
    pub body: Vec<u8>,
    pub headers: Vec<(String, String)>,
}

/// Mathematical model of a `Request`.
pub struct RequestModel {
    pub http_v: Seq<char>,
    pub path: Seq<char>,
    pub host: Seq<char>,
    pub method: MethodType,
    pub content_type: ContentType,
    pub body: Seq<u8>,
    pub headers: Seq<(Seq<char>, Seq<char>)>,
}

pub open spec fn header_view(h: (String, String)) -> (Seq<char>, Seq<char>) {
    (h.0@, h.1@)
}

impl View for Request {
    type V = RequestModel;

    open spec fn view(&self) -> RequestModel {
        RequestModel {
            http_v: self.http_v@,
            path: self.path@,
            host: self.host@,
            method: self.method,
            content_type: self.content_type,
            body: self.body@,
            headers: self.headers@.map_values(|h: (String, String)| header_view(h)),
        }
    }
}

/// The model of a freshly created, empty request.
pub open spec fn empty_request() -> RequestModel {
    RequestModel {
        http_v: Seq::empty(),
        path: Seq::empty(),
        host: Seq::empty(),
        method: MethodType::UNKNOWN,
        content_type: ContentType::Unknown,
        body: Seq::empty(),
        headers: Seq::empty(),
    }
}

impl Request {
    pub fn new() -> (r: Self)
        ensures
            r@ == empty_request(),
    {
        let r = Request {
            path: String::new(),
            host: String::new(),
            method: MethodType::UNKNOWN,
            content_type: ContentType::Unknown,
            body: Vec::new(),
            headers: Vec::new(),
            http_v: String::new(),
        };
        assert(r@.headers =~= Seq::<(Seq<char>, Seq<char>)>::empty());
        r
    }
}

/// A response: status code, content type and body text.
pub struct Response {
    pub code: u16,
    pub header: ContentType,
    pub content: String,
}

impl Response {
    pub fn new(code: u16, header: ContentType, content: String) -> (r: Self)
        ensures
            r.code == code,
            r.header == header,
            r.content@ == content@,
    {
        Response { code, header, content }
    }
}

} // verus!
