//! Requests, responses and their headers, with the mathematical model of
//! each.

use vstd::prelude::*;
use vstd::utf8::encode_utf8;
use crate::text::{ascii, decimal, names_match, same_name, text_bytes};

verus! {

/// A header as contracts see it: a name and an opaque value.
pub struct HeaderModel {
    pub name: Seq<u8>,
    pub value: Seq<u8>,
}

/// One header line. The value need not be text.
#[derive(Clone, Debug, PartialEq, Eq)]
pub struct Header {
    pub name: Vec<u8>,
    pub value: Vec<u8>,
}

impl View for Header {
    type V = HeaderModel;

    open spec fn view(&self) -> HeaderModel {
        HeaderModel { name: self.name@, value: self.value@ }
    }
}

/// The models of a run of headers, in order.
pub open spec fn models(headers: Seq<Header>) -> Seq<HeaderModel> {
    headers.map_values(|h: Header| h@)
}

/// The value of the first header that carries `name`, compared without
/// regard to case.
pub open spec fn lookup(headers: Seq<HeaderModel>, name: Seq<u8>) -> Option<Seq<u8>>
    decreases headers.len(),
{
    if headers.len() == 0 {
        None
    } else if same_name(headers[0].name, name) {
        Some(headers[0].value)
    } else {
        lookup(headers.skip(1), name)
    }
}

/// The most headers that one request may carry.
pub const HEADER_CAPACITY: usize = 4;

/// A parsed request head as contracts see it.
pub struct RequestModel {
    pub method: Seq<u8>,
    pub path: Seq<u8>,
    pub headers: Seq<HeaderModel>,
    pub body_offset: nat,
}

/// A parsed request head. `body_offset` is the index in the receive buffer
/// at which the message body begins.
#[derive(Clone, Debug, PartialEq, Eq)]
pub struct Request {
    pub method: Vec<u8>,
    pub path: Vec<u8>,
    pub headers: Vec<Header>,
    pub body_offset: usize,
}

impl View for Request {
    type V = RequestModel;

    open spec fn view(&self) -> RequestModel {
        RequestModel {
            method: self.method@,
            path: self.path@,
            headers: models(self.headers@),
            body_offset: self.body_offset as nat,
        }
    }
}

impl RequestModel {
    /// What holds of every request that the parser hands out for a buffer
    /// of `received` bytes.
    pub open spec fn well_formed(self, received: nat) -> bool {
        &&& self.path.len() > 0
        &&& self.path[0] == '/' as u8
        &&& self.headers.len() <= HEADER_CAPACITY
        &&& self.body_offset <= received
    }
}

impl Request {
    /// The value of the first header named `name`, if there is one.
    pub fn header(&self, name: &[u8]) -> (r: Option<&Vec<u8>>)
        ensures
            match r {
                Some(v) => lookup(self@.headers, name@) == Some(v@),
                None => lookup(self@.headers, name@) is None,
            },
    {
        find_header(&self.headers, name)
    }
}

/// The value of the first of `headers` named `name`, if there is one.
pub fn find_header<'a>(headers: &'a Vec<Header>, name: &[u8]) -> (r: Option<&'a Vec<u8>>)
    ensures
        match r {
            Some(v) => lookup(models(headers@), name@) == Some(v@),
            None => lookup(models(headers@), name@) is None,
        },
{
    let ghost all = models(headers@);
    let mut i: usize = 0;
    assert(all.skip(0) =~= all);
    while i < headers.len()
        invariant
            i <= headers.len(),
            all == models(headers@),
            lookup(all, name@) == lookup(all.skip(i as int), name@),
        decreases headers.len() - i,
    {
        let h = &headers[i];
        assert(all.skip(i as int)[0] == h@);
        if names_match(h.name.as_slice(), name) {
            return Some(&h.value);
        }
        assert(all.skip(i as int).skip(1) =~= all.skip(i + 1));
        i += 1;
    }
    assert(all.skip(i as int).len() == 0);
    None
}

/// The status of a response.
#[derive(Clone, Copy, Debug, PartialEq, Eq, Structural)]
pub enum Status {
    Success,
    Created,
    BadRequest,
    NotFound,
}

impl Status {
    /// The three-digit code, as text.
    pub open spec fn code(self) -> Seq<u8> {
        match self {
            Status::Success => ascii("200"@),
            Status::Created => ascii("201"@),
            Status::BadRequest => ascii("400"@),
            Status::NotFound => ascii("404"@),
        }
    }

    /// The reason phrase.
    pub open spec fn reason(self) -> Seq<u8> {
        match self {
            Status::Success => ascii("OK"@),
            Status::Created => ascii("Created"@),
            Status::BadRequest => ascii("Bad Request"@),
            Status::NotFound => ascii("Not Found"@),
        }
    }

    /// The three-digit code, as text.
    pub fn code_text(self) -> (v: Vec<u8>)
        ensures
            v@ == self.code(),
    {
        proof {
            reveal_strlit("200");
            reveal_strlit("201");
            reveal_strlit("400");
            reveal_strlit("404");
        }
        match self {
            Status::Success => text_bytes("200"),
            Status::Created => text_bytes("201"),
            Status::BadRequest => text_bytes("400"),
            Status::NotFound => text_bytes("404"),
        }
    }

    /// The reason phrase.
    pub fn reason_text(self) -> (v: Vec<u8>)
        ensures
            v@ == self.reason(),
    {
        proof {
            reveal_strlit("OK");
            reveal_strlit("Created");
            reveal_strlit("Bad Request");
            reveal_strlit("Not Found");
        }
        match self {
            Status::Success => text_bytes("OK"),
            Status::Created => text_bytes("Created"),
            Status::BadRequest => text_bytes("Bad Request"),
            Status::NotFound => text_bytes("Not Found"),
        }
    }
}

/// A response as contracts see it.
pub struct ResponseModel {
    pub status: Status,
    pub headers: Seq<HeaderModel>,
    pub body: Seq<u8>,
}

/// A response: status, headers in the order they go on the wire, and body.
#[derive(Clone, Debug, PartialEq, Eq)]
pub struct Response {
    pub status: Status,
    pub headers: Vec<Header>,
    pub body: Vec<u8>,
}

impl View for Response {
    type V = ResponseModel;

    open spec fn view(&self) -> ResponseModel {
        ResponseModel { status: self.status, headers: models(self.headers@), body: self.body@ }
    }
}

/// The name of the header that declares the body's length.
pub open spec fn content_length_name() -> Seq<u8> {
    ascii("Content-Length"@)
}

/// The name of the header that declares the body's encoding.
pub open spec fn content_encoding_name() -> Seq<u8> {
    ascii("Content-Encoding"@)
}

/// A header with a literal name.
pub open spec fn named(name: Seq<char>, value: Seq<u8>) -> HeaderModel {
    HeaderModel { name: ascii(name), value: value }
}

impl ResponseModel {
    /// The declared length is the body's length: a `Content-Length` header,
    /// where there is one, holds the body's byte count in decimal, and a
    /// response without one has no body.
    pub open spec fn length_consistent(self) -> bool {
        match lookup(self.headers, content_length_name()) {
            Some(v) => v == decimal(self.body.len()),
            None => self.body.len() == 0,
        }
    }
}

impl Header {
    /// A header with a name given as text.
    pub fn new(name: &str, value: Vec<u8>) -> (h: Header)
        ensures
            h@ == (HeaderModel { name: encode_utf8(name@), value: value@ }),
            name.is_ascii() ==> h@ == named(name@, value@),
    {
        Header { name: text_bytes(name), value }
    }
}

impl Response {
    /// A response with neither headers nor body.
    pub fn bare(status: Status) -> (r: Response)
        ensures
            r@ == (ResponseModel { status, headers: Seq::empty(), body: Seq::empty() }),
    {
        let r = Response { status, headers: Vec::new(), body: Vec::new() };
        assert(r@.headers =~= Seq::empty());
        r
    }
}

} // verus!
