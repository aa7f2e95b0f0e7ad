//! The request parser: from the bytes of one read to a request head.

use vstd::prelude::*;
use vstd::slice::slice_subrange;
use crate::message::{Header, Request, RequestModel, HEADER_CAPACITY};

verus! {

/// The parse failure of `httparse`.
#[verifier::external_type_specification]
pub struct ExError(httparse::Error);

/// What `httparse` makes of the request head in `buf` when it may store up
/// to `capacity` headers: a complete head, `None` for a head that the
/// buffer does not finish, or its failure.
pub uninterp spec fn head_of(buf: Seq<u8>, capacity: nat) -> Result<
    Option<RequestModel>,
    httparse::Error,
>;

/// The model of what the head parser returned.
pub open spec fn head_model(r: Result<Option<Request>, httparse::Error>) -> Result<
    Option<RequestModel>,
    httparse::Error,
> {
    match r {
        Ok(Some(request)) => Ok(Some(request@)),
        Ok(None) => Ok(None),
        Err(e) => Err(e),
    }
}

/// Parses a request head with room for `capacity` headers.
///
/// Trusted: calls `httparse::Request::parse` on a fresh `Request` over
/// `capacity` empty header slots, and copies method, path, the headers that
/// were filled and the returned offset into a `Request` of this library.
/// `Status::Partial` becomes `Ok(None)`. Besides naming the result, the
/// contract claims what the parser's source shows of every complete parse:
/// the offset counts consumed bytes, so it is within the buffer, and no more
/// headers are handed out than there were slots. The slots are allocated
/// at once, so `capacity` is kept small.
#[verifier::external_body]
pub(crate) fn parse_head(buf: &[u8], capacity: usize) -> (r: Result<
    Option<Request>,
    httparse::Error,
>)
    requires
        capacity <= HEADER_CAPACITY,
    ensures
        head_model(r) == head_of(buf@, capacity as nat),
        r matches Ok(Some(request)) ==> request.body_offset <= buf@.len()
            && request.headers@.len() <= capacity,
{
    let mut slots = vec![httparse::EMPTY_HEADER; capacity];
    let mut req = httparse::Request::new(&mut slots);
    match req.parse(buf)? {
        httparse::Status::Partial => Ok(None),
        httparse::Status::Complete(n) => Ok(Some(Request {
            method: req.method.unwrap_or_default().as_bytes().to_vec(),
            path: req.path.unwrap_or_default().as_bytes().to_vec(),
            headers: req.headers.iter().map(
                |h| Header { name: h.name.as_bytes().to_vec(), value: h.value.to_vec() },
            ).collect(),
            body_offset: n,
        })),
    }
}

/// Why a buffer holds no request.
#[derive(Clone, Copy, Debug, PartialEq, Eq, Structural)]
pub enum ParseError {
    /// A byte that no header name may hold.
    HeaderName,
    /// A byte that no header value may hold.
    HeaderValue,
    /// A line end that is not one.
    NewLine,
    /// A byte that no status code may hold.
    StatusCode,
    /// A byte where a token is required: in the method or the path.
    Token,
    /// More headers than a request may carry.
    TooManyHeaders,
    /// A protocol version that is not HTTP/1.x.
    Version,
    /// The buffer ends before the blank line that ends the head.
    Incomplete,
    /// The path does not begin with a slash.
    PathNotAbsolute,
    /// A header value that must be text is not valid UTF-8.
    InvalidEncoding,
}

/// The library's error for a failure of the head parser.
pub open spec fn fault_of(e: httparse::Error) -> ParseError {
    match e {
        httparse::Error::HeaderName => ParseError::HeaderName,
        httparse::Error::HeaderValue => ParseError::HeaderValue,
        httparse::Error::NewLine => ParseError::NewLine,
        httparse::Error::Status => ParseError::StatusCode,
        httparse::Error::Token => ParseError::Token,
        httparse::Error::TooManyHeaders => ParseError::TooManyHeaders,
        httparse::Error::Version => ParseError::Version,
    }
}

/// Whether a path begins with a slash.
pub open spec fn is_absolute(path: Seq<u8>) -> bool {
    path.len() > 0 && path[0] == '/' as u8
}

/// What the parser returns for a parsed head: a failure of the head parser
/// is an error, an unfinished head is an error, and so is a complete head
/// whose path is not absolute.
pub open spec fn accepted(head: Result<Option<RequestModel>, httparse::Error>) -> Result<
    RequestModel,
    ParseError,
> {
    match head {
        Err(e) => Err(fault_of(e)),
        Ok(None) => Err(ParseError::Incomplete),
        Ok(Some(request)) => if is_absolute(request.path) {
            Ok(request)
        } else {
            Err(ParseError::PathNotAbsolute)
        },
    }
}

/// The model of a parse result.
pub open spec fn parse_model(r: Result<Request, ParseError>) -> Result<RequestModel, ParseError> {
    match r {
        Ok(request) => Ok(request@),
        Err(e) => Err(e),
    }
}

/// Decides what becomes of a parsed head.
pub fn accept_head(head: Result<Option<Request>, httparse::Error>) -> (r: Result<
    Request,
    ParseError,
>)
    ensures
        parse_model(r) == accepted(head_model(head)),
{
    match head {
        Err(e) => Err(
            match e {
                httparse::Error::HeaderName => ParseError::HeaderName,
                httparse::Error::HeaderValue => ParseError::HeaderValue,
                httparse::Error::NewLine => ParseError::NewLine,
                httparse::Error::Status => ParseError::StatusCode,
                httparse::Error::Token => ParseError::Token,
                httparse::Error::TooManyHeaders => ParseError::TooManyHeaders,
                httparse::Error::Version => ParseError::Version,
            },
        ),
        Ok(None) => Err(ParseError::Incomplete),
        Ok(Some(request)) => {
            if request.path.len() > 0 && request.path[0] == '/' as u8 {
                Ok(request)
            } else {
                Err(ParseError::PathNotAbsolute)
            }
        },
    }
}

/// Parses the request in the first `received` bytes of `buf`.
///
/// A request that comes back is well formed: its path is absolute, it
/// carries at most `HEADER_CAPACITY` headers, and its body begins within
/// the bytes received.
pub fn parse_request(buf: &[u8], received: usize) -> (r: Result<Request, ParseError>)
    requires
        received <= buf@.len(),
    ensures
        parse_model(r) == accepted(
            head_of(buf@.take(received as int), HEADER_CAPACITY as nat),
        ),
        r matches Ok(request) ==> request@.well_formed(received as nat),
{
    let bytes = slice_subrange(buf, 0, received);
    assert(bytes@ =~= buf@.take(received as int));
    let head = parse_head(bytes, HEADER_CAPACITY);
    accept_head(head)
}

} // verus!
