//! The handlers: what each route answers.

use vstd::prelude::*;
use crate::encoder::{accepts_gzip, compress_data, gzip_of, negotiated};
use crate::message::{
    content_encoding_name, content_length_name, find_header, lookup, models, named, Header, HeaderModel, Request,
    RequestModel, Response, ResponseModel, Status,
};
use crate::parser::ParseError;
use crate::text::{
    ascii, decimal, declared_length, format_decimal, parse_length, slice_of, text_bytes,
};

verus! {

/// The media type of text bodies.
pub open spec fn text_plain() -> Seq<u8> {
    ascii("text/plain"@)
}

/// The media type of file bodies.
pub open spec fn octet_stream() -> Seq<u8> {
    ascii("application/octet-stream"@)
}

/// A response that declares its media type and the length of its body.
pub open spec fn with_body(status: Status, media: Seq<u8>, body: Seq<u8>) -> ResponseModel {
    ResponseModel {
        status,
        headers: seq![
            named("Content-Type"@, media),
            named("Content-Length"@, decimal(body.len())),
        ],
        body,
    }
}

/// The echo of a body that went through the gzip encoder: as `with_body`,
/// with the encoding declared first.
pub open spec fn gzip_body(compressed: Seq<u8>) -> ResponseModel {
    ResponseModel {
        status: Status::Success,
        headers: seq![
            named("Content-Encoding"@, ascii("gzip"@)),
            named("Content-Type"@, text_plain()),
            named("Content-Length"@, decimal(compressed.len())),
        ],
        body: compressed,
    }
}

/// Builds a response that declares its media type and the length of its
/// body.
pub fn respond_body(status: Status, media: Vec<u8>, body: Vec<u8>) -> (r: Response)
    ensures
        r@ == with_body(status, media@, body@),
{
    proof {
        reveal_strlit("Content-Type");
        reveal_strlit("Content-Length");
    }
    let mut headers: Vec<Header> = Vec::new();
    headers.push(Header::new("Content-Type", media));
    headers.push(Header::new("Content-Length", format_decimal(body.len())));
    let r = Response { status, headers, body };
    assert(r@.headers =~= with_body(status, media@, body@).headers);
    r
}

/// Builds the echo of a body that the gzip encoder has produced.
pub fn respond_gzip(compressed: Vec<u8>) -> (r: Response)
    ensures
        r@ == gzip_body(compressed@),
{
    proof {
        reveal_strlit("Content-Encoding");
        reveal_strlit("Content-Type");
        reveal_strlit("Content-Length");
        reveal_strlit("gzip");
        reveal_strlit("text/plain");
    }
    let mut headers: Vec<Header> = Vec::new();
    headers.push(Header::new("Content-Encoding", text_bytes("gzip")));
    headers.push(Header::new("Content-Type", text_bytes("text/plain")));
    headers.push(Header::new("Content-Length", format_decimal(compressed.len())));
    let r = Response { status: Status::Success, headers, body: compressed };
    assert(r@.headers =~= gzip_body(compressed@).headers);
    r
}

/// The model of a handler's result where it may fail.
pub open spec fn result_model(r: Result<Response, ParseError>) -> Result<ResponseModel, ParseError> {
    match r {
        Ok(response) => Ok(response@),
        Err(e) => Err(e),
    }
}

/// The model of a handler's result where it may stay silent.
pub open spec fn option_model(r: Option<Response>) -> Option<ResponseModel> {
    match r {
        Some(response) => Some(response@),
        None => None,
    }
}

/// What the echo route answers to the rest of a path. Without an
/// `Accept-Encoding` header, or with one that does not list gzip, the body
/// is the rest of the path as it stands. With one that lists gzip, the body
/// is its gzip container. An `Accept-Encoding` value that is not text is an
/// error.
pub open spec fn echoed(rest: Seq<u8>, headers: Seq<HeaderModel>) -> Result<
    ResponseModel,
    ParseError,
> {
    match lookup(headers, ascii("accept-encoding"@)) {
        None => Ok(with_body(Status::Success, text_plain(), rest)),
        Some(value) => match negotiated(value) {
            Err(e) => Err(e),
            Ok(true) => Ok(gzip_body(gzip_of(rest))),
            Ok(false) => Ok(with_body(Status::Success, text_plain(), rest)),
        },
    }
}

/// Answers the echo route.
pub fn respond_echo(rest: &[u8], headers: &Vec<Header>) -> (r: Result<Response, ParseError>)
    ensures
        result_model(r) == echoed(rest@, models(headers@)),
{
    proof {
        reveal_strlit("accept-encoding");
        reveal_strlit("text/plain");
    }
    let name = text_bytes("accept-encoding");
    let gzip = match find_header(headers, name.as_slice()) {
        None => false,
        Some(value) => match accepts_gzip(value.as_slice()) {
            Err(e) => {
                return Err(e);
            },
            Ok(listed) => listed,
        },
    };
    if gzip {
        Ok(respond_gzip(compress_data(rest)))
    } else {
        let body = slice_of(rest, 0, rest.len());
        assert(body@ =~= rest@);
        Ok(respond_body(Status::Success, text_bytes("text/plain"), body))
    }
}

/// What the user-agent route answers: the raw value of the `User-Agent`
/// header as a text body, or nothing where the request has no such header.
pub open spec fn agent_reflected(headers: Seq<HeaderModel>) -> Option<ResponseModel> {
    match lookup(headers, ascii("user-agent"@)) {
        Some(value) => Some(with_body(Status::Success, text_plain(), value)),
        None => None,
    }
}

/// Answers the user-agent route.
pub fn respond_user_agent(headers: &Vec<Header>) -> (r: Option<Response>)
    ensures
        option_model(r) == agent_reflected(models(headers@)),
{
    proof {
        reveal_strlit("user-agent");
        reveal_strlit("text/plain");
    }
    let name = text_bytes("user-agent");
    match find_header(headers, name.as_slice()) {
        Some(value) => {
            let body = slice_of(value.as_slice(), 0, value.len());
            assert(body@ =~= value@);
            Some(respond_body(Status::Success, text_bytes("text/plain"), body))
        },
        None => None,
    }
}

/// What the file-read route answers once storage has been asked: the
/// contents, or a 404 without body where storage gave none.
pub open spec fn file_served(contents: Option<Seq<u8>>) -> ResponseModel {
    match contents {
        Some(bytes) => with_body(Status::Success, octet_stream(), bytes),
        None => with_body(Status::NotFound, octet_stream(), Seq::empty()),
    }
}

/// Answers the file-read route from what storage returned: `None` stands
/// for a resource that is missing or could not be read.
pub fn respond_file_get(contents: Option<Vec<u8>>) -> (r: Response)
    ensures
        r@ == file_served(
            match contents {
                Some(bytes) => Some(bytes@),
                None => None,
            },
        ),
{
    proof {
        reveal_strlit("application/octet-stream");
    }
    match contents {
        Some(bytes) => respond_body(Status::Success, text_bytes("application/octet-stream"), bytes),
        None => respond_body(Status::NotFound, text_bytes("application/octet-stream"), Vec::new()),
    }
}

/// The body that a file write stores: the `declared` bytes that follow the
/// head, where the request declares a length and that many bytes were
/// received behind the head.
pub open spec fn stored_body(request: RequestModel, received: Seq<u8>) -> Option<Seq<u8>> {
    match lookup(request.headers, ascii("content-length"@)) {
        None => None,
        Some(value) => match declared_length(value) {
            None => None,
            Some(length) => if request.body_offset + length <= received.len() {
                Some(
                    received.subrange(
                        request.body_offset as int,
                        request.body_offset + length as int,
                    ),
                )
            } else {
                None
            },
        },
    }
}

/// Cuts the body of a file write out of the receive buffer, of which the
/// first `received` bytes are valid. Gives `None` where the request declares
/// no length, declares one that is no number, or declares more bytes than
/// were received.
pub fn file_body(request: &Request, buf: &[u8], received: usize) -> (r: Option<Vec<u8>>)
    requires
        received <= buf@.len(),
    ensures
        match r {
            Some(body) => stored_body(request@, buf@.take(received as int)) == Some(body@),
            None => stored_body(request@, buf@.take(received as int)) is None,
        },
{
    proof {
        reveal_strlit("content-length");
    }
    let name = text_bytes("content-length");
    match find_header(&request.headers, name.as_slice()) {
        None => None,
        Some(value) => match parse_length(value.as_slice()) {
            None => None,
            Some(length) => {
                if request.body_offset <= received && length <= received - request.body_offset {
                    let body = slice_of(buf, request.body_offset, request.body_offset + length);
                    assert(body@ =~= buf@.take(received as int).subrange(
                        request.body_offset as int,
                        request.body_offset + length as int,
                    ));
                    Some(body)
                } else {
                    None
                }
            },
        },
    }
}

/// What the file-write route answers when no body could be cut out.
pub open spec fn write_refused() -> ResponseModel {
    with_body(Status::BadRequest, octet_stream(), Seq::empty())
}

/// What the file-write route answers once storage has taken the body.
pub open spec fn write_done() -> ResponseModel {
    with_body(Status::Created, octet_stream(), Seq::empty())
}

/// Answers a file write that could not be carried out for want of a body.
pub fn respond_bad_request() -> (r: Response)
    ensures
        r@ == write_refused(),
{
    proof {
        reveal_strlit("application/octet-stream");
    }
    respond_body(Status::BadRequest, text_bytes("application/octet-stream"), Vec::new())
}

/// Answers a file write that storage has carried out.
pub fn respond_file_put() -> (r: Response)
    ensures
        r@ == write_done(),
{
    proof {
        reveal_strlit("application/octet-stream");
    }
    respond_body(Status::Created, text_bytes("application/octet-stream"), Vec::new())
}

/// What a `POST` to an unknown path gets: a 404 in plain text, without body.
pub open spec fn not_found_plain() -> ResponseModel {
    with_body(Status::NotFound, text_plain(), Seq::empty())
}

/// Answers a `POST` to an unknown path.
pub fn respond_not_found_plain() -> (r: Response)
    ensures
        r@ == not_found_plain(),
{
    proof {
        reveal_strlit("text/plain");
    }
    respond_body(Status::NotFound, text_bytes("text/plain"), Vec::new())
}

/// A response built by `with_body` declares the length of its body.
pub proof fn lemma_with_body_declares_length(status: Status, media: Seq<u8>, body: Seq<u8>)
    ensures
        with_body(status, media, body).length_consistent(),
        lookup(with_body(status, media, body).headers, content_length_name()) == Some(
            decimal(body.len()),
        ),
{
    reveal_strlit("Content-Type");
    reveal_strlit("Content-Length");
    let headers = with_body(status, media, body).headers;
    assert(headers[0].name.len() != content_length_name().len());
    assert(headers.skip(1)[0] == headers[1]);
    reveal_with_fuel(lookup, 3);
}

/// A gzip echo declares the length of the compressed body.
pub proof fn lemma_gzip_body_declares_length(compressed: Seq<u8>)
    ensures
        gzip_body(compressed).length_consistent(),
        lookup(gzip_body(compressed).headers, content_length_name()) == Some(
            decimal(compressed.len()),
        ),
{
    reveal_strlit("Content-Encoding");
    reveal_strlit("Content-Type");
    reveal_strlit("Content-Length");
    let headers = gzip_body(compressed).headers;
    assert(headers[0].name.len() != content_length_name().len());
    assert(headers[1].name.len() != content_length_name().len());
    assert(headers.skip(1)[0] == headers[1]);
    assert(headers.skip(1).skip(1)[0] == headers[2]);
    reveal_with_fuel(lookup, 4);
}

/// Whatever the echo route answers, the declared length is that of the body
/// sent: of the rest of the path where it goes out as it is, of the gzip
/// container where it was compressed.
pub proof fn lemma_echo_declares_length(rest: Seq<u8>, headers: Seq<HeaderModel>)
    ensures
        echoed(rest, headers) matches Ok(response) ==> response.length_consistent(),
{
    lemma_with_body_declares_length(Status::Success, text_plain(), rest);
    lemma_gzip_body_declares_length(gzip_of(rest));
}

/// An echo answer is compressed exactly when the request lists gzip, and
/// only then does it declare an encoding.
pub proof fn lemma_echo_encoding(rest: Seq<u8>, headers: Seq<HeaderModel>)
    ensures
        echoed(rest, headers) matches Ok(response) ==> {
            let gzip = lookup(headers, ascii("accept-encoding"@)) matches Some(value) && negotiated(
                value,
            ) == Ok::<bool, ParseError>(true);
            &&& gzip ==> response.body == gzip_of(rest) && lookup(
                response.headers,
                content_encoding_name(),
            ) == Some(ascii("gzip"@))
            &&& !gzip ==> response.body == rest && lookup(
                response.headers,
                content_encoding_name(),
            ) is None
        },
{
    reveal_strlit("Content-Encoding");
    reveal_strlit("Content-Type");
    reveal_strlit("Content-Length");
    reveal_with_fuel(lookup, 4);
    let plain = with_body(Status::Success, text_plain(), rest).headers;
    assert(plain[0].name.len() != content_encoding_name().len());
    assert(plain[1].name.len() != content_encoding_name().len());
    assert(plain.skip(1)[0] == plain[1]);
    assert(plain.skip(1).skip(1).len() == 0);
}

} // verus!
