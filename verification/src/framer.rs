//! The response framer: from a response to the bytes on the wire.

use vstd::prelude::*;
use crate::message::{HeaderModel, Response, ResponseModel, Status, models};
use crate::text::{append, append_text, ascii};

verus! {

/// The status line: protocol version, code, reason phrase, line end.
pub open spec fn status_line(status: Status) -> Seq<u8> {
    ascii("HTTP/1.1 "@) + status.code() + ascii(" "@) + status.reason() + ascii("\r\n"@)
}

/// One header line: name, colon and space, value, line end.
pub open spec fn header_line(h: HeaderModel) -> Seq<u8> {
    h.name + ascii(": "@) + h.value + ascii("\r\n"@)
}

/// The header lines, in the order of the headers.
pub open spec fn header_block(headers: Seq<HeaderModel>) -> Seq<u8>
    decreases headers.len(),
{
    if headers.len() == 0 {
        Seq::empty()
    } else {
        header_block(headers.drop_last()) + header_line(headers.last())
    }
}

/// The head of a response: status line, header lines, and the blank line
/// that ends them.
pub open spec fn framed_head(r: ResponseModel) -> Seq<u8> {
    status_line(r.status) + header_block(r.headers) + ascii("\r\n"@)
}

/// A response on the wire: its head, then the body as it is.
pub open spec fn framed(r: ResponseModel) -> Seq<u8> {
    framed_head(r) + r.body
}

/// Serialises a response. The body goes out byte for byte.
pub fn frame(response: &Response) -> (out: Vec<u8>)
    ensures
        out@ == framed(response@),
{
    proof {
        reveal_strlit("HTTP/1.1 ");
        reveal_strlit(" ");
        reveal_strlit("\r\n");
        reveal_strlit(": ");
    }
    let mut out: Vec<u8> = Vec::new();
    append_text(&mut out, "HTTP/1.1 ");
    let code = response.status.code_text();
    append(&mut out, code.as_slice());
    append_text(&mut out, " ");
    let reason = response.status.reason_text();
    append(&mut out, reason.as_slice());
    append_text(&mut out, "\r\n");
    assert(out@ =~= status_line(response.status));
    let ghost all = models(response.headers@);
    let mut i: usize = 0;
    assert(all.take(0) =~= Seq::<HeaderModel>::empty());
    while i < response.headers.len()
        invariant
            i <= response.headers.len(),
            all == models(response.headers@),
            out@ == status_line(response.status) + header_block(all.take(i as int)),
        decreases response.headers.len() - i,
    {
        proof {
            reveal_strlit(": ");
            reveal_strlit("\r\n");
        }
        let h = &response.headers[i];
        let ghost before = out@;
        append(&mut out, h.name.as_slice());
        append_text(&mut out, ": ");
        append(&mut out, h.value.as_slice());
        append_text(&mut out, "\r\n");
        proof {
            let t = all.take(i + 1);
            assert(t.drop_last() =~= all.take(i as int));
            assert(t.last() == h@);
            assert(out@ =~= before + header_line(h@));
            assert(out@ =~= status_line(response.status) + header_block(t));
        }
        i += 1;
    }
    assert(all.take(i as int) =~= all);
    append_text(&mut out, "\r\n");
    append(&mut out, response.body.as_slice());
    assert(out@ =~= framed(response@));
    out
}

/// The body is the tail of the framed response: nothing follows it, and the
/// head before it does not depend on what the body holds.
pub proof fn lemma_body_is_tail(r: ResponseModel)
    ensures
        framed(r).len() == framed_head(r).len() + r.body.len(),
        framed(r).skip(framed_head(r).len() as int) == r.body,
        framed(r).take(framed_head(r).len() as int) == framed_head(r),
{
    assert(framed(r).skip(framed_head(r).len() as int) =~= r.body);
    assert(framed(r).take(framed_head(r).len() as int) =~= framed_head(r));
}

} // verus!
