//! The request encoder: the wire form of a request head and body, and a
//! resumable cursor over the head's bytes.

use vstd::prelude::*;

verus! {

use crate::bytes::ascii_seq;
use crate::headers::Headers;
use crate::method::Method;
use crate::request::Request;
use crate::uri::Uri;
use crate::version::Version;
use crate::num::spec_hex_of;

/// The line terminator.
pub open spec fn spec_crlf() -> Seq<u8> {
    seq!['\r' as u8, '\n' as u8]
}

/// One header field on the wire: `name: value` and a line end.
pub open spec fn spec_header_field(name: Seq<u8>, value: Seq<u8>) -> Seq<u8> {
    name + seq![':' as u8, ' ' as u8] + value + spec_crlf()
}

/// The header block on the wire, fields in order.
pub open spec fn spec_header_block(hs: Seq<(Seq<u8>, Seq<u8>)>) -> Seq<u8>
    decreases hs.len(),
{
    if hs.len() == 0 {
        Seq::empty()
    } else {
        spec_header_field(hs[0].0, hs[0].1) + spec_header_block(hs.skip(1))
    }
}

pub proof fn lemma_header_block_snoc(hs: Seq<(Seq<u8>, Seq<u8>)>, i: int)
    requires
        0 <= i < hs.len(),
    ensures
        spec_header_block(hs.take(i + 1)) == spec_header_block(hs.take(i)) + spec_header_field(
            hs[i].0,
            hs[i].1,
        ),
    decreases i,
{
    let a = hs.take(i + 1);
    let b = hs.take(i);
    if i == 0 {
        assert(a.skip(1) =~= Seq::<(Seq<u8>, Seq<u8>)>::empty());
        assert(a.len() == 1 && a[0] == hs[0]);
        assert(spec_header_block(a) == spec_header_field(a[0].0, a[0].1) + spec_header_block(
            a.skip(1),
        ));
        assert(spec_header_block(a) =~= spec_header_field(hs[0].0, hs[0].1));
        assert(b.len() == 0);
        assert(spec_header_block(b) + spec_header_field(hs[0].0, hs[0].1) =~= spec_header_field(
            hs[0].0,
            hs[0].1,
        ));
    } else {
        lemma_header_block_snoc(hs.skip(1), i - 1);
        assert(a.skip(1) =~= hs.skip(1).take(i));
        assert(b.skip(1) =~= hs.skip(1).take(i - 1));
        assert(a[0] == hs[0] && b[0] == hs[0]);
        assert(spec_header_block(a) == spec_header_field(hs[0].0, hs[0].1) + spec_header_block(
            hs.skip(1).take(i),
        ));
        assert(spec_header_block(b) == spec_header_field(hs[0].0, hs[0].1) + spec_header_block(
            hs.skip(1).take(i - 1),
        ));
        assert(hs.skip(1)[i - 1] == hs[i]);
        assert(spec_header_block(a) =~= spec_header_block(b) + spec_header_field(
            hs[i].0,
            hs[i].1,
        ));
    }
}

/// The request target written on the request line: origin form, or absolute
/// form through a plaintext proxy.
pub open spec fn spec_request_target(u: Uri, absolute: bool) -> Seq<u8> {
    if absolute {
        u.spec_absolute_form()
    } else {
        u.path@
    }
}

/// The request line.
pub open spec fn spec_request_line(m: Method, u: Uri, v: Version, absolute: bool) -> Seq<u8> {
    m.wire() + seq![' ' as u8] + spec_request_target(u, absolute) + seq![' ' as u8] + v.wire()
        + spec_crlf()
}

/// The whole request head: request line, header block, empty line.
pub open spec fn spec_request_head(
    m: Method,
    u: Uri,
    v: Version,
    hs: Seq<(Seq<u8>, Seq<u8>)>,
    absolute: bool,
) -> Seq<u8> {
    spec_request_line(m, u, v, absolute) + spec_header_block(hs) + spec_crlf()
}

/// Writes the request head of `req` into one buffer.
pub fn build_request_head(req: &Request, absolute: bool) -> (r: Vec<u8>)
    ensures
        r@ == spec_request_head(req.method, req.uri, req.version, req.headers@, absolute),
{
    let mut out: Vec<u8> = Vec::new();
    let mut tok = req.method.bytes();
    out.append(&mut tok);
    out.push(' ' as u8);
    if absolute {
        let mut t = req.uri.absolute_form();
        out.append(&mut t);
    } else {
        crate::bytes::push_bytes(&mut out, req.uri.path.as_slice());
    }
    out.push(' ' as u8);
    let mut vtok = req.version.bytes();
    out.append(&mut vtok);
    out.push('\r' as u8);
    out.push('\n' as u8);
    proof {
        assert(out@ =~= spec_request_line(req.method, req.uri, req.version, absolute));
    }
    let ghost line = out@;
    let n = req.headers.len();
    let mut i: usize = 0;
    proof {
        assert(req.headers@.take(0) =~= Seq::<(Seq<u8>, Seq<u8>)>::empty());
    }
    while i < n
        invariant
            n == req.headers@.len(),
            i <= n,
            out@ == line + spec_header_block(req.headers@.take(i as int)),
        decreases n - i,
    {
        crate::bytes::push_bytes(&mut out, req.headers.name_at(i).as_slice());
        out.push(':' as u8);
        out.push(' ' as u8);
        crate::bytes::push_bytes(&mut out, req.headers.value_at(i).as_slice());
        out.push('\r' as u8);
        out.push('\n' as u8);
        proof {
            lemma_header_block_snoc(req.headers@, i as int);
            assert(out@ =~= line + spec_header_block(req.headers@.take(i + 1)));
        }
        i += 1;
    }
    out.push('\r' as u8);
    out.push('\n' as u8);
    proof {
        assert(req.headers@.take(i as int) =~= req.headers@);
        assert(out@ =~= spec_request_head(req.method, req.uri, req.version, req.headers@, absolute));
    }
    out
}

/// A resumable cursor over an encoded request head. Each call hands out the
/// next run of bytes; an empty run signals completion, so a caller that
/// writes in bounded pieces can resume after a partial write.
pub struct RequestEncoder {
    head: Vec<u8>,
    pos: usize,
}

impl RequestEncoder {
    /// The bytes this encoder serializes.
    pub closed spec fn wire(&self) -> Seq<u8> {
        self.head@
    }

    /// How many bytes have been handed out already.
    pub closed spec fn cursor(&self) -> int {
        self.pos as int
    }

    /// The cursor never passes the end.
    pub open spec fn wf(&self) -> bool {
        0 <= self.cursor() <= self.wire().len()
    }

    /// Starts encoding the head of `req`; absolute-form targets are chosen
    /// by the caller when the connection runs through a plaintext proxy.
    pub fn new(req: &Request, absolute: bool) -> (r: RequestEncoder)
        ensures
            r.wire() == spec_request_head(req.method, req.uri, req.version, req.headers@, absolute),
            r.cursor() == 0,
            r.wf(),
    {
        RequestEncoder { head: build_request_head(req, absolute), pos: 0 }
    }

    /// Hands out at most `max` of the bytes that remain, advancing the
    /// cursor; an empty result means the head is fully encoded.
    pub fn encode(&mut self, max: usize) -> (r: Vec<u8>)
        requires
            old(self).wf(),
        ensures
            final(self).wf(),
            final(self).wire() == old(self).wire(),
            final(self).cursor() == old(self).cursor() + r@.len(),
            r@ == old(self).wire().subrange(
                old(self).cursor(),
                old(self).cursor() + r@.len(),
            ),
            r@.len() == vstd::math::min(max as int, old(self).wire().len() - old(self).cursor()),
    {
        let remaining = self.head.len() - self.pos;
        let n = if max < remaining {
            max
        } else {
            remaining
        };
        let r = crate::bytes::subvec(self.head.as_slice(), self.pos, self.pos + n);
        self.pos = self.pos + n;
        r
    }
}

/// The chunk framing of a request body sent with `Transfer-Encoding:
/// chunked`: one data chunk when there is data, then the zero chunk.
pub open spec fn spec_chunked_frame(data: Seq<u8>) -> Seq<u8> {
    if data.len() == 0 {
        ascii_seq("0"@) + spec_crlf() + spec_crlf()
    } else {
        spec_hex_of(data.len() as int) + spec_crlf() + data + spec_crlf() + ascii_seq("0"@)
            + spec_crlf() + spec_crlf()
    }
}

/// Writes the chunk framing of `data`.
pub fn build_chunked_frame(data: &[u8]) -> (r: Vec<u8>)
    ensures
        r@ == spec_chunked_frame(data@),
{
    proof {
        reveal_strlit("0");
    }
    let mut out: Vec<u8> = Vec::new();
    if data.len() > 0 {
        let mut size = crate::num::to_hex_u64(data.len() as u64);
        out.append(&mut size);
        out.push('\r' as u8);
        out.push('\n' as u8);
        crate::bytes::push_bytes(&mut out, data);
        out.push('\r' as u8);
        out.push('\n' as u8);
    }
    crate::bytes::push_ascii(&mut out, "0");
    out.push('\r' as u8);
    out.push('\n' as u8);
    out.push('\r' as u8);
    out.push('\n' as u8);
    proof {
        assert(out@ =~= spec_chunked_frame(data@));
    }
    out
}

/// A header field that reads back exactly as written: the name is nonempty
/// and free of colons and line ends; the value is free of line ends and
/// carries no whitespace at its ends.
pub open spec fn spec_header_wf(name: Seq<u8>, value: Seq<u8>) -> bool {
    name.len() > 0 && (forall|i: int|
        0 <= i < name.len() ==> #[trigger] name[i] != ':' as u8 && name[i] != '\r' as u8
            && name[i] != '\n' as u8) && (forall|i: int|
        0 <= i < value.len() ==> #[trigger] value[i] != '\r' as u8 && value[i] != '\n' as u8) && (
    value.len() > 0 ==> !crate::bytes::spec_is_ows(value[0]) && !crate::bytes::spec_is_ows(
        value[value.len() - 1],
    ))
}

} // verus!
