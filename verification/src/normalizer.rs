//! Message normalization: the body-length resolution rules of HTTP
//! semantics, and the request formatter that validates and completes a
//! request before it is sent.

use vstd::prelude::*;

verus! {

use crate::bytes::ascii_seq;
use crate::error::{ErrorKind, HttpClientError};
use crate::headers::{spec_get, spec_value_has};
use crate::method::Method;
use crate::num::{spec_is_dec, spec_dec_val, parse_u64_dec};
use crate::request::Request;
use crate::response::ResponsePart;
use crate::version::Version;

/// How a response body's extent is determined.
#[derive(PartialEq, Eq, Structural, Clone, Copy, Debug)]
pub enum BodyLength {
    /// No body, whatever the headers say.
    Zero,
    /// Exactly this many bytes follow the head.
    Fixed(u64),
    /// The body is chunk-framed and ends at the zero chunk.
    Chunked,
    /// The body ends when the peer closes the connection.
    UntilClose,
}

/// Whether HTTP semantics force an empty body: a `HEAD` request, a 1xx, 204
/// or 304 status, or a 2xx answer to `CONNECT`.
pub open spec fn spec_zero_forced(method: Method, status: u16) -> bool {
    method == Method::Head || (100 <= status < 200) || status == 204 || status == 304 || (method
        == Method::Connect && 200 <= status < 300)
}

/// The body length a response resolves to, or `None` when the
/// `Content-Length` consulted is malformed.
///
/// The order of the rules is part of the contract: a forced-empty body wins
/// over any header; `Transfer-Encoding: chunked` wins over `Content-Length`;
/// a lone well-formed `Content-Length` gives a fixed extent; with no framing
/// header at all the body runs until the connection closes.
pub open spec fn spec_resolve_body_length(
    method: Method,
    status: u16,
    hs: Seq<(Seq<u8>, Seq<u8>)>,
) -> Option<BodyLength> {
    if spec_zero_forced(method, status) {
        Some(BodyLength::Zero)
    } else if spec_value_has(hs, ascii_seq("Transfer-Encoding"@), ascii_seq("chunked"@)) {
        Some(BodyLength::Chunked)
    } else {
        match spec_get(hs, ascii_seq("Content-Length"@)) {
            Some(v) => if spec_is_dec(v) && spec_dec_val(v) <= u64::MAX {
                Some(BodyLength::Fixed(spec_dec_val(v) as u64))
            } else {
                None
            },
            None => Some(BodyLength::UntilClose),
        }
    }
}

/// Resolves the body length of a response to `method`; a malformed
/// `Content-Length` is an error, never a fallback.
pub fn resolve_body_length(method: Method, part: &ResponsePart) -> (r: Result<
    BodyLength,
    HttpClientError,
>)
    ensures
        match r {
            Ok(bl) => spec_resolve_body_length(method, part.status, part.headers@) == Some(bl),
            Err(e) => spec_resolve_body_length(method, part.status, part.headers@) == None::<
                BodyLength,
            > && e.kind() == ErrorKind::Request,
        },
{
    proof {
        reveal_strlit("Transfer-Encoding");
        reveal_strlit("chunked");
        reveal_strlit("Content-Length");
    }
    let status = part.status;
    let zero_forced = match method {
        Method::Head => true,
        Method::Connect => 200 <= status && status < 300,
        _ => false,
    } || (100 <= status && status < 200) || status == 204 || status == 304;
    if zero_forced {
        return Ok(BodyLength::Zero);
    }
    let mut te_name: Vec<u8> = Vec::new();
    crate::bytes::push_ascii(&mut te_name, "Transfer-Encoding");
    let mut chunked: Vec<u8> = Vec::new();
    crate::bytes::push_ascii(&mut chunked, "chunked");
    if part.headers.value_has(te_name.as_slice(), chunked.as_slice()) {
        return Ok(BodyLength::Chunked);
    }
    let mut cl_name: Vec<u8> = Vec::new();
    crate::bytes::push_ascii(&mut cl_name, "Content-Length");
    match part.headers.get(cl_name.as_slice()) {
        Some(v) => match parse_u64_dec(v.as_slice()) {
            Some(n) => Ok(BodyLength::Fixed(n)),
            None => Err(
                HttpClientError::new(ErrorKind::Request, "invalid content-length value"),
            ),
        },
        None => Ok(BodyLength::UntilClose),
    }
}

/// Whether a method may be written on an HTTP/1.0 request line; HTTP/1.0
/// names only `GET`, `HEAD` and `POST`.
pub open spec fn spec_method_in_version(method: Method, version: Version) -> bool {
    match version {
        Version::Http1_1 => true,
        Version::Http1_0 => method == Method::Get || method == Method::Head || method
            == Method::Post,
    }
}

/// Validates a request and completes it for sending: a method outside the
/// request's version is refused, and a missing `Host` field is filled in
/// from the target's authority.
pub fn format_request(request: &mut Request) -> (r: Result<(), HttpClientError>)
    ensures
        final(request).method == old(request).method,
        final(request).uri == old(request).uri,
        final(request).version == old(request).version,
        final(request).body == old(request).body,
        match r {
            Ok(()) => spec_method_in_version(old(request).method, old(request).version) && (
            if spec_get(old(request).headers@, ascii_seq("Host"@)) is Some {
                final(request).headers@ == old(request).headers@
            } else {
                final(request).headers@ == old(request).headers@.push(
                    (ascii_seq("Host"@), old(request).uri.spec_authority()),
                )
            }),
            Err(e) => !spec_method_in_version(old(request).method, old(request).version)
                && e.kind() == ErrorKind::Request && e.msg() == "Unknown METHOD in HTTP/1.0"@
                && final(request).headers@ == old(request).headers@,
        },
{
    proof {
        reveal_strlit("Host");
    }
    let ok = match request.version {
        Version::Http1_1 => true,
        Version::Http1_0 => match request.method {
            Method::Get | Method::Head | Method::Post => true,
            _ => false,
        },
    };
    if !ok {
        return Err(HttpClientError::new(ErrorKind::Request, "Unknown METHOD in HTTP/1.0"));
    }
    let mut host_name: Vec<u8> = Vec::new();
    crate::bytes::push_ascii(&mut host_name, "Host");
    if !request.headers.contains(host_name.as_slice()) {
        let authority = request.uri.authority_bytes();
        request.headers.push(host_name, authority);
    }
    Ok(())
}

/// Forced-empty bodies win over every header: for a response to `HEAD`,
/// with a 1xx, 204 or 304 status, or a 2xx answer to `CONNECT`, the
/// resolved body length is `Zero`, whatever `Content-Length` or
/// `Transfer-Encoding` says.
pub proof fn lemma_forced_zero_body(method: Method, status: u16, hs: Seq<(Seq<u8>, Seq<u8>)>)
    requires
        spec_zero_forced(method, status),
    ensures
        spec_resolve_body_length(method, status, hs) == Some(BodyLength::Zero),
{
}

/// Chunked transfer coding wins over `Content-Length`: whenever both
/// framing headers are present and no empty body is forced, the resolved
/// body length is `Chunked`.
pub proof fn lemma_chunked_wins(method: Method, status: u16, hs: Seq<(Seq<u8>, Seq<u8>)>)
    requires
        !spec_zero_forced(method, status),
        spec_value_has(hs, ascii_seq("Transfer-Encoding"@), ascii_seq("chunked"@)),
    ensures
        spec_resolve_body_length(method, status, hs) == Some(BodyLength::Chunked),
{
}

/// A malformed `Content-Length` consulted for framing is an error, never a
/// silent fall back to reading until the connection closes.
pub proof fn lemma_malformed_content_length_is_error(
    method: Method,
    status: u16,
    hs: Seq<(Seq<u8>, Seq<u8>)>,
    v: Seq<u8>,
)
    requires
        !spec_zero_forced(method, status),
        !spec_value_has(hs, ascii_seq("Transfer-Encoding"@), ascii_seq("chunked"@)),
        spec_get(hs, ascii_seq("Content-Length"@)) == Some(v),
        !(spec_is_dec(v) && spec_dec_val(v) <= u64::MAX),
    ensures
        spec_resolve_body_length(method, status, hs) is None,
{
}

} // verus!
