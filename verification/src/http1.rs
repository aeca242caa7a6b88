//! The HTTP/1.x exchange: sends one request over a connection, decodes the
//! response head, applies the keep-alive rules, and hands back the head
//! with a body handle.

use vstd::prelude::*;

verus! {

use crate::body::Body;
use crate::bytes::{ascii_seq, spec_has_substring};
use crate::conn::Conn;
use crate::decoder::{HeadParse, ResponseDecoder, spec_parse_head, lemma_parse_head_mono};
use crate::encoder::{
    RequestEncoder,
    spec_request_head,
    spec_chunked_frame,
    build_chunked_frame,
};
use crate::error::{ErrorKind, HttpClientError};
use crate::headers::{spec_get, spec_value_has};
use crate::http_body::HttpBody;
use crate::method::Method;
use crate::normalizer::{BodyLength, resolve_body_length, spec_resolve_body_length};
use crate::request::Request;
use crate::response::ResponsePart;
use crate::uri::Scheme;
use crate::version::Version;

/// How many bytes are moved at once between the codec and the connection.
pub const TEMP_BUF_SIZE: usize = 16384;

/// Whether the request line carries the absolute-form target: only through
/// a plaintext proxy.
pub open spec fn spec_use_absolute(conn: Conn, req: Request) -> bool {
    conn.spec_is_proxy() && req.uri.scheme == Scheme::Http
}

/// The framing of the request body on the wire: chunk framing when
/// `Transfer-Encoding: chunked` was set, the plain bytes otherwise — also
/// when no framing header is present at all, where an empty body writes no
/// bytes.
pub open spec fn spec_body_frame(hs: Seq<(Seq<u8>, Seq<u8>)>, data: Seq<u8>) -> Seq<u8> {
    if spec_value_has(hs, ascii_seq("Transfer-Encoding"@), ascii_seq("chunked"@)) {
        spec_chunked_frame(data)
    } else {
        data
    }
}

/// Whether the response forbids reusing the connection: an HTTP/1.0
/// response without `Connection: keep-alive`, or an HTTP/1.1 response with
/// `Connection: close`.
pub open spec fn spec_must_shutdown(v: Version, hs: Seq<(Seq<u8>, Seq<u8>)>) -> bool {
    match spec_get(hs, ascii_seq("Connection"@)) {
        None => v == Version::Http1_0,
        Some(val) => if v == Version::Http1_0 {
            !spec_has_substring(val, ascii_seq("keep-alive"@))
        } else {
            spec_has_substring(val, ascii_seq("close"@))
        },
    }
}

/// Writes the request line and headers, resuming over a bounded buffer
/// until the encoder reports completion.
fn encode_request_part(request: &Request, conn: &mut Conn)
    ensures
        final(conn).input() == old(conn).input(),
        final(conn).taken() == old(conn).taken(),
        final(conn).spec_is_proxy() == old(conn).spec_is_proxy(),
        final(conn).spec_is_tls() == old(conn).spec_is_tls(),
        final(conn).spec_shutdown() == old(conn).spec_shutdown(),
        final(conn).wf() == old(conn).wf(),
        final(conn).output() == old(conn).output() + spec_request_head(
            request.method,
            request.uri,
            request.version,
            request.headers@,
            old(conn).spec_is_proxy() && request.uri.scheme == Scheme::Http,
        ),
{
    let ghost c0 = *conn;
    let absolute = conn.is_proxy() && match request.uri.scheme {
        Scheme::Http => true,
        Scheme::Https => false,
    };
    let mut part_encoder = RequestEncoder::new(request, absolute);
    let ghost wire = part_encoder.wire();
    proof {
        assert(conn.output() =~= c0.output() + wire.take(0));
    }
    loop
        invariant
            c0 == *old(conn),
            part_encoder.wf(),
            part_encoder.wire() == wire,
            wire == spec_request_head(
                request.method,
                request.uri,
                request.version,
                request.headers@,
                c0.spec_is_proxy() && request.uri.scheme == Scheme::Http,
            ),
            conn.wf() == c0.wf(),
            conn.input() == c0.input(),
            conn.taken() == c0.taken(),
            conn.spec_is_proxy() == c0.spec_is_proxy(),
            conn.spec_is_tls() == c0.spec_is_tls(),
            conn.spec_shutdown() == c0.spec_shutdown(),
            conn.output() == c0.output() + wire.take(part_encoder.cursor()),
        decreases wire.len() - part_encoder.cursor(),
    {
        let chunk = part_encoder.encode(TEMP_BUF_SIZE);
        if chunk.len() == 0 {
            proof {
                assert(part_encoder.cursor() == wire.len());
                assert(wire.take(part_encoder.cursor()) =~= wire);
            }
            return;
        }
        conn.write_all(chunk.as_slice());
        proof {
            assert(c0.output() + wire.take(part_encoder.cursor()) =~= (c0.output() + wire.take(
                part_encoder.cursor() - chunk@.len(),
            )) + chunk@);
        }
    }
}

/// Pulls the request body's bytes from their producer, classifying a
/// producer that gives up as a user abort and shutting the connection down
/// before that error propagates.
fn read_body_result(conn: &mut Conn, body: &Body) -> (r: Result<Vec<u8>, HttpClientError>)
    ensures
        final(conn).input() == old(conn).input(),
        final(conn).taken() == old(conn).taken(),
        final(conn).output() == old(conn).output(),
        final(conn).spec_is_proxy() == old(conn).spec_is_proxy(),
        final(conn).spec_is_tls() == old(conn).spec_is_tls(),
        final(conn).wf() == old(conn).wf(),
        match r {
            Ok(b) => !body.spec_aborts() && b@ == body.spec_bytes() && final(conn).spec_shutdown()
                == old(conn).spec_shutdown(),
            Err(e) => body.spec_aborts() && e.kind() == ErrorKind::UserAborted && final(conn).spec_shutdown(),
        },
{
    match body {
        Body::Empty => Ok(Vec::new()),
        Body::Slice { data } => Ok(crate::bytes::subvec(data.as_slice(), 0, data.len())),
        Body::Reader { data, abort } => {
            if *abort {
                conn.shutdown();
                Err(HttpClientError::user_aborted())
            } else {
                Ok(crate::bytes::subvec(data.as_slice(), 0, data.len()))
            }
        },
    }
}

/// Sends the request body under the framing its headers chose.
fn encode_various_body(request: &Request, conn: &mut Conn) -> (r: Result<(), HttpClientError>)
    ensures
        final(conn).input() == old(conn).input(),
        final(conn).taken() == old(conn).taken(),
        final(conn).spec_is_proxy() == old(conn).spec_is_proxy(),
        final(conn).spec_is_tls() == old(conn).spec_is_tls(),
        final(conn).wf() == old(conn).wf(),
        match r {
            Ok(()) => !request.body.spec_aborts() && final(conn).output() == old(conn).output()
                + spec_body_frame(request.headers@, request.body.spec_bytes()) && final(conn).spec_shutdown() == old(conn).spec_shutdown(),
            Err(e) => request.body.spec_aborts() && e.kind() == ErrorKind::UserAborted && final(conn).spec_shutdown() && final(conn).output() == old(conn).output(),
        },
{
    proof {
        reveal_strlit("Transfer-Encoding");
        reveal_strlit("chunked");
    }
    let data = match read_body_result(conn, &request.body) {
        Ok(d) => d,
        Err(e) => {
            return Err(e);
        },
    };
    let mut te_name: Vec<u8> = Vec::new();
    crate::bytes::push_ascii(&mut te_name, "Transfer-Encoding");
    let mut chunked: Vec<u8> = Vec::new();
    crate::bytes::push_ascii(&mut chunked, "chunked");
    if request.headers.value_has(te_name.as_slice(), chunked.as_slice()) {
        let frame = build_chunked_frame(data.as_slice());
        conn.write_all(frame.as_slice());
    } else {
        conn.write_all(data.as_slice());
    }
    Ok(())
}

/// Applies the keep-alive rules to the decoded head, resolves the body
/// length, and binds body and connection together. A malformed
/// `Content-Length` shuts the connection down and is an error.
fn decode_response(method: Method, part: ResponsePart, conn: Conn, pre: Vec<u8>) -> (r: Result<
    (ResponsePart, HttpBody),
    HttpClientError,
>)
    requires
        conn.wf(),
    ensures
        match r {
            Ok((part2, body)) => part2.version == part.version && part2.status == part.status
                && part2.headers@ == part.headers@ && spec_resolve_body_length(
                method,
                part.status,
                part.headers@,
            ) == Some(body.spec_length()) && body.spec_pre() == pre@ && body.spec_conn().input()
                == conn.input() && body.spec_conn().taken() == conn.taken()
                && body.spec_conn().output() == conn.output() && body.spec_conn().spec_is_proxy()
                == conn.spec_is_proxy() && body.spec_conn().spec_is_tls() == conn.spec_is_tls()
                && body.spec_conn().wf() && body.spec_conn().spec_shutdown() == (
            conn.spec_shutdown() || spec_must_shutdown(part.version, part.headers@)),
            Err(e) => spec_resolve_body_length(method, part.status, part.headers@) is None
                && e.kind() == ErrorKind::Request,
        },
{
    proof {
        reveal_strlit("Connection");
        reveal_strlit("keep-alive");
        reveal_strlit("close");
    }
    let mut conn = conn;
    // The keep-alive rules. Shutdown only marks the connection: the body
    // may still drain what already arrived.
    let mut conn_name: Vec<u8> = Vec::new();
    crate::bytes::push_ascii(&mut conn_name, "Connection");
    let mut keep_alive: Vec<u8> = Vec::new();
    crate::bytes::push_ascii(&mut keep_alive, "keep-alive");
    let mut close_tok: Vec<u8> = Vec::new();
    crate::bytes::push_ascii(&mut close_tok, "close");
    let has_conn_header = part.headers.contains(conn_name.as_slice());
    if !has_conn_header {
        if match part.version {
            Version::Http1_0 => true,
            Version::Http1_1 => false,
        } {
            conn.shutdown();
        }
    } else {
        match part.version {
            Version::Http1_0 => {
                if !part.headers.value_has(conn_name.as_slice(), keep_alive.as_slice()) {
                    conn.shutdown();
                }
            },
            Version::Http1_1 => {
                if part.headers.value_has(conn_name.as_slice(), close_tok.as_slice()) {
                    conn.shutdown();
                }
            },
        }
    }
    let length = match resolve_body_length(method, &part) {
        Ok(l) => l,
        Err(e) => {
            conn.shutdown();
            return Err(e);
        },
    };
    let body = HttpBody::new(length, pre, conn);
    Ok((part, body))
}

/// One exchange: writes the request head and body, reads the response head
/// incrementally, applies the keep-alive rules, and returns the parsed head
/// with the body handle. A connection closed before a complete head, a
/// malformed head and a malformed `Content-Length` are errors, and in every
/// error case the connection was shut down before the error is returned.
#[verifier::loop_isolation(false)]
pub fn request(conn: Conn, message: &Request) -> (r: Result<
    (ResponsePart, HttpBody),
    HttpClientError,
>)
    requires
        conn.wf(),
        !conn.spec_shutdown(),
    ensures
        ({
            let rem = conn.input().skip(conn.taken());
            let p = spec_parse_head(rem);
            match r {
                Ok((part, body)) => !message.body.spec_aborts() && p == (HeadParse::Done {
                    version: part.version,
                    status: part.status,
                    fields: part.headers@,
                    rest: body.spec_avail(),
                }) && spec_resolve_body_length(message.method, part.status, part.headers@)
                    == Some(body.spec_length()) && body.spec_conn().output() == conn.output()
                    + spec_request_head(
                    message.method,
                    message.uri,
                    message.version,
                    message.headers@,
                    spec_use_absolute(conn, *message),
                ) + spec_body_frame(message.headers@, message.body.spec_bytes())
                    && body.spec_conn().input() == conn.input() && body.spec_conn().wf()
                    && body.spec_conn().spec_is_proxy() == conn.spec_is_proxy()
                    && body.spec_conn().spec_is_tls() == conn.spec_is_tls()
                    && body.spec_conn().spec_shutdown() == spec_must_shutdown(
                    part.version,
                    part.headers@,
                ),
                Err(e) => (message.body.spec_aborts() ==> e.kind() == ErrorKind::UserAborted) && (
                !message.body.spec_aborts() ==> e.kind() == ErrorKind::Request && (p is Incomplete
                    || p is Malformed || (p is Done && spec_resolve_body_length(
                    message.method,
                    p->Done_status,
                    p->Done_fields,
                ) is None))),
            }
        }),
        ({
            let rem = conn.input().skip(conn.taken());
            let p = spec_parse_head(rem);
            r is Ok <==> (!message.body.spec_aborts() && p is Done && spec_resolve_body_length(
                message.method,
                p->Done_status,
                p->Done_fields,
            ) is Some)
        }),
{
    let ghost c0 = conn;
    let mut conn = conn;
    encode_request_part(message, &mut conn);
    match encode_various_body(message, &mut conn) {
        Ok(()) => {},
        Err(e) => {
            return Err(e);
        },
    }
    let ghost t0 = conn.taken();
    let ghost out0 = conn.output();
    let mut decoder = ResponseDecoder::new();
    proof {
        assert(decoder.buffered() =~= conn.input().subrange(t0, conn.taken()));
        assert(spec_parse_head(decoder.buffered()) is Incomplete);
    }
    loop
        invariant
            conn.wf(),
            !conn.spec_shutdown(),
            conn.input() == c0.input(),
            conn.output() == out0,
            conn.spec_is_proxy() == c0.spec_is_proxy(),
            conn.spec_is_tls() == c0.spec_is_tls(),
            0 <= t0 <= conn.taken() <= conn.input().len(),
            t0 == c0.taken(),
            decoder.buffered() == conn.input().subrange(t0, conn.taken()),
            spec_parse_head(decoder.buffered()) is Incomplete,
            out0 == c0.output() + spec_request_head(
                message.method,
                message.uri,
                message.version,
                message.headers@,
                spec_use_absolute(c0, *message),
            ) + spec_body_frame(message.headers@, message.body.spec_bytes()),
            !message.body.spec_aborts(),
        decreases conn.input().len() - conn.taken(),
    {
        let ghost t1 = conn.taken();
        let chunk = conn.read_chunk(TEMP_BUF_SIZE);
        if chunk.len() == 0 {
            proof {
                assert(conn.taken() == conn.input().len());
                assert(decoder.buffered() =~= c0.input().skip(t0));
            }
            conn.shutdown();
            return Err(HttpClientError::new(ErrorKind::Request, "tcp closed"));
        }
        let ghost buffered0 = decoder.buffered();
        match decoder.decode(chunk.as_slice()) {
            Ok(None) => {
                proof {
                    crate::bytes::lemma_subrange_extend(c0.input(), t0, t1, chunk@.len() as int);
                    assert(decoder.buffered() =~= conn.input().subrange(t0, conn.taken()));
                }
            },
            Ok(Some((part, pre))) => {
                proof {
                    crate::bytes::lemma_subrange_extend(c0.input(), t0, t1, chunk@.len() as int);
                    let b = buffered0 + chunk@;
                    let ext = conn.input().skip(conn.taken());
                    lemma_parse_head_mono(b, ext);
                    assert(b =~= c0.input().subrange(t0, conn.taken()));
                    assert(b + ext =~= c0.input().skip(t0));
                }
                return decode_response_step(message.method, part, conn, pre, Ghost(c0), Ghost(t0));
            },
            Err(e) => {
                proof {
                    crate::bytes::lemma_subrange_extend(c0.input(), t0, t1, chunk@.len() as int);
                    let b = buffered0 + chunk@;
                    let ext = conn.input().skip(conn.taken());
                    lemma_parse_head_mono(b, ext);
                    assert(b =~= c0.input().subrange(t0, conn.taken()));
                    assert(b + ext =~= c0.input().skip(t0));
                }
                conn.shutdown();
                return Err(e);
            },
        }
    }
}

/// Finishes an exchange whose head just decoded: the keep-alive rules and
/// the body-length resolution, with the facts that tie the decoded head to
/// the whole incoming stream.
fn decode_response_step(
    method: Method,
    part: ResponsePart,
    conn: Conn,
    pre: Vec<u8>,
    Ghost(c0): Ghost<Conn>,
    Ghost(t0): Ghost<int>,
) -> (r: Result<(ResponsePart, HttpBody), HttpClientError>)
    requires
        conn.wf(),
        !conn.spec_shutdown(),
        conn.input() == c0.input(),
        spec_parse_head(c0.input().skip(t0)) == (HeadParse::Done {
            version: part.version,
            status: part.status,
            fields: part.headers@,
            rest: pre@ + conn.input().skip(conn.taken()),
        }),
    ensures
        match r {
            Ok((part2, body)) => part2.version == part.version && part2.status == part.status
                && part2.headers@ == part.headers@ && spec_parse_head(c0.input().skip(t0))
                == (HeadParse::Done {
                version: part2.version,
                status: part2.status,
                fields: part2.headers@,
                rest: body.spec_avail(),
            }) && spec_resolve_body_length(method, part.status, part.headers@) == Some(
                body.spec_length(),
            ) && body.spec_conn().input() == conn.input() && body.spec_conn().output()
                == conn.output() && body.spec_conn().wf() && body.spec_conn().spec_is_proxy()
                == conn.spec_is_proxy() && body.spec_conn().spec_is_tls() == conn.spec_is_tls()
                && body.spec_conn().spec_shutdown() == spec_must_shutdown(
                part.version,
                part.headers@,
            ),
            Err(e) => e.kind() == ErrorKind::Request && spec_resolve_body_length(
                method,
                part.status,
                part.headers@,
            ) is None,
        },
{
    let ghost pre0 = pre@;
    match decode_response(method, part, conn, pre) {
        Ok((part2, body)) => {
            proof {
                assert(body.spec_avail() =~= pre0 + c0.input().skip(body.spec_conn().taken()));
            }
            Ok((part2, body))
        },
        Err(e) => Err(e),
    }
}

/// The response an exchange on a stream with `rem` still to arrive yields
/// to a request with this method: the parsed head, and the body bytes
/// under the resolved framing. `None` when the head does not parse, the
/// framing does not resolve, or the stream ends before the body does.
pub open spec fn spec_response_of(rem: Seq<u8>, method: Method) -> Option<
    (Version, u16, Seq<(Seq<u8>, Seq<u8>)>, Seq<u8>),
> {
    match spec_parse_head(rem) {
        HeadParse::Done { version, status, fields, rest } => match spec_resolve_body_length(
            method,
            status,
            fields,
        ) {
            Some(bl) => match bl {
                BodyLength::Zero => Some((version, status, fields, Seq::<u8>::empty())),
                BodyLength::Fixed(n) => if rest.len() >= n {
                    Some((version, status, fields, rest.take(n as int)))
                } else {
                    None
                },
                BodyLength::UntilClose => Some((version, status, fields, rest)),
                BodyLength::Chunked => match crate::http_body::spec_dechunk(rest) {
                    crate::http_body::DechunkParse::Done { data, rest: _ } => Some(
                        (version, status, fields, data),
                    ),
                    _ => None,
                },
            },
            None => None,
        },
        _ => None,
    }
}

} // verus!
