//! The response decoder: an incremental parser for a status line and header
//! block, leftover-aware, and the matching parser for a request head as a
//! server reads it back.

use vstd::prelude::*;

verus! {

use crate::bytes::{
    spec_find,
    lemma_spec_find_bounds,
    lemma_spec_find_is,
    spec_trim,
    find_byte,
    subvec,
    trim_slice,
};
use crate::error::{ErrorKind, HttpClientError};
use crate::headers::Headers;
use crate::method::Method;
use crate::num::{spec_is_dec, spec_dec_val, parse_u64_dec, lemma_dec_val_3};
use crate::response::ResponsePart;
use crate::version::Version;

/// The outcome of splitting one CRLF-terminated line off the front of a
/// byte sequence.
pub enum LineSplit {
    /// No complete line yet: more bytes must arrive.
    Incomplete,
    /// A carriage return not followed by a line feed.
    Malformed,
    /// The line's content and everything after its terminator.
    Line { line: Seq<u8>, rest: Seq<u8> },
}

/// Splits one line off the front of `s`.
pub open spec fn spec_split_line(s: Seq<u8>) -> LineSplit {
    let i = spec_find(s, '\r' as u8);
    if i == s.len() || i + 1 == s.len() {
        LineSplit::Incomplete
    } else if s[i + 1] != '\n' as u8 {
        LineSplit::Malformed
    } else {
        LineSplit::Line { line: s.take(i), rest: s.skip(i + 2) }
    }
}

/// A block whose content holds no carriage return, followed by a line end,
/// splits back into exactly that content.
pub proof fn lemma_split_line_exact(line: Seq<u8>, rest: Seq<u8>)
    requires
        forall|i: int| 0 <= i < line.len() ==> line[i] != '\r' as u8,
    ensures
        spec_split_line(line + crate::encoder::spec_crlf() + rest) == (LineSplit::Line {
            line,
            rest,
        }),
{
    let s = line + crate::encoder::spec_crlf() + rest;
    let tail = seq!['\n' as u8] + rest;
    assert(s =~= line + seq!['\r' as u8] + tail);
    crate::bytes::lemma_spec_find_append(line, '\r' as u8, tail);
    let n = line.len() as int;
    assert(spec_find(s, '\r' as u8) == n);
    assert(s[n + 1] == tail[0]);
    assert(s.take(n) =~= line);
    assert(s.skip(n + 2) =~= rest);
}

/// The outcome of parsing a header block.
pub enum FieldsParse {
    Incomplete,
    Malformed,
    /// The fields in order, and the bytes after the block's empty line.
    Done { fields: Seq<(Seq<u8>, Seq<u8>)>, rest: Seq<u8> },
}

/// Parses header fields until the empty line that ends the block: each line
/// is a name, a colon, and a value with optional whitespace around it.
pub open spec fn spec_parse_fields(s: Seq<u8>) -> FieldsParse
    decreases s.len(),
    via spec_parse_fields_dec
{
    match spec_split_line(s) {
        LineSplit::Incomplete => FieldsParse::Incomplete,
        LineSplit::Malformed => FieldsParse::Malformed,
        LineSplit::Line { line, rest } => {
            if line.len() == 0 {
                FieldsParse::Done { fields: Seq::empty(), rest }
            } else {
                let c = spec_find(line, ':' as u8);
                if c == line.len() || c == 0 {
                    FieldsParse::Malformed
                } else {
                    match spec_parse_fields(rest) {
                        FieldsParse::Incomplete => FieldsParse::Incomplete,
                        FieldsParse::Malformed => FieldsParse::Malformed,
                        FieldsParse::Done { fields, rest: leftover } => FieldsParse::Done {
                            fields: seq![(line.take(c), spec_trim(line.skip(c + 1)))] + fields,
                            rest: leftover,
                        },
                    }
                }
            }
        },
    }
}

#[via_fn]
proof fn spec_parse_fields_dec(s: Seq<u8>) {
    lemma_spec_find_bounds(s, '\r' as u8);
}

/// The meaning of a status line: version and status code. The reason phrase
/// is ignored; the status must be exactly three digits.
pub open spec fn spec_parse_status_line(line: Seq<u8>) -> Option<(Version, u16)> {
    let sp1 = spec_find(line, ' ' as u8);
    if sp1 == line.len() {
        None
    } else {
        let vtok = line.take(sp1);
        let after = line.skip(sp1 + 1);
        let sp2 = spec_find(after, ' ' as u8);
        let stok = after.take(sp2);
        match Version::spec_of(vtok) {
            None => None,
            Some(v) => if stok.len() == 3 && spec_is_dec(stok) {
                Some((v, spec_dec_val(stok) as u16))
            } else {
                None
            },
        }
    }
}

/// The outcome of parsing a response head.
pub enum HeadParse {
    Incomplete,
    Malformed,
    Done { version: Version, status: u16, fields: Seq<(Seq<u8>, Seq<u8>)>, rest: Seq<u8> },
}

/// Parses a complete response head off the front of `s`: status line, header
/// block, empty line; `rest` is the first body bytes that arrived with it.
pub open spec fn spec_parse_head(s: Seq<u8>) -> HeadParse {
    match spec_split_line(s) {
        LineSplit::Incomplete => HeadParse::Incomplete,
        LineSplit::Malformed => HeadParse::Malformed,
        LineSplit::Line { line, rest } => match spec_parse_status_line(line) {
            None => HeadParse::Malformed,
            Some((v, st)) => match spec_parse_fields(rest) {
                FieldsParse::Incomplete => HeadParse::Incomplete,
                FieldsParse::Malformed => HeadParse::Malformed,
                FieldsParse::Done { fields, rest: leftover } => HeadParse::Done {
                    version: v,
                    status: st,
                    fields,
                    rest: leftover,
                },
            },
        },
    }
}

/// First index of `c` in `s` at or after `from`; `s.len()` when absent.
pub fn find_from(s: &[u8], from: usize, c: u8) -> (r: usize)
    requires
        from <= s@.len(),
    ensures
        from <= r <= s@.len(),
        r - from == spec_find(s@.skip(from as int), c),
        r < s@.len() ==> s@[r as int] == c,
{
    proof {
        lemma_spec_find_bounds(s@.skip(from as int), c);
    }
    let mut i = from;
    while i < s.len()
        invariant
            from <= i <= s@.len(),
            forall|j: int| from <= j < i ==> s@[j] != c,
        decreases s@.len() - i,
    {
        if s[i] == c {
            proof {
                let t = s@.skip(from as int);
                assert forall|j: int| 0 <= j < i - from implies t[j] != c by {
                    assert(t[j] == s@[from + j]);
                }
                assert(t[i - from] == c);
                lemma_spec_find_is(t, c, i - from);
            }
            return i;
        }
        i += 1;
    }
    proof {
        let t = s@.skip(from as int);
        if spec_find(t, c) < t.len() {
            let f = spec_find(t, c);
            assert(t[f] == s@[from + f]);
            assert(false);
        }
    }
    s.len()
}

/// An incremental response-head decoder. Each call appends the bytes that
/// just arrived; once a full head is buffered it is parsed, and the bytes
/// after it are handed back for the body reader.
pub struct ResponseDecoder {
    buf: Vec<u8>,
}

impl ResponseDecoder {
    /// Everything received so far.
    pub closed spec fn buffered(&self) -> Seq<u8> {
        self.buf@
    }

    /// A decoder that has seen nothing yet.
    pub fn new() -> (r: ResponseDecoder)
        ensures
            r.buffered() == Seq::<u8>::empty(),
    {
        let r = ResponseDecoder { buf: Vec::new() };
        proof {
            assert(r.buffered() =~= Seq::<u8>::empty());
        }
        r
    }

    /// Appends one arrived chunk and tries to finish the head.
    ///
    /// `Ok(None)` asks for more bytes; `Ok(Some(..))` is the parsed head and
    /// the leftover that belongs to the body; an error is a malformed head.
    pub fn decode(&mut self, chunk: &[u8]) -> (r: Result<
        Option<(ResponsePart, Vec<u8>)>,
        HttpClientError,
    >)
        ensures
            final(self).buffered() == old(self).buffered() + chunk@,
            ({
                let p = spec_parse_head(old(self).buffered() + chunk@);
                match r {
                    Ok(opt) => match opt {
                        None => p is Incomplete,
                        Some((part, pre)) => p == (HeadParse::Done {
                            version: part.version,
                            status: part.status,
                            fields: part.headers@,
                            rest: pre@,
                        }),
                    },
                    Err(e) => p is Malformed && e.kind() == ErrorKind::Request,
                }
            }),
    {
        crate::bytes::push_bytes(&mut self.buf, chunk);
        let ghost whole = self.buf@;
        let len = self.buf.len();
        let cr1 = find_from(self.buf.as_slice(), 0, '\r' as u8);
        proof {
            assert(whole.skip(0) =~= whole);
        }
        if cr1 == len || cr1 + 1 == len {
            return Ok(None);
        }
        if self.buf[cr1 + 1] != '\n' as u8 {
            return Err(HttpClientError::new(ErrorKind::Request, "invalid response head"));
        }
        let line = subvec(self.buf.as_slice(), 0, cr1);
        proof {
            assert(line@ =~= whole.take(cr1 as int));
        }
        // The status line.
        let sp1 = match find_byte(line.as_slice(), ' ' as u8) {
            Some(i) => i,
            None => {
                return Err(HttpClientError::new(ErrorKind::Request, "invalid status line"));
            },
        };
        let vtok = subvec(line.as_slice(), 0, sp1);
        let after = subvec(line.as_slice(), sp1 + 1, line.len());
        proof {
            assert(vtok@ =~= line@.take(spec_find(line@, ' ' as u8)));
            assert(after@ =~= line@.skip(spec_find(line@, ' ' as u8) + 1));
        }
        let sp2 = match find_byte(after.as_slice(), ' ' as u8) {
            Some(i) => i,
            None => after.len(),
        };
        let stok = subvec(after.as_slice(), 0, sp2);
        proof {
            assert(stok@ =~= after@.take(spec_find(after@, ' ' as u8)));
        }
        let version = match Version::from_bytes(vtok.as_slice()) {
            Some(v) => v,
            None => {
                return Err(HttpClientError::new(ErrorKind::Request, "invalid status line"));
            },
        };
        if stok.len() != 3 {
            return Err(HttpClientError::new(ErrorKind::Request, "invalid status code"));
        }
        let status: u16 = match parse_u64_dec(stok.as_slice()) {
            Some(n) => {
                proof {
                    lemma_dec_val_3(stok@);
                }
                n as u16
            },
            None => {
                proof {
                    if spec_is_dec(stok@) {
                        lemma_dec_val_3(stok@);
                    }
                }
                return Err(HttpClientError::new(ErrorKind::Request, "invalid status code"));
            },
        };
        // The header block.
        let mut headers = Headers::new();
        let mut cursor = cr1 + 2;
        proof {
            let q0 = spec_parse_fields(whole.skip(cursor as int));
            match q0 {
                FieldsParse::Done { fields, rest } => {
                    assert(headers@ + fields =~= fields);
                },
                _ => {},
            }
        }
        loop
            invariant
                cursor <= len,
                len == whole.len(),
                self.buf@ == whole,
                whole == old(self).buffered() + chunk@,
                ({
                    let p = spec_parse_head(whole);
                    let q = spec_parse_fields(whole.skip(cursor as int));
                    match q {
                        FieldsParse::Incomplete => p is Incomplete,
                        FieldsParse::Malformed => p is Malformed,
                        FieldsParse::Done { fields, rest } => p == (HeadParse::Done {
                            version,
                            status,
                            fields: headers@ + fields,
                            rest,
                        }),
                    }
                }),
            decreases len - cursor,
        {
            let ghost tail = whole.skip(cursor as int);
            let cr = find_from(self.buf.as_slice(), cursor, '\r' as u8);
            if cr == len || cr + 1 == len {
                return Ok(None);
            }
            if self.buf[cr + 1] != '\n' as u8 {
                return Err(HttpClientError::new(ErrorKind::Request, "invalid header line"));
            }
            proof {
                assert(tail[cr - cursor + 1] == whole[cr + 1]);
            }
            if cr == cursor {
                // The empty line: the head is complete.
                let leftover = subvec(self.buf.as_slice(), cr + 2, len);
                proof {
                    assert(tail.take(0) =~= Seq::<u8>::empty());
                    assert(tail.skip(2) =~= whole.skip(cursor + 2));
                    assert(leftover@ =~= whole.skip(cursor + 2));
                    assert(headers@ + Seq::<(Seq<u8>, Seq<u8>)>::empty() =~= headers@);
                }
                let part = ResponsePart { version, status, headers };
                return Ok(Some((part, leftover)));
            }
            let hline = subvec(self.buf.as_slice(), cursor, cr);
            proof {
                assert(hline@ =~= tail.take(cr - cursor));
            }
            let c = match find_byte(hline.as_slice(), ':' as u8) {
                Some(i) => i,
                None => {
                    return Err(HttpClientError::new(ErrorKind::Request, "invalid header line"));
                },
            };
            if c == 0 {
                return Err(HttpClientError::new(ErrorKind::Request, "invalid header line"));
            }
            let name = subvec(hline.as_slice(), 0, c);
            let value = trim_slice(hline.as_slice(), c + 1, hline.len());
            proof {
                assert(name@ =~= hline@.take(spec_find(hline@, ':' as u8)));
                assert(hline@.subrange(
                    spec_find(hline@, ':' as u8) + 1,
                    hline@.len() as int,
                ) =~= hline@.skip(spec_find(hline@, ':' as u8) + 1));
                assert(tail.skip(cr - cursor + 2) =~= whole.skip(cr + 2));
            }
            let ghost old_headers = headers@;
            headers.push(name, value);
            proof {
                let q2 = spec_parse_fields(whole.skip(cr + 2));
                if q2 is Done {
                    let fields2 = q2->Done_fields;
                    let entry = (
                        hline@.take(spec_find(hline@, ':' as u8)),
                        spec_trim(hline@.skip(spec_find(hline@, ':' as u8) + 1)),
                    );
                    assert(old_headers + (seq![entry] + fields2) =~= headers@ + fields2);
                }
            }
            cursor = cr + 2;
        }
    }
}

/// The meaning of a request line: method, target, version. All three tokens
/// must be present and recognized.
pub open spec fn spec_parse_request_line(line: Seq<u8>) -> Option<(Method, Seq<u8>, Version)> {
    let sp1 = spec_find(line, ' ' as u8);
    if sp1 == line.len() {
        None
    } else {
        let mtok = line.take(sp1);
        let after = line.skip(sp1 + 1);
        let sp2 = spec_find(after, ' ' as u8);
        if sp2 == after.len() {
            None
        } else {
            let target = after.take(sp2);
            let vtok = after.skip(sp2 + 1);
            match (Method::spec_of(mtok), Version::spec_of(vtok)) {
                (Some(m), Some(v)) => if target.len() > 0 {
                    Some((m, target, v))
                } else {
                    None
                },
                _ => None,
            }
        }
    }
}

/// The outcome of parsing a request head, the way a server reads one back.
pub enum RequestHeadParse {
    Incomplete,
    Malformed,
    Done {
        method: Method,
        target: Seq<u8>,
        version: Version,
        fields: Seq<(Seq<u8>, Seq<u8>)>,
        rest: Seq<u8>,
    },
}

/// Parses a complete request head off the front of `s`.
pub open spec fn spec_parse_request_head(s: Seq<u8>) -> RequestHeadParse {
    match spec_split_line(s) {
        LineSplit::Incomplete => RequestHeadParse::Incomplete,
        LineSplit::Malformed => RequestHeadParse::Malformed,
        LineSplit::Line { line, rest } => match spec_parse_request_line(line) {
            None => RequestHeadParse::Malformed,
            Some((m, target, v)) => match spec_parse_fields(rest) {
                FieldsParse::Incomplete => RequestHeadParse::Incomplete,
                FieldsParse::Malformed => RequestHeadParse::Malformed,
                FieldsParse::Done { fields, rest: leftover } => RequestHeadParse::Done {
                    method: m,
                    target,
                    version: v,
                    fields,
                    rest: leftover,
                },
            },
        },
    }
}

/// A request head read back on the server side of the wire.
pub struct DecodedRequest {
    pub method: Method,
    pub target: Vec<u8>,
    pub version: Version,
    pub headers: Headers,
    pub leftover: Vec<u8>,
}

/// Parses a request head the way a conformant server-side parser reads it:
/// `Ok(None)` when the head is still incomplete, the parsed request and the
/// bytes after the head otherwise.
pub fn decode_request(s: &[u8]) -> (r: Result<Option<DecodedRequest>, HttpClientError>)
    ensures
        ({
            let p = spec_parse_request_head(s@);
            match r {
                Ok(opt) => match opt {
                    None => p is Incomplete,
                    Some(d) => p == (RequestHeadParse::Done {
                        method: d.method,
                        target: d.target@,
                        version: d.version,
                        fields: d.headers@,
                        rest: d.leftover@,
                    }),
                },
                Err(e) => p is Malformed && e.kind() == ErrorKind::Request,
            }
        }),
{
    let ghost whole = s@;
    let len = s.len();
    let cr1 = find_from(s, 0, '\r' as u8);
    proof {
        assert(whole.skip(0) =~= whole);
    }
    if cr1 == len || cr1 + 1 == len {
        return Ok(None);
    }
    if s[cr1 + 1] != '\n' as u8 {
        return Err(HttpClientError::new(ErrorKind::Request, "invalid request head"));
    }
    let line = subvec(s, 0, cr1);
    proof {
        assert(line@ =~= whole.take(cr1 as int));
    }
    let sp1 = match find_byte(line.as_slice(), ' ' as u8) {
        Some(i) => i,
        None => {
            return Err(HttpClientError::new(ErrorKind::Request, "invalid request line"));
        },
    };
    let mtok = subvec(line.as_slice(), 0, sp1);
    let after = subvec(line.as_slice(), sp1 + 1, line.len());
    proof {
        assert(mtok@ =~= line@.take(spec_find(line@, ' ' as u8)));
        assert(after@ =~= line@.skip(spec_find(line@, ' ' as u8) + 1));
    }
    let sp2 = match find_byte(after.as_slice(), ' ' as u8) {
        Some(i) => i,
        None => {
            return Err(HttpClientError::new(ErrorKind::Request, "invalid request line"));
        },
    };
    let target = subvec(after.as_slice(), 0, sp2);
    let vtok = subvec(after.as_slice(), sp2 + 1, after.len());
    proof {
        assert(target@ =~= after@.take(spec_find(after@, ' ' as u8)));
        assert(vtok@ =~= after@.skip(spec_find(after@, ' ' as u8) + 1));
    }
    let method = match Method::from_bytes(mtok.as_slice()) {
        Some(m) => m,
        None => {
            return Err(HttpClientError::new(ErrorKind::Request, "invalid request line"));
        },
    };
    let version = match Version::from_bytes(vtok.as_slice()) {
        Some(v) => v,
        None => {
            return Err(HttpClientError::new(ErrorKind::Request, "invalid request line"));
        },
    };
    if target.len() == 0 {
        return Err(HttpClientError::new(ErrorKind::Request, "invalid request line"));
    }
    let mut headers = Headers::new();
    let mut cursor = cr1 + 2;
    proof {
        let q0 = spec_parse_fields(whole.skip(cursor as int));
        match q0 {
            FieldsParse::Done { fields, rest } => {
                assert(headers@ + fields =~= fields);
            },
            _ => {},
        }
    }
    loop
        invariant
            cursor <= len,
            len == whole.len(),
            s@ == whole,
            ({
                let p = spec_parse_request_head(whole);
                let q = spec_parse_fields(whole.skip(cursor as int));
                match q {
                    FieldsParse::Incomplete => p is Incomplete,
                    FieldsParse::Malformed => p is Malformed,
                    FieldsParse::Done { fields, rest } => p == (RequestHeadParse::Done {
                        method,
                        target: target@,
                        version,
                        fields: headers@ + fields,
                        rest,
                    }),
                }
            }),
        decreases len - cursor,
    {
        let ghost tail = whole.skip(cursor as int);
        let cr = find_from(s, cursor, '\r' as u8);
        if cr == len || cr + 1 == len {
            return Ok(None);
        }
        if s[cr + 1] != '\n' as u8 {
            return Err(HttpClientError::new(ErrorKind::Request, "invalid header line"));
        }
        proof {
            assert(tail[cr - cursor + 1] == whole[cr + 1]);
        }
        if cr == cursor {
            let leftover = subvec(s, cr + 2, len);
            proof {
                assert(tail.take(0) =~= Seq::<u8>::empty());
                assert(tail.skip(2) =~= whole.skip(cursor + 2));
                assert(leftover@ =~= whole.skip(cursor + 2));
                assert(headers@ + Seq::<(Seq<u8>, Seq<u8>)>::empty() =~= headers@);
            }
            return Ok(Some(DecodedRequest { method, target, version, headers, leftover }));
        }
        let hline = subvec(s, cursor, cr);
        proof {
            assert(hline@ =~= tail.take(cr - cursor));
        }
        let c = match find_byte(hline.as_slice(), ':' as u8) {
            Some(i) => i,
            None => {
                return Err(HttpClientError::new(ErrorKind::Request, "invalid header line"));
            },
        };
        if c == 0 {
            return Err(HttpClientError::new(ErrorKind::Request, "invalid header line"));
        }
        let name = subvec(hline.as_slice(), 0, c);
        let value = trim_slice(hline.as_slice(), c + 1, hline.len());
        proof {
            assert(name@ =~= hline@.take(spec_find(hline@, ':' as u8)));
            assert(hline@.subrange(
                spec_find(hline@, ':' as u8) + 1,
                hline@.len() as int,
            ) =~= hline@.skip(spec_find(hline@, ':' as u8) + 1));
            assert(tail.skip(cr - cursor + 2) =~= whole.skip(cr + 2));
        }
        let ghost old_headers = headers@;
        headers.push(name, value);
        proof {
            let q2 = spec_parse_fields(whole.skip(cr + 2));
            if q2 is Done {
                let fields2 = q2->Done_fields;
                let entry = (
                    hline@.take(spec_find(hline@, ':' as u8)),
                    spec_trim(hline@.skip(spec_find(hline@, ':' as u8) + 1)),
                );
                assert(old_headers + (seq![entry] + fields2) =~= headers@ + fields2);
            }
        }
        cursor = cr + 2;
    }
}

/// Trimming undoes the single space the encoder writes before a value.
proof fn lemma_trim_encoded_value(value: Seq<u8>)
    requires
        value.len() > 0 ==> !crate::bytes::spec_is_ows(value[0]) && !crate::bytes::spec_is_ows(
            value[value.len() - 1],
        ),
    ensures
        spec_trim(seq![' ' as u8] + value) == value,
{
    let s = seq![' ' as u8] + value;
    assert(crate::bytes::spec_is_ows(s[0]));
    assert(s.skip(1) =~= value);
    crate::bytes::lemma_trim_id(value);
}

/// An encoded header block parses back into exactly its fields, with the
/// bytes after the block untouched.
pub proof fn lemma_fields_roundtrip(hs: Seq<(Seq<u8>, Seq<u8>)>, leftover: Seq<u8>)
    requires
        forall|k: int|
            0 <= k < hs.len() ==> crate::encoder::spec_header_wf(
                (#[trigger] hs[k]).0,
                hs[k].1,
            ),
    ensures
        spec_parse_fields(crate::encoder::spec_header_block(hs) + crate::encoder::spec_crlf()
            + leftover) == (FieldsParse::Done { fields: hs, rest: leftover }),
    decreases hs.len(),
{
    let crlf = crate::encoder::spec_crlf();
    let s = crate::encoder::spec_header_block(hs) + crlf + leftover;
    if hs.len() == 0 {
        assert(s =~= Seq::<u8>::empty() + crlf + leftover);
        lemma_split_line_exact(Seq::empty(), leftover);
        assert(hs =~= Seq::<(Seq<u8>, Seq<u8>)>::empty());
    } else {
        let name = hs[0].0;
        let value = hs[0].1;
        let lc = name + seq![':' as u8, ' ' as u8] + value;
        let rest2 = crate::encoder::spec_header_block(hs.skip(1)) + crlf + leftover;
        assert(crate::encoder::spec_header_block(hs) == crate::encoder::spec_header_field(
            name,
            value,
        ) + crate::encoder::spec_header_block(hs.skip(1)));
        assert(s =~= lc + crlf + rest2);
        assert(crate::encoder::spec_header_wf(name, value));
        assert forall|i: int| 0 <= i < lc.len() implies lc[i] != '\r' as u8 by {
            if i < name.len() {
                assert(lc[i] == name[i]);
            } else if i >= name.len() + 2 {
                assert(lc[i] == value[i - name.len() - 2]);
            }
        }
        lemma_split_line_exact(lc, rest2);
        assert(lc =~= name + seq![':' as u8] + (seq![' ' as u8] + value));
        crate::bytes::lemma_spec_find_append(name, ':' as u8, seq![' ' as u8] + value);
        let c = name.len() as int;
        assert(spec_find(lc, ':' as u8) == c);
        assert(lc.take(c) =~= name);
        assert(lc.skip(c + 1) =~= seq![' ' as u8] + value);
        lemma_trim_encoded_value(value);
        assert forall|k: int| 0 <= k < hs.skip(1).len() implies crate::encoder::spec_header_wf(
            (#[trigger] hs.skip(1)[k]).0,
            hs.skip(1)[k].1,
        ) by {
            assert(hs.skip(1)[k] == hs[k + 1]);
        }
        lemma_fields_roundtrip(hs.skip(1), leftover);
        assert(seq![(name, value)] + hs.skip(1) =~= hs);
    }
}

/// Round trip: a request head encoded in origin form and read back by the
/// server-side parser yields the same method, target, version and header
/// fields, in order, with any following bytes untouched.
pub proof fn lemma_request_head_roundtrip(
    m: Method,
    u: crate::uri::Uri,
    v: Version,
    hs: Seq<(Seq<u8>, Seq<u8>)>,
    extra: Seq<u8>,
)
    requires
        crate::uri::spec_uri_wf(u),
        forall|k: int|
            0 <= k < hs.len() ==> crate::encoder::spec_header_wf(
                (#[trigger] hs[k]).0,
                hs[k].1,
            ),
    ensures
        spec_parse_request_head(crate::encoder::spec_request_head(m, u, v, hs, false) + extra)
            == (RequestHeadParse::Done {
            method: m,
            target: u.path@,
            version: v,
            fields: hs,
            rest: extra,
        }),
{
    let crlf = crate::encoder::spec_crlf();
    let target = u.path@;
    let lc = m.wire() + seq![' ' as u8] + target + seq![' ' as u8] + v.wire();
    let s = crate::encoder::spec_request_head(m, u, v, hs, false) + extra;
    let rest = crate::encoder::spec_header_block(hs) + crlf + extra;
    assert(s =~= lc + crlf + rest);
    crate::method::lemma_method_wire_wf(m);
    crate::version::lemma_version_wire_wf(v);
    let mn = m.wire().len() as int;
    let tn = target.len() as int;
    assert forall|i: int| 0 <= i < lc.len() implies lc[i] != '\r' as u8 by {
        if i < mn {
            assert(lc[i] == m.wire()[i]);
        } else if mn + 1 <= i < mn + 1 + tn {
            assert(lc[i] == target[i - mn - 1]);
        } else if i >= mn + 2 + tn {
            assert(lc[i] == v.wire()[i - mn - 2 - tn]);
        }
    }
    lemma_split_line_exact(lc, rest);
    let after = target + seq![' ' as u8] + v.wire();
    assert(lc =~= m.wire() + seq![' ' as u8] + after);
    crate::bytes::lemma_spec_find_append(m.wire(), ' ' as u8, after);
    assert(spec_find(lc, ' ' as u8) == mn);
    assert(lc.take(mn) =~= m.wire());
    assert(lc.skip(mn + 1) =~= after);
    crate::bytes::lemma_spec_find_append(target, ' ' as u8, v.wire());
    assert(spec_find(after, ' ' as u8) == tn);
    assert(after.take(tn) =~= target);
    assert(after.skip(tn + 1) =~= v.wire());
    crate::method::lemma_method_spec_of_wire(m);
    crate::version::lemma_version_spec_of_wire(v);
    lemma_fields_roundtrip(hs, extra);
}

/// More arriving bytes never change a line already split off: a complete
/// line stays the same line, and a malformed one stays malformed.
pub proof fn lemma_split_line_mono(s: Seq<u8>, ext: Seq<u8>)
    ensures
        spec_split_line(s) is Line ==> spec_split_line(s + ext) == (LineSplit::Line {
            line: spec_split_line(s)->Line_line,
            rest: spec_split_line(s)->Line_rest + ext,
        }),
        spec_split_line(s) is Malformed ==> spec_split_line(s + ext) is Malformed,
{
    let i = spec_find(s, '\r' as u8);
    lemma_spec_find_bounds(s, '\r' as u8);
    if i + 1 < s.len() {
        let t = s + ext;
        assert(t[i] == s[i]);
        assert forall|j: int| 0 <= j < i implies t[j] != '\r' as u8 by {
            assert(t[j] == s[j]);
        }
        lemma_spec_find_is(t, '\r' as u8, i);
        assert(t[i + 1] == s[i + 1]);
        if s[i + 1] == '\n' as u8 {
            assert(t.take(i) =~= s.take(i));
            assert(t.skip(i + 2) =~= s.skip(i + 2) + ext);
        }
    }
}

/// More arriving bytes never change a header block already parsed: the
/// fields stay the same and the extension lands after the block.
pub proof fn lemma_parse_fields_mono(s: Seq<u8>, ext: Seq<u8>)
    ensures
        spec_parse_fields(s) is Done ==> spec_parse_fields(s + ext) == (FieldsParse::Done {
            fields: spec_parse_fields(s)->Done_fields,
            rest: spec_parse_fields(s)->Done_rest + ext,
        }),
        spec_parse_fields(s) is Malformed ==> spec_parse_fields(s + ext) is Malformed,
    decreases s.len(),
{
    lemma_split_line_mono(s, ext);
    lemma_spec_find_bounds(s, '\r' as u8);
    match spec_split_line(s) {
        LineSplit::Incomplete => {},
        LineSplit::Malformed => {},
        LineSplit::Line { line, rest } => {
            if line.len() != 0 {
                let c = spec_find(line, ':' as u8);
                if c != line.len() && c != 0 {
                    lemma_parse_fields_mono(rest, ext);
                }
            }
        },
    }
}

/// More arriving bytes never change a head already decoded, and never mend
/// a malformed one.
pub proof fn lemma_parse_head_mono(s: Seq<u8>, ext: Seq<u8>)
    ensures
        spec_parse_head(s) is Done ==> spec_parse_head(s + ext) == (HeadParse::Done {
            version: spec_parse_head(s)->Done_version,
            status: spec_parse_head(s)->Done_status,
            fields: spec_parse_head(s)->Done_fields,
            rest: spec_parse_head(s)->Done_rest + ext,
        }),
        spec_parse_head(s) is Malformed ==> spec_parse_head(s + ext) is Malformed,
{
    lemma_split_line_mono(s, ext);
    match spec_split_line(s) {
        LineSplit::Incomplete => {},
        LineSplit::Malformed => {},
        LineSplit::Line { line, rest } => {
            if spec_parse_status_line(line) is Some {
                lemma_parse_fields_mono(rest, ext);
            }
        },
    }
}

} // verus!
