//! The response body: bound to its connection, served first from the
//! decoder's leftover, then from the wire, under the framing the
//! body-length resolution chose.

use vstd::prelude::*;

verus! {

use crate::bytes::{spec_find, lemma_spec_find_bounds};
use crate::conn::Conn;
use crate::decoder::{LineSplit, spec_split_line, lemma_split_line_mono};
use crate::error::{ErrorKind, HttpClientError};
use crate::normalizer::BodyLength;
use crate::num::{spec_is_hex, spec_hex_val, parse_u64_hex, lemma_hex_val_nonneg};

/// The outcome of consuming the trailer section after the zero chunk.
pub enum TrailerParse {
    Incomplete,
    Malformed,
    /// The bytes after the empty line that ends the section.
    Done { rest: Seq<u8> },
}

/// Consumes the trailer section: any number of trailer field lines, each
/// ignored, ended by an empty line.
pub open spec fn spec_skip_trailers(s: Seq<u8>) -> TrailerParse
    decreases s.len(),
    via spec_skip_trailers_dec
{
    match spec_split_line(s) {
        LineSplit::Incomplete => TrailerParse::Incomplete,
        LineSplit::Malformed => TrailerParse::Malformed,
        LineSplit::Line { line, rest } => {
            if line.len() == 0 {
                TrailerParse::Done { rest }
            } else {
                spec_skip_trailers(rest)
            }
        },
    }
}

#[via_fn]
proof fn spec_skip_trailers_dec(s: Seq<u8>) {
    lemma_spec_find_bounds(s, '\r' as u8);
}

/// More arriving bytes never change a trailer section already consumed,
/// and never mend a malformed one.
pub proof fn lemma_skip_trailers_mono(s: Seq<u8>, ext: Seq<u8>)
    ensures
        spec_skip_trailers(s) is Done ==> spec_skip_trailers(s + ext) == (TrailerParse::Done {
            rest: spec_skip_trailers(s)->Done_rest + ext,
        }),
        spec_skip_trailers(s) is Malformed ==> spec_skip_trailers(s + ext) is Malformed,
    decreases s.len(),
{
    lemma_split_line_mono(s, ext);
    lemma_spec_find_bounds(s, '\r' as u8);
    match spec_split_line(s) {
        LineSplit::Incomplete => {},
        LineSplit::Malformed => {},
        LineSplit::Line { line, rest } => {
            if line.len() != 0 {
                lemma_skip_trailers_mono(rest, ext);
            }
        },
    }
}

/// The outcome of decoding a chunk-framed body.
pub enum DechunkParse {
    Incomplete,
    Malformed,
    /// The data of all chunks in order, and the bytes after the final
    /// zero chunk's empty trailer line.
    Done { data: Seq<u8>, rest: Seq<u8> },
}

/// Decodes the chunk framing off the front of `s`: each chunk is a
/// hexadecimal size line — anything after a `;` is a chunk extension, to
/// be ignored — and that many data bytes, ended by a zero chunk and its
/// trailer section.
pub open spec fn spec_dechunk(s: Seq<u8>) -> DechunkParse
    decreases s.len(),
    via spec_dechunk_dec
{
    match spec_split_line(s) {
        LineSplit::Incomplete => DechunkParse::Incomplete,
        LineSplit::Malformed => DechunkParse::Malformed,
        LineSplit::Line { line, rest } => {
            let size_tok = line.take(spec_find(line, ';' as u8));
            if !spec_is_hex(size_tok) || spec_hex_val(size_tok) > u64::MAX {
                DechunkParse::Malformed
            } else {
                let size = spec_hex_val(size_tok);
                if size == 0 {
                    match spec_skip_trailers(rest) {
                        TrailerParse::Incomplete => DechunkParse::Incomplete,
                        TrailerParse::Malformed => DechunkParse::Malformed,
                        TrailerParse::Done { rest: rest2 } => DechunkParse::Done {
                            data: Seq::empty(),
                            rest: rest2,
                        },
                    }
                } else if rest.len() < size + 2 {
                    DechunkParse::Incomplete
                } else if rest[size] != '\r' as u8 || rest[size + 1] != '\n' as u8 {
                    DechunkParse::Malformed
                } else {
                    match spec_dechunk(rest.skip(size + 2)) {
                        DechunkParse::Incomplete => DechunkParse::Incomplete,
                        DechunkParse::Malformed => DechunkParse::Malformed,
                        DechunkParse::Done { data, rest: rest3 } => DechunkParse::Done {
                            data: rest.take(size) + data,
                            rest: rest3,
                        },
                    }
                }
            }
        },
    }
}

#[via_fn]
proof fn spec_dechunk_dec(s: Seq<u8>) {
    lemma_spec_find_bounds(s, '\r' as u8);
    let i = spec_find(s, '\r' as u8);
    if i + 1 < s.len() && s[i + 1] == '\n' as u8 {
        let line = s.take(i);
        let size_tok = line.take(spec_find(line, ';' as u8));
        if spec_is_hex(size_tok) {
            lemma_hex_val_nonneg(size_tok);
        }
    }
}

/// More arriving bytes never change a chunked body already decoded, and
/// never mend a malformed one.
pub proof fn lemma_dechunk_mono(s: Seq<u8>, ext: Seq<u8>)
    ensures
        spec_dechunk(s) is Done ==> spec_dechunk(s + ext) == (DechunkParse::Done {
            data: spec_dechunk(s)->Done_data,
            rest: spec_dechunk(s)->Done_rest + ext,
        }),
        spec_dechunk(s) is Malformed ==> spec_dechunk(s + ext) is Malformed,
    decreases s.len(),
{
    lemma_split_line_mono(s, ext);
    lemma_spec_find_bounds(s, '\r' as u8);
    match spec_split_line(s) {
        LineSplit::Incomplete => {},
        LineSplit::Malformed => {},
        LineSplit::Line { line, rest } => {
            let size_tok = line.take(spec_find(line, ';' as u8));
            if spec_is_hex(size_tok) && spec_hex_val(size_tok) <= u64::MAX {
                lemma_hex_val_nonneg(size_tok);
                let size = spec_hex_val(size_tok);
                if size == 0 {
                    lemma_skip_trailers_mono(rest, ext);
                } else if rest.len() >= size + 2 {
                    if rest[size] == '\r' as u8 && rest[size + 1] == '\n' as u8 {
                        assert((rest + ext)[size] == rest[size]);
                        assert((rest + ext)[size + 1] == rest[size + 1]);
                        assert((rest + ext).len() >= size + 2);
                        assert((rest + ext).take(size) =~= rest.take(size));
                        assert((rest + ext).skip(size + 2) =~= rest.skip(size + 2) + ext);
                        lemma_dechunk_mono(rest.skip(size + 2), ext);
                    }
                } else {
                    // The chunk was cut short here; with the extension it may
                    // complete or fail, but nothing was decided yet.
                }
            }
        },
    }
}

/// A response body handle: the framing decision, the bytes that arrived
/// with the head, and the connection that owns the rest.
pub struct HttpBody {
    length: BodyLength,
    pre: Vec<u8>,
    conn: Conn,
}

impl HttpBody {
    /// The framing under which this body is read.
    pub closed spec fn spec_length(&self) -> BodyLength {
        self.length
    }

    /// The leftover bytes the decoder captured past the head.
    pub closed spec fn spec_pre(&self) -> Seq<u8> {
        self.pre@
    }

    /// The connection the body is bound to.
    pub closed spec fn spec_conn(&self) -> Conn {
        self.conn
    }

    /// Everything the body reader can still see: the captured leftover,
    /// then the unread incoming bytes.
    pub open spec fn spec_avail(&self) -> Seq<u8> {
        self.spec_pre() + self.spec_conn().input().skip(self.spec_conn().taken())
    }

    /// Binds a body to its connection. The leftover must never be
    /// discarded: it is the first body bytes.
    pub fn new(length: BodyLength, pre: Vec<u8>, conn: Conn) -> (r: HttpBody)
        ensures
            r.spec_length() == length,
            r.spec_pre() == pre@,
            r.spec_conn() == conn,
    {
        HttpBody { length, pre, conn }
    }
}

/// The outcome of one attempt to decode a chunk-framed body from what is
/// buffered so far.
pub enum DechunkStatus {
    NeedMore,
    Bad,
    Done { data: Vec<u8> },
}

/// Tries to decode a complete chunk-framed body from `buf`.
#[verifier::loop_isolation(false)]
#[verifier::rlimit(60)]
pub fn dechunk_step(buf: &[u8]) -> (r: DechunkStatus)
    ensures
        match r {
            DechunkStatus::NeedMore => spec_dechunk(buf@) is Incomplete,
            DechunkStatus::Bad => spec_dechunk(buf@) is Malformed,
            DechunkStatus::Done { data } => spec_dechunk(buf@) is Done && data@ == spec_dechunk(
                buf@,
            )->Done_data,
        },
{
    let ghost whole = buf@;
    let len = buf.len();
    let mut acc: Vec<u8> = Vec::new();
    let mut cursor: usize = 0;
    proof {
        assert(whole.skip(0) =~= whole);
        let q0 = spec_dechunk(whole.skip(0));
        match q0 {
            DechunkParse::Done { data, rest } => {
                assert(acc@ + data =~= data);
            },
            _ => {},
        }
    }
    loop
        invariant
            cursor <= len,
            len == whole.len(),
            buf@ == whole,
            ({
                let p = spec_dechunk(whole);
                let q = spec_dechunk(whole.skip(cursor as int));
                match q {
                    DechunkParse::Incomplete => p is Incomplete,
                    DechunkParse::Malformed => p is Malformed,
                    DechunkParse::Done { data, rest } => p == (DechunkParse::Done {
                        data: acc@ + data,
                        rest,
                    }),
                }
            }),
        decreases len - cursor,
    {
        let ghost tail = whole.skip(cursor as int);
        let cr = crate::decoder::find_from(buf, cursor, '\r' as u8);
        if cr == len || cr + 1 == len {
            return DechunkStatus::NeedMore;
        }
        if buf[cr + 1] != '\n' as u8 {
            return DechunkStatus::Bad;
        }
        proof {
            assert(tail[cr - cursor + 1] == whole[cr + 1]);
        }
        let line = crate::bytes::subvec(buf, cursor, cr);
        proof {
            assert(line@ =~= tail.take(cr - cursor));
        }
        // Anything after a `;` on the size line is a chunk extension: ignored.
        let semi = match crate::bytes::find_byte(line.as_slice(), ';' as u8) {
            Some(i) => i,
            None => line.len(),
        };
        let size_tok = crate::bytes::subvec(line.as_slice(), 0, semi);
        proof {
            assert(size_tok@ =~= line@.take(crate::bytes::spec_find(line@, ';' as u8)));
        }
        let size = match parse_u64_hex(size_tok.as_slice()) {
            Some(n) => n,
            None => {
                proof {
                    if spec_is_hex(size_tok@) {
                        lemma_hex_val_nonneg(size_tok@);
                    }
                }
                return DechunkStatus::Bad;
            },
        };
        proof {
            lemma_hex_val_nonneg(size_tok@);
        }
        if size == 0 {
            // The zero chunk: consume the trailer section, every trailer
            // field ignored, until the empty line that ends the body.
            proof {
                assert(tail.skip(cr - cursor + 2) =~= whole.skip(cr + 2));
            }
            let mut tc = cr + 2;
            loop
                invariant
                    tc <= len,
                    ({
                        let p = spec_dechunk(whole);
                        match spec_skip_trailers(whole.skip(tc as int)) {
                            TrailerParse::Incomplete => p is Incomplete,
                            TrailerParse::Malformed => p is Malformed,
                            TrailerParse::Done { rest } => p == (DechunkParse::Done {
                                data: acc@,
                                rest,
                            }),
                        }
                    }),
                decreases len - tc,
            {
                let ghost ttail = whole.skip(tc as int);
                let cr2 = crate::decoder::find_from(buf, tc, '\r' as u8);
                if cr2 == len || cr2 + 1 == len {
                    return DechunkStatus::NeedMore;
                }
                if buf[cr2 + 1] != '\n' as u8 {
                    return DechunkStatus::Bad;
                }
                proof {
                    assert(ttail[cr2 - tc + 1] == whole[cr2 + 1]);
                }
                if cr2 == tc {
                    proof {
                        assert(ttail.take(0) =~= Seq::<u8>::empty());
                    }
                    return DechunkStatus::Done { data: acc };
                }
                proof {
                    assert(ttail.take(cr2 - tc).len() > 0);
                    assert(ttail.skip(cr2 - tc + 2) =~= whole.skip(cr2 + 2));
                }
                tc = cr2 + 2;
            }
        }
        // A data chunk: `size` bytes and a line end must follow.
        let after = len - (cr + 2);
        if after < 2 || ((after - 2) as u64) < size {
            proof {
                assert(tail.skip(cr - cursor + 2) =~= whole.skip(cr + 2));
                assert(whole.skip(cr + 2).len() == after);
            }
            return DechunkStatus::NeedMore;
        }
        let size_us = size as usize;
        proof {
            assert(tail.skip(cr - cursor + 2) =~= whole.skip(cr + 2));
            assert(whole.skip(cr + 2)[size as int] == whole[cr + 2 + size_us]);
            assert(whole.skip(cr + 2)[size + 1] == whole[cr + 3 + size_us]);
        }
        if buf[cr + 2 + size_us] != '\r' as u8 || buf[cr + 3 + size_us] != '\n' as u8 {
            return DechunkStatus::Bad;
        }
        let data = crate::bytes::subvec(buf, cr + 2, cr + 2 + size_us);
        proof {
            assert(data@ =~= whole.skip(cr + 2).take(size as int));
        }
        let ghost old_acc = acc@;
        crate::bytes::push_bytes(&mut acc, data.as_slice());
        proof {
            assert(whole.skip(cr + 2).skip(size + 2) =~= whole.skip(cr + 2 + size_us + 2));
            let q2 = spec_dechunk(whole.skip(cr + 2 + size_us + 2));
            if q2 is Done {
                let d2 = q2->Done_data;
                assert(old_acc + (whole.skip(cr + 2).take(size as int) + d2) =~= acc@ + d2);
            }
        }
        cursor = cr + 2 + size_us + 2;
    }
}

impl HttpBody {
    /// Reads the whole body under its framing, handing the connection back
    /// once it is drained.
    ///
    /// Leftover captured past the end of a chunked body is discarded with
    /// the buffer it sat in. A short read ends in an error, never a
    /// truncated body, and the connection is shut down before the error is
    /// returned.
    #[verifier::loop_isolation(false)]
    pub fn read_all(self) -> (r: Result<(Vec<u8>, Conn), HttpClientError>)
        requires
            self.spec_conn().wf(),
        ensures
            ({
                let avail = self.spec_avail();
                let c0 = self.spec_conn();
                match r {
                    Ok((data, conn)) => conn.input() == c0.input() && conn.output() == c0.output()
                        && conn.spec_is_proxy() == c0.spec_is_proxy() && conn.spec_is_tls()
                        == c0.spec_is_tls() && conn.spec_shutdown() == c0.spec_shutdown()
                        && conn.spec_closable() && conn.wf() && match self.spec_length() {
                        BodyLength::Zero => data@ == Seq::<u8>::empty() && conn.taken()
                            == c0.taken(),
                        BodyLength::Fixed(n) => avail.len() >= n && data@ == avail.take(n as int),
                        BodyLength::UntilClose => data@ == avail && conn.taken()
                            == conn.input().len(),
                        BodyLength::Chunked => spec_dechunk(avail) is Done && data@ == spec_dechunk(
                            avail,
                        )->Done_data,
                    },
                    Err(e) => match self.spec_length() {
                        BodyLength::Fixed(n) => avail.len() < n && e.kind()
                            == ErrorKind::BodyTransfer,
                        BodyLength::Chunked => (spec_dechunk(avail) is Incomplete && e.kind()
                            == ErrorKind::BodyTransfer) || (spec_dechunk(avail) is Malformed
                            && e.kind() == ErrorKind::Request),
                        _ => false,
                    },
                }
            }),
    {
        let HttpBody { length, pre, mut conn } = self;
        let ghost c0 = conn;
        let ghost pdata = pre@;
        let ghost avail = pre@ + conn.input().skip(conn.taken());
        let ghost t0 = conn.taken();
        let ghost plen = pre@.len() as int;
        match length {
            BodyLength::Zero => {
                conn.mark_closable();
                return Ok((Vec::new(), conn));
            },
            BodyLength::Fixed(n) => {
                let mut bytes = pre;
                proof {
                    assert(bytes@ =~= avail.take(bytes@.len() as int));
                }
                while (bytes.len() as u64) < n
                    invariant
                        conn.wf(),
                        conn.input() == c0.input(),
                        conn.output() == c0.output(),
                        conn.spec_is_proxy() == c0.spec_is_proxy(),
                        conn.spec_is_tls() == c0.spec_is_tls(),
                        conn.spec_shutdown() == c0.spec_shutdown(),
                        avail == pdata + c0.input().skip(t0),
                        0 <= t0,
                        t0 == c0.taken(),
                        plen == pdata.len(),
                        bytes@.len() >= plen,
                        conn.taken() == t0 + bytes@.len() - plen,
                        bytes@ == avail.take(bytes@.len() as int),
                    decreases n - bytes@.len(),
                {
                    let need = n - (bytes.len() as u64);
                    let max: usize = if need < (crate::http1::TEMP_BUF_SIZE as u64) {
                        need as usize
                    } else {
                        crate::http1::TEMP_BUF_SIZE
                    };
                    let ghost t1 = conn.taken();
                    let chunk = conn.read_chunk(max);
                    if chunk.len() == 0 {
                        proof {
                            assert(conn.taken() == conn.input().len());
                            assert(avail.len() == bytes@.len() < n);
                        }
                        conn.shutdown();
                        return Err(
                            HttpClientError::new(
                                ErrorKind::BodyTransfer,
                                "connection closed before the body was complete",
                            ),
                        );
                    }
                    let ghost oldb = bytes@;
                    crate::bytes::push_bytes(&mut bytes, chunk.as_slice());
                    proof {
                        crate::bytes::lemma_take_extend(pdata, c0.input(), t0, oldb, chunk@);
                        assert(bytes@ =~= avail.take(bytes@.len() as int));
                    }
                }
                let n_us = n as usize;
                let data = crate::bytes::subvec(bytes.as_slice(), 0, n_us);
                proof {
                    assert(data@ =~= avail.take(n as int));
                }
                conn.mark_closable();
                return Ok((data, conn));
            },
            BodyLength::UntilClose => {
                let mut bytes = pre;
                proof {
                    assert(bytes@ =~= avail.take(bytes@.len() as int));
                }
                loop
                    invariant
                        conn.wf(),
                        conn.input() == c0.input(),
                        conn.output() == c0.output(),
                        conn.spec_is_proxy() == c0.spec_is_proxy(),
                        conn.spec_is_tls() == c0.spec_is_tls(),
                        conn.spec_shutdown() == c0.spec_shutdown(),
                        avail == pdata + c0.input().skip(t0),
                        0 <= t0,
                        t0 == c0.taken(),
                        plen == pdata.len(),
                        bytes@.len() >= plen,
                        conn.taken() == t0 + bytes@.len() - plen,
                        bytes@ == avail.take(bytes@.len() as int),
                    decreases conn.input().len() - conn.taken(),
                {
                    let ghost t1 = conn.taken();
                    let chunk = conn.read_chunk(crate::http1::TEMP_BUF_SIZE);
                    if chunk.len() == 0 {
                        proof {
                            assert(conn.taken() == conn.input().len());
                            assert(bytes@ =~= avail);
                        }
                        conn.mark_closable();
                        return Ok((bytes, conn));
                    }
                    let ghost oldb = bytes@;
                    crate::bytes::push_bytes(&mut bytes, chunk.as_slice());
                    proof {
                        crate::bytes::lemma_take_extend(pdata, c0.input(), t0, oldb, chunk@);
                        assert(bytes@ =~= avail.take(bytes@.len() as int));
                    }
                }
            },
            BodyLength::Chunked => {
                let mut buf = pre;
                proof {
                    assert(buf@ =~= avail.take(buf@.len() as int));
                }
                loop
                    invariant
                        conn.wf(),
                        conn.input() == c0.input(),
                        conn.output() == c0.output(),
                        conn.spec_is_proxy() == c0.spec_is_proxy(),
                        conn.spec_is_tls() == c0.spec_is_tls(),
                        conn.spec_shutdown() == c0.spec_shutdown(),
                        avail == pdata + c0.input().skip(t0),
                        0 <= t0,
                        t0 == c0.taken(),
                        plen == pdata.len(),
                        buf@.len() >= plen,
                        conn.taken() == t0 + buf@.len() - plen,
                        buf@ == avail.take(buf@.len() as int),
                    decreases conn.input().len() - conn.taken(),
                {
                    proof {
                        assert(avail =~= buf@ + conn.input().skip(conn.taken()));
                    }
                    match dechunk_step(buf.as_slice()) {
                        DechunkStatus::Done { data } => {
                            proof {
                                lemma_dechunk_mono(buf@, conn.input().skip(conn.taken()));
                            }
                            conn.mark_closable();
                            return Ok((data, conn));
                        },
                        DechunkStatus::Bad => {
                            proof {
                                lemma_dechunk_mono(buf@, conn.input().skip(conn.taken()));
                            }
                            conn.shutdown();
                            return Err(
                                HttpClientError::new(
                                    ErrorKind::Request,
                                    "invalid chunk framing in the body",
                                ),
                            );
                        },
                        DechunkStatus::NeedMore => {},
                    }
                    let ghost t1 = conn.taken();
                    let chunk = conn.read_chunk(crate::http1::TEMP_BUF_SIZE);
                    if chunk.len() == 0 {
                        proof {
                            assert(conn.taken() == conn.input().len());
                            assert(buf@ =~= avail);
                        }
                        conn.shutdown();
                        return Err(
                            HttpClientError::new(
                                ErrorKind::BodyTransfer,
                                "connection closed inside the chunked body",
                            ),
                        );
                    }
                    let ghost oldb = buf@;
                    crate::bytes::push_bytes(&mut buf, chunk.as_slice());
                    proof {
                        crate::bytes::lemma_take_extend(pdata, c0.input(), t0, oldb, chunk@);
                        assert(buf@ =~= avail.take(buf@.len() as int));
                    }
                }
            },
        }
    }
}

} // verus!
