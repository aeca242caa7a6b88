//! The connection wrapper: one byte stream plus connection metadata and the
//! one-way shutdown flag.

use vstd::prelude::*;

verus! {

/// One byte stream. Reads consume an incoming sequence front to back, a
/// read past its end meaning the peer closed; writes accumulate on an
/// outgoing sequence.
pub struct Transport {
    input: Vec<u8>,
    pos: usize,
    output: Vec<u8>,
}

impl Transport {
    /// Everything the peer will send on this stream.
    pub closed spec fn input(&self) -> Seq<u8> {
        self.input@
    }

    /// How many incoming bytes have been consumed.
    pub closed spec fn taken(&self) -> int {
        self.pos as int
    }

    /// Everything written so far.
    pub closed spec fn output(&self) -> Seq<u8> {
        self.output@
    }

    /// The read position never passes the end of the incoming bytes.
    pub open spec fn wf(&self) -> bool {
        0 <= self.taken() <= self.input().len()
    }

    /// A stream whose peer will send exactly `input`.
    pub fn new(input: Vec<u8>) -> (r: Transport)
        ensures
            r.input() == input@,
            r.taken() == 0,
            r.output() == Seq::<u8>::empty(),
            r.wf(),
    {
        let r = Transport { input, pos: 0, output: Vec::new() };
        proof {
            assert(r.output() =~= Seq::<u8>::empty());
        }
        r
    }

    /// Reads at most `max` of the bytes that remain; an empty result means
    /// the peer has closed.
    pub fn read_chunk(&mut self, max: usize) -> (r: Vec<u8>)
        requires
            old(self).wf(),
        ensures
            final(self).wf(),
            final(self).input() == old(self).input(),
            final(self).output() == old(self).output(),
            final(self).taken() == old(self).taken() + r@.len(),
            r@ == old(self).input().subrange(old(self).taken(), old(self).taken() + r@.len()),
            r@.len() == vstd::math::min(max as int, old(self).input().len() - old(self).taken()),
    {
        let remaining = self.input.len() - self.pos;
        let n = if max < remaining {
            max
        } else {
            remaining
        };
        let r = crate::bytes::subvec(self.input.as_slice(), self.pos, self.pos + n);
        self.pos = self.pos + n;
        r
    }

    /// Writes all the given bytes.
    pub fn write_all(&mut self, bytes: &[u8])
        ensures
            final(self).wf() == old(self).wf(),
            final(self).input() == old(self).input(),
            final(self).taken() == old(self).taken(),
            final(self).output() == old(self).output() + bytes@,
    {
        crate::bytes::push_bytes(&mut self.output, bytes);
    }
}

/// One connection: a stream, its metadata, and the one-way shutdown flag.
/// Shutdown marks the connection ineligible for reuse; an in-flight body
/// read may still consume what already arrived.
pub struct Conn {
    stream: Transport,
    is_proxy: bool,
    is_tls: bool,
    shutdown: bool,
    closable: bool,
}

impl Conn {
    /// The stream's incoming bytes.
    pub closed spec fn input(&self) -> Seq<u8> {
        self.stream.input()
    }

    /// How many incoming bytes have been consumed.
    pub closed spec fn taken(&self) -> int {
        self.stream.taken()
    }

    /// Everything written so far.
    pub closed spec fn output(&self) -> Seq<u8> {
        self.stream.output()
    }

    pub open spec fn wf(&self) -> bool {
        0 <= self.taken() <= self.input().len()
    }

    /// Whether this connection runs through a plaintext proxy.
    pub closed spec fn spec_is_proxy(&self) -> bool {
        self.is_proxy
    }

    /// Whether the transport is TLS.
    pub closed spec fn spec_is_tls(&self) -> bool {
        self.is_tls
    }

    /// Whether the connection was marked ineligible for reuse.
    pub closed spec fn spec_shutdown(&self) -> bool {
        self.shutdown
    }

    /// Whether the transport may now be physically closed: set once the
    /// current body was fully drained. Independent of `shutdown`.
    pub closed spec fn spec_closable(&self) -> bool {
        self.closable
    }

    /// Wraps a fresh stream.
    pub fn new(stream: Transport, is_proxy: bool, is_tls: bool) -> (r: Conn)
        requires
            stream.wf(),
        ensures
            r.input() == stream.input(),
            r.taken() == stream.taken(),
            r.output() == stream.output(),
            r.spec_is_proxy() == is_proxy,
            r.spec_is_tls() == is_tls,
            !r.spec_shutdown(),
            !r.spec_closable(),
            r.wf(),
    {
        Conn { stream, is_proxy, is_tls, shutdown: false, closable: false }
    }

    /// Whether this connection runs through a plaintext proxy.
    pub fn is_proxy(&self) -> (r: bool)
        ensures
            r == self.spec_is_proxy(),
    {
        self.is_proxy
    }

    /// Whether the connection was marked ineligible for reuse.
    pub fn is_shutdown(&self) -> (r: bool)
        ensures
            r == self.spec_shutdown(),
    {
        self.shutdown
    }

    /// Marks the connection ineligible for reuse. One-way: nothing clears
    /// the flag again.
    pub fn shutdown(&mut self)
        ensures
            final(self).spec_shutdown(),
            final(self).input() == old(self).input(),
            final(self).taken() == old(self).taken(),
            final(self).output() == old(self).output(),
            final(self).spec_is_proxy() == old(self).spec_is_proxy(),
            final(self).spec_is_tls() == old(self).spec_is_tls(),
            final(self).wf() == old(self).wf(),
    {
        self.shutdown = true;
    }

    /// Whether the transport may be physically closed as soon as the body is
    /// drained; true for an HTTP/1.x stream, which carries one exchange at a
    /// time.
    pub fn is_stream_closable(&self) -> (r: bool)
        ensures
            r,
    {
        true
    }

    /// Marks the transport as safe to close physically: the current body
    /// was fully drained. One-way, and independent of `shutdown`.
    pub fn mark_closable(&mut self)
        ensures
            final(self).spec_closable(),
            final(self).input() == old(self).input(),
            final(self).taken() == old(self).taken(),
            final(self).output() == old(self).output(),
            final(self).spec_is_proxy() == old(self).spec_is_proxy(),
            final(self).spec_is_tls() == old(self).spec_is_tls(),
            final(self).spec_shutdown() == old(self).spec_shutdown(),
            final(self).wf() == old(self).wf(),
    {
        self.closable = true;
    }

    /// Reads at most `max` of the bytes that remain; an empty result means
    /// the peer has closed.
    pub fn read_chunk(&mut self, max: usize) -> (r: Vec<u8>)
        requires
            old(self).wf(),
        ensures
            final(self).wf(),
            final(self).input() == old(self).input(),
            final(self).output() == old(self).output(),
            final(self).spec_is_proxy() == old(self).spec_is_proxy(),
            final(self).spec_is_tls() == old(self).spec_is_tls(),
            final(self).spec_shutdown() == old(self).spec_shutdown(),
            final(self).taken() == old(self).taken() + r@.len(),
            r@ == old(self).input().subrange(old(self).taken(), old(self).taken() + r@.len()),
            r@.len() == vstd::math::min(max as int, old(self).input().len() - old(self).taken()),
    {
        self.stream.read_chunk(max)
    }

    /// Writes all the given bytes.
    pub fn write_all(&mut self, bytes: &[u8])
        ensures
            final(self).wf() == old(self).wf(),
            final(self).input() == old(self).input(),
            final(self).taken() == old(self).taken(),
            final(self).spec_is_proxy() == old(self).spec_is_proxy(),
            final(self).spec_is_tls() == old(self).spec_is_tls(),
            final(self).spec_shutdown() == old(self).spec_shutdown(),
            final(self).output() == old(self).output() + bytes@,
    {
        self.stream.write_all(bytes)
    }
}

} // verus!
