//! Request bodies: empty, a reusable slice, or a one-shot reader that may
//! abort.

use vstd::prelude::*;

verus! {

use vstd::string::{StrSliceExecFns, StringSliceAdditionalSpecFns};

/// The payload sent with a request.
///
/// `Empty` and `Slice` can be reproduced from the start, so a failed attempt
/// with either may be retried. `Reader` stands for a streaming producer: it
/// yields its bytes once and cannot be replayed; when built with `abort` it
/// fails the transfer instead, the way a producer that gives up does.
#[derive(Debug)]
pub enum Body {
    Empty,
    Slice { data: Vec<u8> },
    Reader { data: Vec<u8>, abort: bool },
}

impl Body {
    /// The bytes this body yields when the transfer succeeds.
    pub open spec fn spec_bytes(&self) -> Seq<u8> {
        match self {
            Body::Empty => Seq::empty(),
            Body::Slice { data } => data@,
            Body::Reader { data, .. } => data@,
        }
    }

    /// Whether the body can be replayed for a second attempt.
    pub open spec fn spec_reusable(&self) -> bool {
        match self {
            Body::Empty => true,
            Body::Slice { .. } => true,
            Body::Reader { .. } => false,
        }
    }

    /// Whether the producer aborts the transfer instead of completing it.
    pub open spec fn spec_aborts(&self) -> bool {
        match self {
            Body::Reader { abort, .. } => *abort,
            _ => false,
        }
    }

    /// An empty body.
    pub fn empty() -> (r: Body)
        ensures
            r == Body::Empty,
            r.spec_bytes() == Seq::<u8>::empty(),
            r.spec_reusable(),
            !r.spec_aborts(),
    {
        Body::Empty
    }

    /// A reusable body holding the bytes of a string.
    pub fn slice(content: &str) -> (r: Body)
        ensures
            r.spec_bytes() == content.spec_bytes(),
            r.spec_reusable(),
            !r.spec_aborts(),
    {
        Body::Slice { data: content.as_bytes_vec() }
    }

    /// A reusable body holding the given bytes.
    pub fn from_vec(data: Vec<u8>) -> (r: Body)
        ensures
            r.spec_bytes() == data@,
            r.spec_reusable(),
            !r.spec_aborts(),
    {
        Body::Slice { data }
    }

    /// A one-shot body holding the given bytes; with `abort` set it fails
    /// the transfer instead of finishing.
    pub fn reader(data: Vec<u8>, abort: bool) -> (r: Body)
        ensures
            r.spec_bytes() == data@,
            !r.spec_reusable(),
            r.spec_aborts() == abort,
    {
        Body::Reader { data, abort }
    }

    /// Whether the body can be replayed for a second attempt.
    pub fn reuse(&self) -> (r: bool)
        ensures
            r == self.spec_reusable(),
    {
        match self {
            Body::Empty => true,
            Body::Slice { .. } => true,
            Body::Reader { .. } => false,
        }
    }
}

} // verus!
