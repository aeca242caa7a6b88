//! Protocol versions and their wire form.

use vstd::prelude::*;

verus! {

use crate::bytes::{ascii_seq, bytes_eq};

/// The HTTP/1.x versions the client speaks.
#[derive(PartialEq, Eq, Structural, Clone, Copy, Debug)]
pub enum Version {
    Http1_0,
    Http1_1,
}

impl Version {
    /// The token of this version on a request or status line.
    pub open spec fn wire(self) -> Seq<u8> {
        match self {
            Version::Http1_0 => ascii_seq("HTTP/1.0"@),
            Version::Http1_1 => ascii_seq("HTTP/1.1"@),
        }
    }

    /// The version named by a token, if any.
    pub open spec fn spec_of(s: Seq<u8>) -> Option<Version> {
        if s == Version::Http1_0.wire() {
            Some(Version::Http1_0)
        } else if s == Version::Http1_1.wire() {
            Some(Version::Http1_1)
        } else {
            None
        }
    }

    /// The token as bytes.
    pub fn bytes(&self) -> (r: Vec<u8>)
        ensures
            r@ == self.wire(),
    {
        proof {
            reveal_strlit("HTTP/1.0");
            reveal_strlit("HTTP/1.1");
        }
        let mut out: Vec<u8> = Vec::new();
        match self {
            Version::Http1_0 => crate::bytes::push_ascii(&mut out, "HTTP/1.0"),
            Version::Http1_1 => crate::bytes::push_ascii(&mut out, "HTTP/1.1"),
        }
        assert(out@ =~= self.wire());
        out
    }

    /// Recognizes a version token.
    pub fn from_bytes(s: &[u8]) -> (r: Option<Version>)
        ensures
            r == Version::spec_of(s@),
    {
        if bytes_eq(s, Version::Http1_0.bytes().as_slice()) {
            return Some(Version::Http1_0);
        }
        if bytes_eq(s, Version::Http1_1.bytes().as_slice()) {
            return Some(Version::Http1_1);
        }
        None
    }

    /// Recognizes a version written as a string.
    pub fn from_str(s: &str) -> (r: Option<Version>)
        ensures
            r == Version::spec_of(ascii_seq(s@)) || (!s.is_ascii() && r == None::<Version>),
    {
        if !s.is_ascii() {
            return None;
        }
        proof {
            vstd::string::is_ascii_spec_bytes(s);
        }
        let bs = vstd::string::StrSliceExecFns::as_bytes_vec(s);
        assert(bs@ =~= ascii_seq(s@));
        Version::from_bytes(bs.as_slice())
    }
}

/// Every version token is nonempty and free of separators and line ends.
pub proof fn lemma_version_wire_wf(v: Version)
    ensures
        v.wire().len() > 0,
        forall|i: int|
            0 <= i < v.wire().len() ==> #[trigger] v.wire()[i] != ' ' as u8 && v.wire()[i]
                != '\r' as u8 && v.wire()[i] != '\n' as u8,
{
    reveal_strlit("HTTP/1.0");
    reveal_strlit("HTTP/1.1");
    match v {
        Version::Http1_0 => {},
        Version::Http1_1 => {},
    }
}

/// Each version's token names that version back.
pub proof fn lemma_version_spec_of_wire(v: Version)
    ensures
        Version::spec_of(v.wire()) == Some(v),
{
    reveal_strlit("HTTP/1.0");
    reveal_strlit("HTTP/1.1");
    match v {
        Version::Http1_0 => {},
        Version::Http1_1 => {
            assert(Version::Http1_0.wire()[7] == '0' as u8);
            assert(v.wire()[7] == '1' as u8);
        },
    }
}

} // verus!
