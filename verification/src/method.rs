//! Request methods and their wire form.

use vstd::prelude::*;

verus! {

use crate::bytes::{ascii_seq, bytes_eq};

/// The request methods the client speaks.
#[derive(PartialEq, Eq, Structural, Clone, Copy, Debug)]
pub enum Method {
    Get,
    Head,
    Post,
    Put,
    Delete,
    Connect,
    Options,
    Trace,
}

impl Method {
    /// The token of this method on the request line.
    pub open spec fn wire(self) -> Seq<u8> {
        match self {
            Method::Get => ascii_seq("GET"@),
            Method::Head => ascii_seq("HEAD"@),
            Method::Post => ascii_seq("POST"@),
            Method::Put => ascii_seq("PUT"@),
            Method::Delete => ascii_seq("DELETE"@),
            Method::Connect => ascii_seq("CONNECT"@),
            Method::Options => ascii_seq("OPTIONS"@),
            Method::Trace => ascii_seq("TRACE"@),
        }
    }

    /// The method named by a token, if any.
    pub open spec fn spec_of(s: Seq<u8>) -> Option<Method> {
        if s == Method::Get.wire() {
            Some(Method::Get)
        } else if s == Method::Head.wire() {
            Some(Method::Head)
        } else if s == Method::Post.wire() {
            Some(Method::Post)
        } else if s == Method::Put.wire() {
            Some(Method::Put)
        } else if s == Method::Delete.wire() {
            Some(Method::Delete)
        } else if s == Method::Connect.wire() {
            Some(Method::Connect)
        } else if s == Method::Options.wire() {
            Some(Method::Options)
        } else if s == Method::Trace.wire() {
            Some(Method::Trace)
        } else {
            None
        }
    }

    /// The token as bytes.
    pub fn bytes(&self) -> (r: Vec<u8>)
        ensures
            r@ == self.wire(),
    {
        proof {
            reveal_strlit("GET");
            reveal_strlit("HEAD");
            reveal_strlit("POST");
            reveal_strlit("PUT");
            reveal_strlit("DELETE");
            reveal_strlit("CONNECT");
            reveal_strlit("OPTIONS");
            reveal_strlit("TRACE");
        }
        let mut out: Vec<u8> = Vec::new();
        match self {
            Method::Get => crate::bytes::push_ascii(&mut out, "GET"),
            Method::Head => crate::bytes::push_ascii(&mut out, "HEAD"),
            Method::Post => crate::bytes::push_ascii(&mut out, "POST"),
            Method::Put => crate::bytes::push_ascii(&mut out, "PUT"),
            Method::Delete => crate::bytes::push_ascii(&mut out, "DELETE"),
            Method::Connect => crate::bytes::push_ascii(&mut out, "CONNECT"),
            Method::Options => crate::bytes::push_ascii(&mut out, "OPTIONS"),
            Method::Trace => crate::bytes::push_ascii(&mut out, "TRACE"),
        }
        assert(out@ =~= self.wire());
        out
    }

    /// Recognizes a method token.
    pub fn from_bytes(s: &[u8]) -> (r: Option<Method>)
        ensures
            r == Method::spec_of(s@),
    {
        if bytes_eq(s, Method::Get.bytes().as_slice()) {
            return Some(Method::Get);
        }
        if bytes_eq(s, Method::Head.bytes().as_slice()) {
            return Some(Method::Head);
        }
        if bytes_eq(s, Method::Post.bytes().as_slice()) {
            return Some(Method::Post);
        }
        if bytes_eq(s, Method::Put.bytes().as_slice()) {
            return Some(Method::Put);
        }
        if bytes_eq(s, Method::Delete.bytes().as_slice()) {
            return Some(Method::Delete);
        }
        if bytes_eq(s, Method::Connect.bytes().as_slice()) {
            return Some(Method::Connect);
        }
        if bytes_eq(s, Method::Options.bytes().as_slice()) {
            return Some(Method::Options);
        }
        if bytes_eq(s, Method::Trace.bytes().as_slice()) {
            return Some(Method::Trace);
        }
        None
    }

    /// Recognizes a method written as a string.
    pub fn from_str(s: &str) -> (r: Option<Method>)
        ensures
            r == Method::spec_of(crate::bytes::ascii_seq(s@)) || (!s.is_ascii() && r == None::<
                Method,
            >),
    {
        if !s.is_ascii() {
            return None;
        }
        proof {
            vstd::string::is_ascii_spec_bytes(s);
        }
        let bs = vstd::string::StrSliceExecFns::as_bytes_vec(s);
        assert(bs@ =~= ascii_seq(s@));
        Method::from_bytes(bs.as_slice())
    }
}

/// Every method token is nonempty and free of separators and line ends.
pub proof fn lemma_method_wire_wf(m: Method)
    ensures
        m.wire().len() > 0,
        forall|i: int|
            0 <= i < m.wire().len() ==> #[trigger] m.wire()[i] != ' ' as u8 && m.wire()[i]
                != '\r' as u8 && m.wire()[i] != '\n' as u8,
{
    reveal_strlit("GET");
    reveal_strlit("HEAD");
    reveal_strlit("POST");
    reveal_strlit("PUT");
    reveal_strlit("DELETE");
    reveal_strlit("CONNECT");
    reveal_strlit("OPTIONS");
    reveal_strlit("TRACE");
    match m {
        Method::Get => {},
        Method::Head => {},
        Method::Post => {},
        Method::Put => {},
        Method::Delete => {},
        Method::Connect => {},
        Method::Options => {},
        Method::Trace => {},
    }
}

/// Each method's token names that method back.
pub proof fn lemma_method_spec_of_wire(m: Method)
    ensures
        Method::spec_of(m.wire()) == Some(m),
{
    reveal_strlit("GET");
    reveal_strlit("HEAD");
    reveal_strlit("POST");
    reveal_strlit("PUT");
    reveal_strlit("DELETE");
    reveal_strlit("CONNECT");
    reveal_strlit("OPTIONS");
    reveal_strlit("TRACE");
    assert(Method::Get.wire().len() == 3);
    assert(Method::Head.wire().len() == 4);
    assert(Method::Post.wire().len() == 4);
    assert(Method::Put.wire().len() == 3);
    assert(Method::Delete.wire().len() == 6);
    assert(Method::Connect.wire().len() == 7);
    assert(Method::Options.wire().len() == 7);
    assert(Method::Trace.wire().len() == 5);
    match m {
        Method::Get => {},
        Method::Head => {},
        Method::Post => {
            assert(Method::Head.wire()[0] == 'H' as u8);
            assert(m.wire()[0] == 'P' as u8);
        },
        Method::Put => {
            assert(Method::Get.wire()[0] == 'G' as u8);
            assert(m.wire()[0] == 'P' as u8);
        },
        Method::Delete => {},
        Method::Connect => {},
        Method::Options => {
            assert(Method::Connect.wire()[0] == 'C' as u8);
            assert(m.wire()[0] == 'O' as u8);
        },
        Method::Trace => {},
    }
}

} // verus!
