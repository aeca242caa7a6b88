//! Request targets: scheme, host, port and path, with a verified parser for
//! the `scheme://host[:port][/path]` shape the client accepts.

use vstd::prelude::*;

verus! {

use crate::bytes::{ascii_seq, spec_find, spec_starts_with, starts_with, find_byte, subvec};
use crate::num::{spec_is_dec, spec_dec_val, parse_u64_dec, spec_dec_of, to_dec_u64};

/// The transport schemes the client accepts.
#[derive(PartialEq, Eq, Structural, Clone, Copy, Debug)]
pub enum Scheme {
    Http,
    Https,
}

impl Scheme {
    /// The scheme's name on the wire.
    pub open spec fn wire(self) -> Seq<u8> {
        match self {
            Scheme::Http => ascii_seq("http"@),
            Scheme::Https => ascii_seq("https"@),
        }
    }

    /// The port used when the authority names none.
    pub open spec fn spec_default_port(self) -> u16 {
        match self {
            Scheme::Http => 80,
            Scheme::Https => 443,
        }
    }

    /// The port used when the authority names none.
    pub fn default_port(&self) -> (r: u16)
        ensures
            r == self.spec_default_port(),
    {
        match self {
            Scheme::Http => 80,
            Scheme::Https => 443,
        }
    }
}

/// A parsed request target. The path field keeps the query, and always
/// begins with a slash.
#[derive(Clone, Debug)]
pub struct Uri {
    pub scheme: Scheme,
    pub host: Vec<u8>,
    pub port: u16,
    pub path: Vec<u8>,
}

/// Bytes allowed in a host name: no separators, no line ends, no delimiters
/// that would change how the authority reads back.
pub open spec fn spec_host_byte_ok(c: u8) -> bool {
    c != ' ' as u8 && c != '\t' as u8 && c != '\r' as u8 && c != '\n' as u8 && c != '/' as u8
        && c != ':' as u8 && c != '@' as u8
}

/// Bytes allowed in a path: no separators, no line ends.
pub open spec fn spec_path_byte_ok(c: u8) -> bool {
    c != ' ' as u8 && c != '\t' as u8 && c != '\r' as u8 && c != '\n' as u8
}

pub open spec fn spec_host_ok(s: Seq<u8>) -> bool {
    s.len() > 0 && forall|i: int| 0 <= i < s.len() ==> spec_host_byte_ok(#[trigger] s[i])
}

pub open spec fn spec_path_ok(s: Seq<u8>) -> bool {
    s.len() > 0 && s[0] == '/' as u8 && forall|i: int|
        0 <= i < s.len() ==> spec_path_byte_ok(#[trigger] s[i])
}

/// A well-formed target: the invariant every `Uri` handed out by the parser
/// or accepted by the encoder satisfies.
pub open spec fn spec_uri_wf(u: Uri) -> bool {
    spec_host_ok(u.host@) && spec_path_ok(u.path@)
}

/// Splits the scheme prefix off a target written as bytes.
pub open spec fn spec_scheme_split(s: Seq<u8>) -> Option<(Scheme, Seq<u8>)> {
    if spec_starts_with(s, ascii_seq("http://"@)) {
        Some((Scheme::Http, s.skip(7)))
    } else if spec_starts_with(s, ascii_seq("https://"@)) {
        Some((Scheme::Https, s.skip(8)))
    } else {
        None
    }
}

/// The meaning of a target written as bytes: scheme, host, port, path.
pub open spec fn spec_parse_uri(s: Seq<u8>) -> Option<(Scheme, Seq<u8>, u16, Seq<u8>)> {
    match spec_scheme_split(s) {
        None => None,
        Some((scheme, rest)) => {
            let slash = spec_find(rest, '/' as u8);
            let authority = rest.take(slash);
            let path = if slash == rest.len() {
                ascii_seq("/"@)
            } else {
                rest.skip(slash)
            };
            let colon = spec_find(authority, ':' as u8);
            let host = authority.take(colon);
            if !spec_host_ok(host) || !spec_path_ok(path) {
                None
            } else if colon == authority.len() {
                Some((scheme, host, scheme.spec_default_port(), path))
            } else {
                let digits = authority.skip(colon + 1);
                if spec_is_dec(digits) && spec_dec_val(digits) <= u16::MAX {
                    Some((scheme, host, spec_dec_val(digits) as u16, path))
                } else {
                    None
                }
            }
        },
    }
}

impl Uri {
    /// Parses a target written as bytes.
    pub fn parse_bytes(s: &[u8]) -> (r: Option<Uri>)
        ensures
            match r {
                Some(u) => spec_parse_uri(s@) == Some((u.scheme, u.host@, u.port, u.path@))
                    && spec_uri_wf(u),
                None => spec_parse_uri(s@) == None::<(Scheme, Seq<u8>, u16, Seq<u8>)>,
            },
    {
        proof {
            reveal_strlit("http://");
            reveal_strlit("https://");
            reveal_strlit("/");
        }
        let mut http_prefix: Vec<u8> = Vec::new();
        crate::bytes::push_ascii(&mut http_prefix, "http://");
        let mut https_prefix: Vec<u8> = Vec::new();
        crate::bytes::push_ascii(&mut https_prefix, "https://");
        let (scheme, rest) = if starts_with(s, http_prefix.as_slice()) {
            proof {
                assert(ascii_seq("http://"@).len() == 7);
            }
            (Scheme::Http, subvec(s, 7, s.len()))
        } else if starts_with(s, https_prefix.as_slice()) {
            proof {
                assert(ascii_seq("https://"@).len() == 8);
            }
            (Scheme::Https, subvec(s, 8, s.len()))
        } else {
            return None;
        };
        let ghost rest_s = rest@;
        let slash = match find_byte(rest.as_slice(), '/' as u8) {
            Some(i) => i,
            None => rest.len(),
        };
        let authority = subvec(rest.as_slice(), 0, slash);
        proof {
            assert(authority@ =~= rest_s.take(spec_find(rest_s, '/' as u8)));
        }
        let path = if slash == rest.len() {
            let mut p: Vec<u8> = Vec::new();
            crate::bytes::push_ascii(&mut p, "/");
            proof {
                assert(p@ =~= ascii_seq("/"@));
            }
            p
        } else {
            let p = subvec(rest.as_slice(), slash, rest.len());
            proof {
                assert(p@ =~= rest_s.skip(spec_find(rest_s, '/' as u8)));
            }
            p
        };
        let colon = match find_byte(authority.as_slice(), ':' as u8) {
            Some(i) => i,
            None => authority.len(),
        };
        let host = subvec(authority.as_slice(), 0, colon);
        proof {
            assert(host@ =~= authority@.take(spec_find(authority@, ':' as u8)));
        }
        if !host_ok(host.as_slice()) || !path_ok(path.as_slice()) {
            return None;
        }
        if colon == authority.len() {
            let port = scheme.default_port();
            return Some(Uri { scheme, host, port, path });
        }
        let digits = subvec(authority.as_slice(), colon + 1, authority.len());
        proof {
            assert(digits@ =~= authority@.skip(spec_find(authority@, ':' as u8) + 1));
        }
        match parse_u64_dec(digits.as_slice()) {
            Some(n) if n <= u16::MAX as u64 => {
                let port = n as u16;
                Some(Uri { scheme, host, port, path })
            },
            _ => None,
        }
    }

    /// Parses a target written as a string; anything outside ASCII is
    /// rejected.
    pub fn from_str(s: &str) -> (r: Option<Uri>)
        ensures
            match r {
                Some(u) => spec_parse_uri(ascii_seq(s@)) == Some(
                    (u.scheme, u.host@, u.port, u.path@),
                ) && spec_uri_wf(u),
                None => !s.is_ascii() || spec_parse_uri(ascii_seq(s@)) == None::<
                    (Scheme, Seq<u8>, u16, Seq<u8>),
                >,
            },
    {
        if !s.is_ascii() {
            return None;
        }
        proof {
            vstd::string::is_ascii_spec_bytes(s);
        }
        let bs = vstd::string::StrSliceExecFns::as_bytes_vec(s);
        assert(bs@ =~= ascii_seq(s@));
        Uri::parse_bytes(bs.as_slice())
    }

    /// The authority as written back on the wire: the host, with the port
    /// appended when it is not the scheme's default.
    pub open spec fn spec_authority(&self) -> Seq<u8> {
        if self.port == self.scheme.spec_default_port() {
            self.host@
        } else {
            self.host@ + seq![':' as u8] + spec_dec_of(self.port as int)
        }
    }

    /// Writes the authority.
    pub fn authority_bytes(&self) -> (r: Vec<u8>)
        ensures
            r@ == self.spec_authority(),
    {
        let mut out: Vec<u8> = Vec::new();
        crate::bytes::push_bytes(&mut out, self.host.as_slice());
        if self.port != self.scheme.default_port() {
            out.push(':' as u8);
            let mut digits = to_dec_u64(self.port as u64);
            out.append(&mut digits);
            proof {
                assert(out@ =~= self.host@ + seq![':' as u8] + spec_dec_of(self.port as int));
            }
        } else {
            proof {
                assert(out@ =~= self.host@);
            }
        }
        out
    }

    /// The target in absolute form, as sent through a plaintext proxy.
    pub open spec fn spec_absolute_form(&self) -> Seq<u8> {
        self.scheme.wire() + ascii_seq("://"@) + self.spec_authority() + self.path@
    }

    /// Writes the target in absolute form.
    pub fn absolute_form(&self) -> (r: Vec<u8>)
        ensures
            r@ == self.spec_absolute_form(),
    {
        proof {
            reveal_strlit("http");
            reveal_strlit("https");
            reveal_strlit("://");
        }
        let mut out: Vec<u8> = Vec::new();
        match self.scheme {
            Scheme::Http => crate::bytes::push_ascii(&mut out, "http"),
            Scheme::Https => crate::bytes::push_ascii(&mut out, "https"),
        }
        crate::bytes::push_ascii(&mut out, "://");
        let mut auth = self.authority_bytes();
        out.append(&mut auth);
        crate::bytes::push_bytes(&mut out, self.path.as_slice());
        proof {
            assert(out@ =~= self.spec_absolute_form());
        }
        out
    }
}

/// Checks every byte of a host name.
pub fn host_ok(s: &[u8]) -> (r: bool)
    ensures
        r == spec_host_ok(s@),
{
    if s.len() == 0 {
        return false;
    }
    let mut i: usize = 0;
    while i < s.len()
        invariant
            i <= s@.len(),
            forall|j: int| 0 <= j < i ==> spec_host_byte_ok(#[trigger] s@[j]),
        decreases s@.len() - i,
    {
        let c = s[i];
        if c == ' ' as u8 || c == '\t' as u8 || c == '\r' as u8 || c == '\n' as u8 || c
            == '/' as u8 || c == ':' as u8 || c == '@' as u8 {
            return false;
        }
        i += 1;
    }
    true
}

/// Checks every byte of a path, and that it begins with a slash.
pub fn path_ok(s: &[u8]) -> (r: bool)
    ensures
        r == spec_path_ok(s@),
{
    if s.len() == 0 {
        return false;
    }
    if s[0] != '/' as u8 {
        return false;
    }
    let mut i: usize = 0;
    while i < s.len()
        invariant
            i <= s@.len(),
            s@.len() > 0,
            s@[0] == '/' as u8,
            forall|j: int| 0 <= j < i ==> spec_path_byte_ok(#[trigger] s@[j]),
        decreases s@.len() - i,
    {
        let c = s[i];
        if c == ' ' as u8 || c == '\t' as u8 || c == '\r' as u8 || c == '\n' as u8 {
            return false;
        }
        i += 1;
    }
    true
}

} // verus!
