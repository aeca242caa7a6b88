//! Requests and their builder.

use vstd::prelude::*;

verus! {

use vstd::string::{StrSliceExecFns, StringSliceAdditionalSpecFns};
use crate::body::Body;
use crate::error::{ErrorKind, HttpClientError};
use crate::headers::Headers;
use crate::method::Method;
use crate::uri::{Uri, spec_uri_wf};
use crate::version::Version;

/// One request: method, target, version, headers and body.
#[derive(Debug)]
pub struct Request {
    pub method: Method,
    pub uri: Uri,
    pub version: Version,
    pub headers: Headers,
    pub body: Body,
}

impl Request {
    /// Starts a builder.
    pub fn builder() -> (r: RequestBuilder)
        ensures
            r.method == Method::Get,
            r.uri is None,
            r.version == Version::Http1_1,
            r.headers@ == Seq::<(Seq<u8>, Seq<u8>)>::empty(),
            !r.bad,
    {
        RequestBuilder {
            method: Method::Get,
            uri: None,
            version: Version::Http1_1,
            headers: Headers::new(),
            bad: false,
        }
    }
}

/// Accumulates the parts of a request; `body` finishes it.
///
/// A malformed target, method or version is remembered and reported when the
/// request is finished, so calls can be chained.
pub struct RequestBuilder {
    pub method: Method,
    pub uri: Option<Uri>,
    pub version: Version,
    pub headers: Headers,
    pub bad: bool,
}

impl RequestBuilder {
    /// Sets the target from a string.
    pub fn url(self, s: &str) -> (r: RequestBuilder)
        ensures
            r.method == self.method,
            r.version == self.version,
            r.headers@ == self.headers@,
            match crate::uri::spec_parse_uri(crate::bytes::ascii_seq(s@)) {
                Some((sc, h, p, pa)) => s.is_ascii() ==> (r.bad == self.bad && match r.uri {
                    Some(u) => u.scheme == sc && u.host@ == h && u.port == p && u.path@ == pa,
                    None => false,
                }),
                None => r.bad,
            },
    {
        let RequestBuilder { method, uri, version, headers, bad } = self;
        match Uri::from_str(s) {
            Some(u) => RequestBuilder { method, uri: Some(u), version, headers, bad },
            None => RequestBuilder { method, uri, version, headers, bad: true },
        }
    }

    /// Sets the method from its token.
    pub fn method(self, s: &str) -> (r: RequestBuilder)
        ensures
            r.uri == self.uri,
            r.version == self.version,
            r.headers@ == self.headers@,
            match Method::spec_of(crate::bytes::ascii_seq(s@)) {
                Some(m) => s.is_ascii() ==> (r.method == m && r.bad == self.bad),
                None => r.bad,
            },
    {
        let RequestBuilder { method, uri, version, headers, bad } = self;
        match Method::from_str(s) {
            Some(m) => RequestBuilder { method: m, uri, version, headers, bad },
            None => RequestBuilder { method, uri, version, headers, bad: true },
        }
    }

    /// Sets the version from its token.
    pub fn version(self, s: &str) -> (r: RequestBuilder)
        ensures
            r.uri == self.uri,
            r.method == self.method,
            r.headers@ == self.headers@,
            match Version::spec_of(crate::bytes::ascii_seq(s@)) {
                Some(v) => s.is_ascii() ==> (r.version == v && r.bad == self.bad),
                None => r.bad,
            },
    {
        let RequestBuilder { method, uri, version, headers, bad } = self;
        match Version::from_str(s) {
            Some(v) => RequestBuilder { method, uri, version: v, headers, bad },
            None => RequestBuilder { method, uri, version, headers, bad: true },
        }
    }

    /// Appends one header field.
    pub fn header(self, name: &str, value: &str) -> (r: RequestBuilder)
        ensures
            r.uri == self.uri,
            r.method == self.method,
            r.version == self.version,
            r.bad == self.bad,
            r.headers@ == self.headers@.push((name.spec_bytes(), value.spec_bytes())),
    {
        let RequestBuilder { method, uri, version, mut headers, bad } = self;
        headers.push(name.as_bytes_vec(), value.as_bytes_vec());
        RequestBuilder { method, uri, version, headers, bad }
    }

    /// Finishes the request with the given body.
    ///
    /// Fails when no valid target was set or an earlier part was malformed.
    pub fn body(self, body: Body) -> (r: Result<Request, HttpClientError>)
        ensures
            match r {
                Ok(req) => !self.bad && self.uri is Some && req.method == self.method && req.uri
                    == self.uri->Some_0 && req.version == self.version && req.headers@
                    == self.headers@ && req.body == body,
                Err(e) => (self.bad || self.uri is None) && e.kind() == ErrorKind::Build,
            },
    {
        let RequestBuilder { method, uri, version, headers, bad } = self;
        if bad {
            return Err(HttpClientError::new(ErrorKind::Build, "invalid request part"));
        }
        match uri {
            Some(u) => Ok(Request { method, uri: u, version, headers, body }),
            None => Err(HttpClientError::new(ErrorKind::Build, "no url set")),
        }
    }
}

} // verus!
