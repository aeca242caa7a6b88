//! Configuration values: timeouts, retries, proxies, and the protocol and
//! TLS settings a client is built with. All of them are plain values; the
//! machinery that acts on them (clocks, sockets, certificate stores) lives
//! with the transport, outside the engine.

use vstd::prelude::*;

verus! {

use vstd::string::StrSliceExecFns;
use crate::error::{ErrorKind, HttpClientError};
use crate::redirect::Redirect;
use crate::uri::Uri;

/// A time budget in milliseconds, or none at all.
#[derive(PartialEq, Eq, Structural, Clone, Copy, Debug)]
pub struct Timeout {
    pub millis: Option<u64>,
}

impl Timeout {
    /// No time budget.
    pub fn none() -> (r: Timeout)
        ensures
            r.millis is None,
    {
        Timeout { millis: None }
    }

    /// A budget of whole seconds; the equivalent milliseconds must fit.
    pub fn from_secs(secs: u64) -> (r: Timeout)
        requires
            secs <= u64::MAX / 1000,
        ensures
            r.millis == Some((secs * 1000) as u64),
    {
        Timeout { millis: Some(secs * 1000) }
    }

    /// The budget, if one was set.
    pub fn inner(&self) -> (r: Option<u64>)
        ensures
            r == self.millis,
    {
        self.millis
    }
}

/// How many times a failed exchange may be retried.
#[derive(PartialEq, Eq, Structural, Clone, Copy, Debug)]
pub struct Retry {
    pub times: Option<u32>,
}

impl Retry {
    /// Never retry.
    pub fn none() -> (r: Retry)
        ensures
            r.times is None,
    {
        Retry { times: None }
    }

    /// Retry at most `times` times.
    pub fn max(times: u32) -> (r: Retry)
        ensures
            r.times == Some(times),
    {
        Retry { times: Some(times) }
    }

    /// The retry budget, if one was set.
    pub fn times(&self) -> (r: Option<u32>)
        ensures
            r == self.times,
    {
        self.times
    }
}

/// One proxy rule: requests under `intercept_scheme` go through `via`.
#[derive(Debug)]
pub struct Proxy {
    pub intercept_scheme: crate::uri::Scheme,
    pub via: Uri,
}

/// Builds a proxy rule from an address written as a string.
pub struct ProxyBuilder {
    pub intercept_scheme: crate::uri::Scheme,
    pub addr: String,
}

impl Proxy {
    /// A proxy for plain-HTTP requests, reached at `addr`.
    pub fn http(addr: &str) -> (r: ProxyBuilder)
        ensures
            r.intercept_scheme == crate::uri::Scheme::Http,
            r.addr@ == addr@,
    {
        ProxyBuilder { intercept_scheme: crate::uri::Scheme::Http, addr: String::from_str(addr) }
    }

    /// A proxy for HTTPS requests, reached at `addr`.
    pub fn https(addr: &str) -> (r: ProxyBuilder)
        ensures
            r.intercept_scheme == crate::uri::Scheme::Https,
            r.addr@ == addr@,
    {
        ProxyBuilder { intercept_scheme: crate::uri::Scheme::Https, addr: String::from_str(addr) }
    }
}

impl ProxyBuilder {
    /// Finishes the rule; the address must parse as a target.
    pub fn build(self) -> (r: Result<Proxy, HttpClientError>)
        ensures
            match r {
                Ok(p) => p.intercept_scheme == self.intercept_scheme
                    && crate::uri::spec_parse_uri(
                    crate::bytes::ascii_seq(self.addr@),
                ) == Some((p.via.scheme, p.via.host@, p.via.port, p.via.path@)),
                Err(e) => e.kind() == ErrorKind::Build && (!self.addr.is_ascii()
                    || crate::uri::spec_parse_uri(
                    crate::bytes::ascii_seq(self.addr@),
                ) is None),
            },
    {
        match Uri::from_str(self.addr.as_str()) {
            Some(u) => Ok(Proxy { intercept_scheme: self.intercept_scheme, via: u }),
            None => Err(HttpClientError::new(ErrorKind::Build, "invalid proxy address")),
        }
    }
}

/// The proxy rules a client applies, in order.
pub struct Proxies {
    pub list: Vec<Proxy>,
}

impl Default for Proxies {
    fn default() -> (r: Proxies)
        ensures
            r.list@.len() == 0,
    {
        Proxies { list: Vec::new() }
    }
}

impl Proxies {
    /// Appends one rule at the end, keeping the others.
    pub fn add_proxy(&mut self, proxy: Proxy)
        ensures
            final(self).list@ == old(self).list@.push(proxy),
    {
        self.list.push(proxy);
    }
}

/// Which protocol generation the client negotiates.
#[derive(PartialEq, Eq, Structural, Clone, Copy, Debug)]
pub enum HttpVersion {
    Http1,
    Http2PriorKnowledge,
}

/// HTTP/2 protocol settings, kept as plain values.
#[derive(PartialEq, Eq, Structural, Clone, Copy, Debug)]
pub struct Http2Config {
    pub max_frame_size: u32,
    pub max_header_list_size: u32,
    pub header_table_size: u32,
}

impl Http2Config {
    /// The default protocol settings.
    pub open spec fn spec_default() -> Http2Config {
        Http2Config {
            max_frame_size: 16384u32,
            max_header_list_size: 0xffff_ffffu32,
            header_table_size: 4096u32,
        }
    }
}

impl Default for Http2Config {
    fn default() -> (r: Http2Config)
        ensures
            r == Http2Config::spec_default(),
    {
        Http2Config {
            max_frame_size: 16384,
            max_header_list_size: 0xffff_ffff,
            header_table_size: 4096,
        }
    }
}

/// Protocol-level options.
#[derive(PartialEq, Eq, Structural, Clone, Copy, Debug)]
pub struct HttpConfig {
    pub version: HttpVersion,
    pub http2_config: Http2Config,
}

impl HttpConfig {
    /// The defaults: HTTP/1 with the default protocol settings.
    pub open spec fn spec_default() -> HttpConfig {
        HttpConfig { version: HttpVersion::Http1, http2_config: Http2Config::spec_default() }
    }
}

impl Default for HttpConfig {
    fn default() -> (r: HttpConfig)
        ensures
            r == HttpConfig::spec_default(),
    {
        HttpConfig {
            version: HttpVersion::Http1,
            http2_config: Http2Config {
                max_frame_size: 16384,
                max_header_list_size: 0xffff_ffff,
                header_table_size: 4096,
            },
        }
    }
}

/// A TLS protocol version bound.
#[derive(PartialEq, Eq, Structural, Clone, Copy, Debug)]
pub enum TlsVersion {
    Tls1_0,
    Tls1_1,
    Tls1_2,
    Tls1_3,
}

/// A certificate carried as PEM bytes.
pub struct Certificate {
    pub pem: Vec<u8>,
}

impl Certificate {
    /// Wraps PEM bytes.
    pub fn from_pem(pem: Vec<u8>) -> (r: Certificate)
        ensures
            r.pem@ == pem@,
    {
        Certificate { pem }
    }
}

/// How server certificates are judged.
#[derive(PartialEq, Eq, Structural, Clone, Copy, Debug)]
pub enum CertVerifier {
    /// The transport's built-in verification.
    BuiltIn,
    /// Trust everything.
    AcceptAll,
    /// Trust nothing.
    RejectAll,
}

/// TLS settings, kept as plain values for the transport to apply.
pub struct TlsConfig {
    pub max_version: Option<TlsVersion>,
    pub min_version: Option<TlsVersion>,
    pub root_certificates: Vec<Certificate>,
    pub ca_file: Option<String>,
    pub cipher_list: Option<String>,
    pub cipher_suites: Option<String>,
    pub built_in_root_certs: bool,
    pub accept_invalid_certs: bool,
    pub accept_invalid_hostnames: bool,
    pub sni: bool,
    pub verifier: CertVerifier,
}

/// Whether a TLS block holds every default: no version bounds, no
/// certificates or cipher preferences of its own, system roots in use,
/// strict verification, and server-name indication on.
pub open spec fn spec_tls_default(c: TlsConfig) -> bool {
    c.max_version is None && c.min_version is None && c.root_certificates@.len() == 0
        && c.ca_file is None && c.cipher_list is None && c.cipher_suites is None
        && c.built_in_root_certs && !c.accept_invalid_certs && !c.accept_invalid_hostnames && c.sni
        && c.verifier == CertVerifier::BuiltIn
}

impl Default for TlsConfig {
    fn default() -> (r: TlsConfig)
        ensures
            spec_tls_default(r),
    {
        TlsConfig {
            max_version: None,
            min_version: None,
            root_certificates: Vec::new(),
            ca_file: None,
            cipher_list: None,
            cipher_suites: None,
            built_in_root_certs: true,
            accept_invalid_certs: false,
            accept_invalid_hostnames: false,
            sni: true,
            verifier: CertVerifier::BuiltIn,
        }
    }
}

/// Client-level options: time budgets, the retry budget, and the redirect
/// policy.
pub struct ClientConfig {
    pub request_timeout: Timeout,
    pub connect_timeout: Timeout,
    pub redirect: Redirect,
    pub retry: Retry,
}

impl ClientConfig {
    /// The defaults: no time budgets, no retries, up to ten redirect hops.
    pub open spec fn spec_default() -> ClientConfig {
        ClientConfig {
            request_timeout: Timeout { millis: None },
            connect_timeout: Timeout { millis: None },
            redirect: Redirect { max: Some(10u32) },
            retry: Retry { times: None },
        }
    }
}

impl Default for ClientConfig {
    fn default() -> (r: ClientConfig)
        ensures
            r == ClientConfig::spec_default(),
    {
        ClientConfig {
            request_timeout: Timeout { millis: None },
            connect_timeout: Timeout { millis: None },
            redirect: Redirect { max: Some(10) },
            retry: Retry { times: None },
        }
    }
}

/// What the connector is built with.
pub struct ConnectorConfig {
    pub proxies: Proxies,
    pub tls: TlsConfig,
}

/// Whether a time budget has been exceeded after `elapsed_millis`.
pub open spec fn spec_deadline_exceeded(budget: Timeout, elapsed_millis: u64) -> bool {
    match budget.millis {
        Some(m) => elapsed_millis >= m,
        None => false,
    }
}

/// Checks a time budget against the time already spent. An exceeded budget
/// is a `Timeout` error — reported distinctly from any connector or
/// protocol failure, so a caller can tell "too slow" from "refused". The
/// transport measures the elapsed time and asks; the decision is made here.
pub fn check_deadline(budget: &Timeout, elapsed_millis: u64) -> (r: Result<(), HttpClientError>)
    ensures
        match r {
            Ok(()) => !spec_deadline_exceeded(*budget, elapsed_millis),
            Err(e) => spec_deadline_exceeded(*budget, elapsed_millis) && e.kind()
                == ErrorKind::Timeout,
        },
{
    match budget.millis {
        Some(m) => {
            if elapsed_millis >= m {
                Err(HttpClientError::new(ErrorKind::Timeout, "time budget exceeded"))
            } else {
                Ok(())
            }
        },
        None => Ok(()),
    }
}

/// The timing record of one request attempt: when connecting began and
/// ended, and when the transfer began and ended, in milliseconds of the
/// transport's clock. Each mark is write-once per attempt; a retry starts
/// over from an empty record.
#[derive(PartialEq, Eq, Structural, Clone, Copy, Debug)]
pub struct TimeGroup {
    pub connect_start: Option<u64>,
    pub connect_end: Option<u64>,
    pub transfer_start: Option<u64>,
    pub transfer_end: Option<u64>,
}

impl TimeGroup {
    /// An empty record.
    pub fn new() -> (r: TimeGroup)
        ensures
            r.connect_start is None,
            r.connect_end is None,
            r.transfer_start is None,
            r.transfer_end is None,
    {
        TimeGroup { connect_start: None, connect_end: None, transfer_start: None, transfer_end: None }
    }

    /// Marks when connecting began; only the first mark sticks.
    pub fn set_connect_start(&mut self, now: u64)
        ensures
            final(self).connect_start == (if old(self).connect_start is None {
                Some(now)
            } else {
                old(self).connect_start
            }),
            final(self).connect_end == old(self).connect_end,
            final(self).transfer_start == old(self).transfer_start,
            final(self).transfer_end == old(self).transfer_end,
    {
        if self.connect_start.is_none() {
            self.connect_start = Some(now);
        }
    }

    /// Marks when connecting ended; only the first mark sticks.
    pub fn set_connect_end(&mut self, now: u64)
        ensures
            final(self).connect_end == (if old(self).connect_end is None {
                Some(now)
            } else {
                old(self).connect_end
            }),
            final(self).connect_start == old(self).connect_start,
            final(self).transfer_start == old(self).transfer_start,
            final(self).transfer_end == old(self).transfer_end,
    {
        if self.connect_end.is_none() {
            self.connect_end = Some(now);
        }
    }

    /// Marks when the transfer began; only the first mark sticks.
    pub fn set_transfer_start(&mut self, now: u64)
        ensures
            final(self).transfer_start == (if old(self).transfer_start is None {
                Some(now)
            } else {
                old(self).transfer_start
            }),
            final(self).connect_start == old(self).connect_start,
            final(self).connect_end == old(self).connect_end,
            final(self).transfer_end == old(self).transfer_end,
    {
        if self.transfer_start.is_none() {
            self.transfer_start = Some(now);
        }
    }

    /// Marks when the transfer ended; only the first mark sticks.
    pub fn set_transfer_end(&mut self, now: u64)
        ensures
            final(self).transfer_end == (if old(self).transfer_end is None {
                Some(now)
            } else {
                old(self).transfer_end
            }),
            final(self).connect_start == old(self).connect_start,
            final(self).connect_end == old(self).connect_end,
            final(self).transfer_start == old(self).transfer_start,
    {
        if self.transfer_end.is_none() {
            self.transfer_end = Some(now);
        }
    }
}

} // verus!
