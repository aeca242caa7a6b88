//! The client: obtains a connection from the pool or the connector, runs
//! one exchange at a time, retries only reusable bodies, and follows
//! redirects under the policy.

use vstd::prelude::*;

verus! {

use crate::body::Body;
use crate::config::{ClientConfig, ConnectorConfig, HttpConfig, Proxy, Timeout, Retry};
use crate::conn::{Conn, Transport};
use crate::error::{ErrorKind, HttpClientError};
use crate::normalizer::format_request;
use crate::pool::{ConnPool, PoolKey};
use crate::redirect::{Redirect, RedirectInfo, Trigger, decide};
use crate::request::Request;
use crate::response::Response;
use crate::uri::Uri;

/// Produces new connections. The engine is transport-agnostic: the
/// connector hands out streams that were established for it, each holding
/// the bytes its peer will send, in the order targets are connected.
pub struct HttpConnector {
    config: ConnectorConfig,
    prepared: Vec<(Vec<u8>, bool, bool)>,
    served: usize,
}

impl HttpConnector {
    /// How many connections were handed out.
    pub closed spec fn spec_served(&self) -> int {
        self.served as int
    }

    /// How many prepared transports remain.
    pub closed spec fn spec_remaining(&self) -> int {
        self.prepared@.len() - self.served
    }

    /// The transport prepared at `i`: the bytes its peer will send, the
    /// plaintext-proxy flag, and the TLS flag.
    pub closed spec fn spec_prepared_at(&self, i: int) -> (Seq<u8>, bool, bool) {
        (self.prepared@[i].0@, self.prepared@[i].1, self.prepared@[i].2)
    }

    /// The proxy rules this connector was configured with, in order.
    pub closed spec fn spec_proxies(&self) -> Seq<crate::config::Proxy> {
        self.config.proxies.list@
    }

    /// The TLS settings this connector was configured with.
    pub closed spec fn spec_tls(&self) -> crate::config::TlsConfig {
        self.config.tls
    }

    pub closed spec fn wf(&self) -> bool {
        self.served <= self.prepared@.len()
    }

    /// A connector with the given configuration and no transport yet.
    pub fn new(config: ConnectorConfig) -> (r: HttpConnector)
        ensures
            r.spec_served() == 0,
            r.spec_remaining() == 0,
            r.spec_proxies() == config.proxies.list@,
            r.spec_tls() == config.tls,
            r.wf(),
    {
        HttpConnector { config, prepared: Vec::new(), served: 0 }
    }

    /// Hands the connector an established transport: the bytes its peer
    /// will send, and whether it runs through a plaintext proxy or TLS.
    pub fn provide(&mut self, input: Vec<u8>, is_proxy: bool, is_tls: bool)
        requires
            old(self).wf(),
        ensures
            final(self).wf(),
            final(self).spec_served() == old(self).spec_served(),
            final(self).spec_remaining() == old(self).spec_remaining() + 1,
            final(self).spec_proxies() == old(self).spec_proxies(),
            final(self).spec_tls() == old(self).spec_tls(),
            final(self).spec_prepared_at(old(self).spec_served() + old(self).spec_remaining())
                == (input@, is_proxy, is_tls),
            forall|i: int|
                0 <= i < old(self).spec_served() + old(self).spec_remaining() ==> final(self).spec_prepared_at(i) == old(self).spec_prepared_at(i),
    {
        self.prepared.push((input, is_proxy, is_tls));
    }

    /// Produces the next connection, or fails when no transport is left.
    pub fn connect(&mut self) -> (r: Result<Conn, HttpClientError>)
        requires
            old(self).wf(),
        ensures
            final(self).wf(),
            final(self).spec_proxies() == old(self).spec_proxies(),
            final(self).spec_tls() == old(self).spec_tls(),
            forall|i: int|
                0 <= i < old(self).spec_served() + old(self).spec_remaining() ==> final(self).spec_prepared_at(i) == old(self).spec_prepared_at(i),
            match r {
                Ok(c) => old(self).spec_remaining() > 0 && final(self).spec_served() == old(self).spec_served() + 1 && final(self).spec_remaining() == old(self).spec_remaining()
                    - 1 && c.wf() && !c.spec_shutdown() && !c.spec_closable() && c.taken() == 0
                    && c.output() == Seq::<u8>::empty() && c.input() == old(self).spec_prepared_at(
                    old(self).spec_served(),
                ).0 && c.spec_is_proxy() == old(self).spec_prepared_at(old(self).spec_served()).1
                    && c.spec_is_tls() == old(self).spec_prepared_at(old(self).spec_served()).2,
                Err(e) => old(self).spec_remaining() == 0 && e.kind() == ErrorKind::Connect
                    && *final(self) == *old(self),
            },
    {
        if self.served >= self.prepared.len() {
            return Err(HttpClientError::new(ErrorKind::Connect, "no transport established"));
        }
        let entry = &self.prepared[self.served];
        let input = crate::bytes::subvec(entry.0.as_slice(), 0, entry.0.len());
        let is_proxy = entry.1;
        let is_tls = entry.2;
        self.served = self.served + 1;
        let stream = Transport::new(input);
        Ok(Conn::new(stream, is_proxy, is_tls))
    }
}

impl Default for HttpConnector {
    fn default() -> (r: HttpConnector)
        ensures
            r.spec_served() == 0,
            r.spec_remaining() == 0,
            r.spec_proxies().len() == 0,
            crate::config::spec_tls_default(r.spec_tls()),
            r.wf(),
    {
        HttpConnector {
            config: ConnectorConfig {
                proxies: crate::config::Proxies { list: Vec::new() },
                tls: crate::config::TlsConfig {
                    max_version: None,
                    min_version: None,
                    root_certificates: Vec::new(),
                    ca_file: None,
                    cipher_list: None,
                    cipher_suites: None,
                    built_in_root_certs: true,
                    accept_invalid_certs: false,
                    accept_invalid_hostnames: false,
                    sni: true,
                    verifier: crate::config::CertVerifier::BuiltIn,
                },
            },
            prepared: Vec::new(),
            served: 0,
        }
    }
}

/// The retry budget a config grants.
pub open spec fn spec_retry_budget(config: ClientConfig) -> int {
    match config.retry.times {
        Some(t) => t as int,
        None => 0,
    }
}

/// The client: a connection pool, a connector, and the client-level
/// configuration.
pub struct Client {
    inner: ConnPool,
    connector: HttpConnector,
    config: ClientConfig,
    http: HttpConfig,
    attempts: u64,
}

impl Client {
    /// The client's own well-formedness: the pool holds no shutdown
    /// connection and the connector is consistent.
    pub open spec fn wf(&self) -> bool {
        self.spec_pool().wf() && self.spec_connector().wf()
    }

    /// The idle pool.
    pub closed spec fn spec_pool(&self) -> ConnPool {
        self.inner
    }

    /// The connector.
    pub closed spec fn spec_connector(&self) -> HttpConnector {
        self.connector
    }

    /// The configuration.
    pub closed spec fn spec_config(&self) -> ClientConfig {
        self.config
    }

    /// How many exchange attempts the last top-level call made.
    pub closed spec fn spec_attempts(&self) -> int {
        self.attempts as int
    }

    /// A client over the default connector: a fresh empty pool and every
    /// option at its default.
    pub fn new() -> (r: Client)
        ensures
            r.wf(),
            r.spec_connector().spec_remaining() == 0,
            r.spec_connector().spec_proxies().len() == 0,
            crate::config::spec_tls_default(r.spec_connector().spec_tls()),
            r.spec_pool().spec_len() == 0,
            r.spec_config() == ClientConfig::spec_default(),
            r.spec_attempts() == 0,
    {
        Client {
            inner: ConnPool::new(),
            connector: HttpConnector::default(),
            config: ClientConfig::default(),
            http: HttpConfig::default(),
            attempts: 0,
        }
    }

    /// Starts a builder holding every default.
    pub fn builder() -> (r: ClientBuilder)
        ensures
            r.http == HttpConfig::spec_default(),
            r.client == ClientConfig::spec_default(),
            r.proxies.list@.len() == 0,
            crate::config::spec_tls_default(r.tls),
    {
        ClientBuilder::new()
    }

    /// A client over the given connector, with a fresh empty pool and the
    /// default configuration.
    pub fn with_connector(connector: HttpConnector) -> (r: Client)
        requires
            connector.wf(),
        ensures
            r.wf(),
            r.spec_connector() == connector,
            r.spec_pool().spec_len() == 0,
            r.spec_config() == ClientConfig::spec_default(),
            r.spec_attempts() == 0,
    {
        Client {
            inner: ConnPool::new(),
            connector,
            config: ClientConfig::default(),
            http: HttpConfig::default(),
            attempts: 0,
        }
    }

    /// Hands the client's connector an established transport.
    pub fn provide_transport(&mut self, input: Vec<u8>, is_proxy: bool, is_tls: bool)
        requires
            old(self).wf(),
        ensures
            final(self).wf(),
            final(self).spec_connector().spec_served() == old(self).spec_connector().spec_served(),
            final(self).spec_connector().spec_remaining() == old(self).spec_connector().spec_remaining() + 1,
            final(self).spec_connector().spec_prepared_at(
                old(self).spec_connector().spec_served() + old(
                    self,
                ).spec_connector().spec_remaining(),
            ) == (input@, is_proxy, is_tls),
            forall|i: int|
                0 <= i < old(self).spec_connector().spec_served() + old(
                    self,
                ).spec_connector().spec_remaining() ==> final(self).spec_connector().spec_prepared_at(i) == old(self).spec_connector().spec_prepared_at(i),
            final(self).spec_pool() == old(self).spec_pool(),
            final(self).spec_config() == old(self).spec_config(),
    {
        self.connector.provide(input, is_proxy, is_tls);
    }

    /// How many connections rest idle in the pool.
    pub fn idle_connections(&self) -> (r: usize)
        ensures
            r == self.spec_pool().spec_len(),
    {
        self.inner.len()
    }

    /// How many exchange attempts the last top-level call made.
    pub fn attempts_made(&self) -> (r: u64)
        ensures
            r == self.spec_attempts(),
    {
        self.attempts
    }

    /// An idle pooled connection for the target, or a fresh one from the
    /// connector. Whatever comes back is well-formed, not shut down, and
    /// held by no other exchange: the first pooled entry keyed by the
    /// target when one rests there, else the connector's next transport.
    /// Failure comes exactly when neither has one.
    fn connect_to(&mut self, uri: &Uri) -> (r: Result<Conn, HttpClientError>)
        requires
            old(self).wf(),
        ensures
            final(self).wf(),
            final(self).spec_config() == old(self).spec_config(),
            final(self).spec_attempts() == old(self).spec_attempts(),
            ({
                let pool = old(self).spec_pool();
                let f = pool.spec_find_key(uri.scheme, uri.host@, uri.port);
                let connector = old(self).spec_connector();
                match r {
                    Ok(c) => c.wf() && !c.spec_shutdown() && (if f < pool.spec_len() {
                        c == pool.spec_conn_at(f) && final(self).spec_pool().spec_len()
                            == pool.spec_len() - 1 && final(self).spec_connector() == connector
                    } else {
                        connector.spec_remaining() > 0 && c.input() == connector.spec_prepared_at(
                            connector.spec_served(),
                        ).0 && c.spec_is_proxy() == connector.spec_prepared_at(
                            connector.spec_served(),
                        ).1 && c.spec_is_tls() == connector.spec_prepared_at(
                            connector.spec_served(),
                        ).2 && c.taken() == 0 && c.output() == Seq::<u8>::empty() && final(self).spec_pool() == pool && final(self).spec_connector().spec_served()
                            == connector.spec_served() + 1
                    }),
                    Err(e) => e.kind() == ErrorKind::Connect && f == pool.spec_len()
                        && connector.spec_remaining() == 0 && final(self).spec_pool() == pool
                        && final(self).spec_connector() == connector,
                }
            }),
    {
        match self.inner.check_out(uri.scheme, uri.host.as_slice(), uri.port) {
            Some(conn) => Ok(conn),
            None => self.connector.connect(),
        }
    }

    /// Runs one exchange on the connection, drains the body, and returns
    /// the connection to the pool when the response allowed reuse.
    ///
    /// The response is a pure function of the connection's unread bytes and
    /// the request's method; the exchange succeeds exactly when the body
    /// does not abort and those bytes carry a complete, well-framed
    /// response. The pool grows by that one connection exactly when the
    /// keep-alive rules allowed reuse; on failure it is untouched.
    fn send_request_on_conn(&mut self, conn: Conn, request: &Request) -> (r: Result<
        Response,
        HttpClientError,
    >)
        requires
            old(self).wf(),
            conn.wf(),
            !conn.spec_shutdown(),
        ensures
            final(self).wf(),
            final(self).spec_config() == old(self).spec_config(),
            final(self).spec_attempts() == old(self).spec_attempts(),
            final(self).spec_connector() == old(self).spec_connector(),
            ({
                let rem = conn.input().skip(conn.taken());
                let outcome = crate::http1::spec_response_of(rem, request.method);
                match r {
                    Ok(resp) => outcome is Some && ({
                        let t = outcome->Some_0;
                        resp.part.version == t.0 && resp.part.status == t.1 && resp.part.headers@
                            == t.2 && resp.body@ == t.3 && final(self).spec_pool().spec_len()
                            == old(self).spec_pool().spec_len() + (
                        if crate::http1::spec_must_shutdown(t.0, t.2) {
                            0int
                        } else {
                            1int
                        }) && (forall|j: int|
                            0 <= j < old(self).spec_pool().spec_len() ==> (#[trigger] final(self).spec_pool().spec_conn_at(j)) == old(self).spec_pool().spec_conn_at(j)
                                && final(self).spec_pool().spec_key_at(j) == old(self).spec_pool().spec_key_at(j))
                    }),
                    Err(e) => final(self).spec_pool() == old(self).spec_pool(),
                }
            }),
            r is Ok <==> (!request.body.spec_aborts() && crate::http1::spec_response_of(
                conn.input().skip(conn.taken()),
                request.method,
            ) is Some),
    {
        let host_copy = crate::bytes::subvec(request.uri.host.as_slice(), 0, request.uri.host.len());
        let key = PoolKey { scheme: request.uri.scheme, host: host_copy, port: request.uri.port };
        match crate::http1::request(conn, request) {
            Ok((part, body)) => {
                match body.read_all() {
                    Ok((data, conn_back)) => {
                        let response = Response::new(part, data);
                        self.inner.check_in(key, conn_back);
                        Ok(response)
                    },
                    Err(e) => Err(e),
                }
            },
            Err(e) => Err(e),
        }
    }

    /// The unread bytes of the connection the next exchange for this
    /// target would use: the first matching pooled connection's, else the
    /// connector's next prepared transport; `None` when neither exists.
    pub open spec fn spec_next_stream(self, scheme: crate::uri::Scheme, host: Seq<u8>, port: u16) -> Option<Seq<u8>> {
        let pool = self.spec_pool();
        let f = pool.spec_find_key(scheme, host, port);
        if f < pool.spec_len() {
            Some(pool.spec_conn_at(f).input().skip(pool.spec_conn_at(f).taken()))
        } else if self.spec_connector().spec_remaining() > 0 {
            Some(self.spec_connector().spec_prepared_at(self.spec_connector().spec_served()).0)
        } else {
            None
        }
    }

    /// Validates and completes the request, connects, and runs the
    /// exchange. No redirect is followed here.
    ///
    /// A method outside the request's version is refused before anything
    /// else happens; with a valid request, the call succeeds exactly when a
    /// connection was to be had, the body does not abort, and the
    /// connection's stream carries a complete, well-framed response — which
    /// is then the response returned.
    fn send_unformatted_request(&mut self, request: &mut Request) -> (r: Result<
        Response,
        HttpClientError,
    >)
        requires
            old(self).wf(),
        ensures
            final(self).wf(),
            final(self).spec_config() == old(self).spec_config(),
            final(self).spec_attempts() == old(self).spec_attempts(),
            final(request).body == old(request).body,
            final(request).uri == old(request).uri,
            final(request).method == old(request).method,
            final(request).version == old(request).version,
            final(self).spec_connector().spec_served() <= old(self).spec_connector().spec_served()
                + 1,
            !crate::normalizer::spec_method_in_version(old(request).method, old(request).version)
                ==> (r is Err && r->Err_0.kind() == ErrorKind::Request && r->Err_0.msg()
                == "Unknown METHOD in HTTP/1.0"@ && final(self).spec_pool() == old(self).spec_pool() && final(self).spec_connector() == old(self).spec_connector()),
            ({
                let u = old(request).uri;
                let ns = old(self).spec_next_stream(u.scheme, u.host@, u.port);
                (crate::normalizer::spec_method_in_version(old(request).method, old(request).version)
                    && ns is None) ==> (r is Err && r->Err_0.kind() == ErrorKind::Connect && final(self).spec_pool() == old(self).spec_pool() && final(self).spec_connector() == old(self).spec_connector())
            }),
            ({
                let m = old(request).method;
                let u = old(request).uri;
                let ns = old(self).spec_next_stream(u.scheme, u.host@, u.port);
                crate::normalizer::spec_method_in_version(m, old(request).version) ==> match r {
                    Ok(resp) => ns is Some && ({
                        let outcome = crate::http1::spec_response_of(ns->Some_0, m);
                        let pool = old(self).spec_pool();
                        let hit = pool.spec_find_key(u.scheme, u.host@, u.port) < pool.spec_len();
                        outcome is Some && resp.part.version == outcome->Some_0.0
                            && resp.part.status == outcome->Some_0.1 && resp.part.headers@
                            == outcome->Some_0.2 && resp.body@ == outcome->Some_0.3 && final(self).spec_pool().spec_len() == pool.spec_len() - (if hit {
                            1int
                        } else {
                            0int
                        }) + (
                        if crate::http1::spec_must_shutdown(outcome->Some_0.0, outcome->Some_0.2) {
                            0int
                        } else {
                            1int
                        })
                    }),
                    Err(e) => ns is None ==> e.kind() == ErrorKind::Connect,
                }
            }),
            r is Ok <==> (crate::normalizer::spec_method_in_version(
                old(request).method,
                old(request).version,
            ) && !old(request).body.spec_aborts() && ({
                let u = old(request).uri;
                let ns = old(self).spec_next_stream(u.scheme, u.host@, u.port);
                ns is Some && crate::http1::spec_response_of(ns->Some_0, old(request).method)
                    is Some
            })),
    {
        match format_request(request) {
            Ok(()) => {},
            Err(e) => {
                return Err(e);
            },
        }
        let conn = match self.connect_to(&request.uri) {
            Ok(c) => c,
            Err(e) => {
                return Err(e);
            },
        };
        proof {
            if conn.taken() == 0 {
                assert(conn.input().skip(0) =~= conn.input());
            }
        }
        self.send_request_on_conn(conn, request)
    }

    /// Follows the redirect policy from a first response: each next link
    /// re-points the request — replacing a body that cannot be replayed
    /// with an empty one, keeping a replayable one — and sends again, until
    /// the policy stops or fails. The loop is bounded by the policy's own
    /// hop limit; a response that is no redirect, or a policy that follows
    /// none, comes back as passed, with the request untouched. The policy's
    /// refusals (hop limit, bad `Location`) propagate as `Redirect` errors.
    #[verifier::loop_isolation(false)]
    pub fn redirect(&mut self, response: Response, request: &mut Request) -> (r: Result<
        Response,
        HttpClientError,
    >)
        requires
            old(self).wf(),
        ensures
            final(self).wf(),
            final(self).spec_config() == old(self).spec_config(),
            final(self).spec_attempts() == old(self).spec_attempts(),
            final(request).method == old(request).method,
            final(request).version == old(request).version,
            old(request).body.spec_reusable() ==> final(request).body == old(request).body,
            old(self).spec_config().redirect.max is None ==> final(request).body == old(request).body,
            final(request).body == old(request).body || final(request).body == Body::Empty,
            (!crate::redirect::spec_is_redirect_status(response.part.status) || old(self).spec_config().redirect.max is None) ==> (r is Ok && r->Ok_0.part.version
                == response.part.version && r->Ok_0.part.status == response.part.status
                && r->Ok_0.part.headers@ == response.part.headers@ && r->Ok_0.body@
                == response.body@ && *final(request) == *old(request) && final(self).spec_pool()
                == old(self).spec_pool() && final(self).spec_connector() == old(self).spec_connector()),
            (crate::redirect::spec_is_redirect_status(response.part.status) && old(self).spec_config().redirect.max == Some(0u32)) ==> (r is Err && r->Err_0.kind()
                == ErrorKind::Redirect),
            final(self).spec_connector().spec_served() <= old(self).spec_connector().spec_served()
                + (match old(self).spec_config().redirect.max {
                Some(m) => m as int,
                None => 0int,
            }),
            ({
                // One followed hop: the passed response redirects to a
                // target whose stream carries a final response, and that
                // response comes back.
                let m = old(request).method;
                let loc = crate::headers::spec_get(
                    response.part.headers@,
                    crate::bytes::ascii_seq("Location"@),
                );
                let hop = crate::redirect::spec_is_redirect_status(response.part.status) && (
                match old(self).spec_config().redirect.max {
                    Some(mm) => mm >= 1,
                    None => false,
                }) && loc is Some && crate::uri::spec_parse_uri(loc->Some_0) is Some
                    && crate::normalizer::spec_method_in_version(m, old(request).version) && ({
                    let (sc, h, p, pa) = crate::uri::spec_parse_uri(loc->Some_0)->Some_0;
                    let ns = old(self).spec_next_stream(sc, h, p);
                    ns is Some && crate::http1::spec_response_of(ns->Some_0, m) is Some
                        && !crate::redirect::spec_is_redirect_status(
                        crate::http1::spec_response_of(ns->Some_0, m)->Some_0.1,
                    )
                });
                hop ==> (r is Ok && ({
                    let (sc, h, p, pa) = crate::uri::spec_parse_uri(loc->Some_0)->Some_0;
                    let ns = old(self).spec_next_stream(sc, h, p);
                    let t = crate::http1::spec_response_of(ns->Some_0, m)->Some_0;
                    r->Ok_0.part.version == t.0 && r->Ok_0.part.status == t.1
                        && r->Ok_0.part.headers@ == t.2 && r->Ok_0.body@ == t.3
                }))
            }),
    {
        let ghost orig_response = response;
        let mut response = response;
        let mut info = RedirectInfo::new();
        let ghost limit: int = match self.config.redirect.max {
            Some(m) => m as int,
            None => 0,
        };
        let ghost pass_through = !crate::redirect::spec_is_redirect_status(
            orig_response.part.status,
        ) || self.spec_config().redirect.max is None;
        let ghost hop_loc = crate::headers::spec_get(
            orig_response.part.headers@,
            crate::bytes::ascii_seq("Location"@),
        );
        let ghost one_hop = ({
            let m = old(request).method;
            crate::redirect::spec_is_redirect_status(orig_response.part.status) && (
            match old(self).spec_config().redirect.max {
                Some(mm) => mm >= 1,
                None => false,
            }) && hop_loc is Some && crate::uri::spec_parse_uri(hop_loc->Some_0) is Some
                && crate::normalizer::spec_method_in_version(m, old(request).version) && ({
                let (sc, h, p, pa) = crate::uri::spec_parse_uri(hop_loc->Some_0)->Some_0;
                let ns = old(self).spec_next_stream(sc, h, p);
                ns is Some && crate::http1::spec_response_of(ns->Some_0, m) is Some
                    && !crate::redirect::spec_is_redirect_status(
                    crate::http1::spec_response_of(ns->Some_0, m)->Some_0.1,
                )
            })
        });
        let ghost hop_target = ({
            let (sc, h, p, pa) = crate::uri::spec_parse_uri(hop_loc->Some_0)->Some_0;
            let ns = old(self).spec_next_stream(sc, h, p);
            crate::http1::spec_response_of(ns->Some_0, old(request).method)->Some_0
        });
        loop
            invariant
                self.wf(),
                self.spec_config() == old(self).spec_config(),
                self.spec_attempts() == old(self).spec_attempts(),
                (old(request).body.spec_reusable() || old(self).spec_config().redirect.max
                    is None) ==> request.body == old(request).body,
                request.body == old(request).body || request.body == Body::Empty,
                request.method == old(request).method,
                request.version == old(request).version,
                self.spec_connector().spec_served() <= old(self).spec_connector().spec_served()
                    + info.count,
                pass_through ==> (response == orig_response && *request == *old(request)
                    && self.spec_pool() == old(self).spec_pool() && self.spec_connector() == old(self).spec_connector()),
                (crate::redirect::spec_is_redirect_status(orig_response.part.status)
                    && old(self).spec_config().redirect.max == Some(0u32)) ==> response
                    == orig_response,
                one_hop ==> ((response == orig_response && *self == *old(self)
                    && *request == *old(request) && info.count == 0) || (response.part.version
                    == hop_target.0 && response.part.status == hop_target.1
                    && response.part.headers@ == hop_target.2 && response.body@ == hop_target.3)),
                match self.config.redirect.max {
                    Some(m) => info.count <= m as u64 && limit == m as int,
                    None => true,
                },
            decreases limit - info.count,
        {
            let redirect_policy = Redirect { max: self.config.redirect.max };
            match decide(&redirect_policy, &response.part, &mut info) {
                Ok(Trigger::Stop) => {
                    return Ok(response);
                },
                Ok(Trigger::NextLink(uri)) => {
                    if !request.body.reuse() {
                        request.body = Body::empty();
                    }
                    request.uri = uri;
                    match self.send_unformatted_request(request) {
                        Ok(resp) => {
                            response = resp;
                        },
                        Err(e) => {
                            return Err(e);
                        },
                    }
                },
                Err(e) => {
                    return Err(e);
                },
            }
        }
    }

    /// One formatted send followed by the redirect loop.
    ///
    /// An invalid method/version pair fails with the formatter's error; a
    /// target that neither the pool nor the connector can serve fails as a
    /// connector failure; and a first response that is no redirect (or a
    /// policy following none) comes back as the final response.
    fn send_request(&mut self, request: &mut Request) -> (r: Result<Response, HttpClientError>)
        requires
            old(self).wf(),
        ensures
            final(self).wf(),
            final(self).spec_config() == old(self).spec_config(),
            final(self).spec_attempts() == old(self).spec_attempts(),
            final(request).method == old(request).method,
            final(request).version == old(request).version,
            old(request).body.spec_reusable() ==> final(request).body == old(request).body,
            old(self).spec_config().redirect.max is None ==> final(request).body == old(request).body,
            final(request).body == old(request).body || final(request).body == Body::Empty,
            final(self).spec_connector().spec_served() <= old(self).spec_connector().spec_served()
                + 1 + (match old(self).spec_config().redirect.max {
                Some(m) => m as int,
                None => 0int,
            }),
            !crate::normalizer::spec_method_in_version(old(request).method, old(request).version)
                ==> (r is Err && r->Err_0.kind() == ErrorKind::Request && r->Err_0.msg()
                == "Unknown METHOD in HTTP/1.0"@ && final(self).spec_pool() == old(self).spec_pool() && final(self).spec_connector() == old(self).spec_connector()
                && final(request).body == old(request).body),
            ({
                let u = old(request).uri;
                let ns = old(self).spec_next_stream(u.scheme, u.host@, u.port);
                (crate::normalizer::spec_method_in_version(old(request).method, old(request).version)
                    && ns is None) ==> (r is Err && r->Err_0.kind() == ErrorKind::Connect && final(self).spec_pool() == old(self).spec_pool() && final(self).spec_connector() == old(self).spec_connector() && final(request).body == old(request).body)
            }),
            ({
                let m = old(request).method;
                let u = old(request).uri;
                let ns = old(self).spec_next_stream(u.scheme, u.host@, u.port);
                (old(request).body.spec_aborts() || !crate::normalizer::spec_method_in_version(
                    m,
                    old(request).version,
                ) || ns is None || crate::http1::spec_response_of(ns->Some_0, m) is None) ==> (
                r is Err && final(request).body == old(request).body)
            }),
            ({
                let m = old(request).method;
                let u = old(request).uri;
                let ns = old(self).spec_next_stream(u.scheme, u.host@, u.port);
                (crate::normalizer::spec_method_in_version(m, old(request).version) && !old(request).body.spec_aborts() && ns is Some && crate::http1::spec_response_of(
                    ns->Some_0,
                    m,
                ) is Some && ({
                    let t = crate::http1::spec_response_of(ns->Some_0, m)->Some_0;
                    !crate::redirect::spec_is_redirect_status(t.1) || old(self).spec_config().redirect.max is None
                })) ==> (r is Ok && ({
                    let t = crate::http1::spec_response_of(ns->Some_0, m)->Some_0;
                    let pool = old(self).spec_pool();
                    let hit = pool.spec_find_key(u.scheme, u.host@, u.port) < pool.spec_len();
                    r->Ok_0.part.version == t.0 && r->Ok_0.part.status == t.1
                        && r->Ok_0.part.headers@ == t.2 && r->Ok_0.body@ == t.3 && final(self).spec_pool().spec_len() == pool.spec_len() - (if hit {
                        1int
                    } else {
                        0int
                    }) + (if crate::http1::spec_must_shutdown(t.0, t.2) {
                        0int
                    } else {
                        1int
                    })
                }))
            }),
    {
        match self.send_unformatted_request(request) {
            Ok(resp) => self.redirect(resp, request),
            Err(e) => Err(e),
        }
    }

    /// Sends a request: the retry loop around the exchange.
    ///
    /// A failed attempt is retried only while the body can be replayed and
    /// the retry budget lasts; success returns at once. A body that cannot
    /// be replayed makes exactly one attempt, so its failure comes back
    /// unchanged; a replayable body that keeps failing consumes the whole
    /// budget before the error is returned. An invalid method/version pair
    /// is refused with the formatter's error; a target that nothing can
    /// serve fails as a connector failure; and a first response that is no
    /// redirect comes back as-is.
    #[verifier::loop_isolation(false)]
    pub fn request(&mut self, request: Request) -> (r: Result<Response, HttpClientError>)
        requires
            old(self).wf(),
        ensures
            final(self).wf(),
            final(self).spec_config() == old(self).spec_config(),
            final(self).spec_attempts() >= 1,
            final(self).spec_attempts() <= 1 + spec_retry_budget(old(self).spec_config()),
            (!request.body.spec_reusable() && old(self).spec_config().redirect.max is None)
                ==> final(self).spec_attempts() == 1,
            (r is Err && request.body.spec_reusable()) ==> final(self).spec_attempts() == 1
                + spec_retry_budget(old(self).spec_config()),
            !crate::normalizer::spec_method_in_version(request.method, request.version) ==> (
            r is Err && r->Err_0.kind() == ErrorKind::Request && r->Err_0.msg()
                == "Unknown METHOD in HTTP/1.0"@),
            (crate::normalizer::spec_method_in_version(request.method, request.version) && old(self).spec_pool().spec_len() == 0 && old(self).spec_connector().spec_remaining() == 0)
                ==> (r is Err && r->Err_0.kind() == ErrorKind::Connect),
            ({
                let m = request.method;
                let u = request.uri;
                let ns = old(self).spec_next_stream(u.scheme, u.host@, u.port);
                (crate::normalizer::spec_method_in_version(m, request.version)
                    && !request.body.spec_aborts() && ns is Some
                    && crate::http1::spec_response_of(ns->Some_0, m) is Some && ({
                    let t = crate::http1::spec_response_of(ns->Some_0, m)->Some_0;
                    !crate::redirect::spec_is_redirect_status(t.1) || old(self).spec_config().redirect.max is None
                })) ==> (r is Ok && final(self).spec_attempts() == 1 && ({
                    let t = crate::http1::spec_response_of(ns->Some_0, m)->Some_0;
                    let pool = old(self).spec_pool();
                    let hit = pool.spec_find_key(u.scheme, u.host@, u.port) < pool.spec_len();
                    r->Ok_0.part.version == t.0 && r->Ok_0.part.status == t.1
                        && r->Ok_0.part.headers@ == t.2 && r->Ok_0.body@ == t.3 && final(self).spec_pool().spec_len() == pool.spec_len() - (if hit {
                        1int
                    } else {
                        0int
                    }) + (if crate::http1::spec_must_shutdown(t.0, t.2) {
                        0int
                    } else {
                        1int
                    })
                }))
            }),
            ({
                let m = request.method;
                let u = request.uri;
                let ns = old(self).spec_next_stream(u.scheme, u.host@, u.port);
                let first_fails = request.body.spec_aborts()
                    || !crate::normalizer::spec_method_in_version(m, request.version) || ns is None
                    || crate::http1::spec_response_of(ns->Some_0, m) is None;
                (!request.body.spec_reusable() && first_fails) ==> (r is Err && final(self).spec_attempts() == 1)
            }),
    {
        let mut request = request;
        let ghost orig = request;
        let ghost orig_body = request.body;
        let ghost reusable = request.body.spec_reusable();
        let ghost method_ok = crate::normalizer::spec_method_in_version(
            request.method,
            request.version,
        );
        let ghost nothing_to_serve = method_ok && old(self).spec_pool().spec_len() == 0 && old(self).spec_connector().spec_remaining() == 0;
        let ghost first_fails = ({
            let m = orig.method;
            let u = orig.uri;
            let ns = old(self).spec_next_stream(u.scheme, u.host@, u.port);
            orig.body.spec_aborts() || !method_ok || ns is None
                || crate::http1::spec_response_of(ns->Some_0, m) is None
        });
        let ghost first_ok = ({
            let m = orig.method;
            let u = orig.uri;
            let ns = old(self).spec_next_stream(u.scheme, u.host@, u.port);
            method_ok && !orig.body.spec_aborts() && ns is Some && crate::http1::spec_response_of(
                ns->Some_0,
                m,
            ) is Some && ({
                let t = crate::http1::spec_response_of(ns->Some_0, m)->Some_0;
                !crate::redirect::spec_is_redirect_status(t.1) || old(self).spec_config().redirect.max is None
            })
        });
        let mut retries: u32 = match self.config.retry.times() {
            Some(t) => t,
            None => 0,
        };
        let ghost budget = retries as int;
        self.attempts = 0;
        loop
            invariant
                self.wf(),
                self.spec_config() == old(self).spec_config(),
                budget == spec_retry_budget(old(self).spec_config()),
                retries as int <= budget,
                self.spec_attempts() + retries as int == budget,
                request.method == orig.method,
                request.version == orig.version,
                (reusable || old(self).spec_config().redirect.max is None) ==> request.body
                    == orig_body,
                (!reusable && old(self).spec_config().redirect.max is None)
                    ==> self.spec_attempts() == 0,
                nothing_to_serve ==> (self.spec_pool().spec_len() == 0
                    && self.spec_connector().spec_remaining() == 0),
                (first_ok || (!reusable && first_fails)) ==> (self.spec_pool() == old(self).spec_pool() && self.spec_connector() == old(self).spec_connector() && request == orig
                    && self.spec_attempts() == 0),
            decreases retries,
        {
            proof {
                crate::pool::lemma_find_key_in_range(
                    &self.inner,
                    request.uri.scheme,
                    request.uri.host@,
                    request.uri.port,
                );
            }
            let response = self.send_request(&mut request);
            self.attempts = self.attempts + 1;
            let reuse = request.body.reuse();
            if response.is_ok() || retries == 0 || !reuse {
                return response;
            }
            retries = retries - 1;
        }
    }
}

/// Accumulates a client's configuration; `build` finishes it.
pub struct ClientBuilder {
    /// Options and flags related to the protocol itself.
    pub http: HttpConfig,
    /// Options and flags related to the client's behaviour.
    pub client: ClientConfig,
    /// The proxy rules the client will use.
    pub proxies: crate::config::Proxies,
    /// Options and flags related to TLS.
    pub tls: crate::config::TlsConfig,
}

impl ClientBuilder {
    /// A builder with every option at its default.
    pub fn new() -> (r: ClientBuilder)
        ensures
            r.http == HttpConfig::spec_default(),
            r.client == ClientConfig::spec_default(),
            r.proxies.list@.len() == 0,
            crate::config::spec_tls_default(r.tls),
    {
        ClientBuilder {
            http: HttpConfig::default(),
            client: ClientConfig::default(),
            proxies: crate::config::Proxies::default(),
            tls: crate::config::TlsConfig::default(),
        }
    }

    /// Only use HTTP/1.x.
    pub fn http1_only(self) -> (r: ClientBuilder)
        ensures
            r.http.version == crate::config::HttpVersion::Http1,
            r.http.http2_config == self.http.http2_config,
            r.client == self.client,
            r.proxies == self.proxies,
            r.tls == self.tls,
    {
        let ClientBuilder { mut http, client, proxies, tls } = self;
        http.version = crate::config::HttpVersion::Http1;
        ClientBuilder { http, client, proxies, tls }
    }

    /// Only use HTTP/2 with prior knowledge.
    pub fn http2_prior_knowledge(self) -> (r: ClientBuilder)
        ensures
            r.http.version == crate::config::HttpVersion::Http2PriorKnowledge,
            r.http.http2_config == self.http.http2_config,
            r.client == self.client,
            r.proxies == self.proxies,
            r.tls == self.tls,
    {
        let ClientBuilder { mut http, client, proxies, tls } = self;
        http.version = crate::config::HttpVersion::Http2PriorKnowledge;
        ClientBuilder { http, client, proxies, tls }
    }

    /// Bounds one whole request, from connecting until the body finished.
    pub fn request_timeout(self, timeout: Timeout) -> (r: ClientBuilder)
        ensures
            r.client.request_timeout == timeout,
            r.client.connect_timeout == self.client.connect_timeout,
            r.client.redirect == self.client.redirect,
            r.client.retry == self.client.retry,
            r.http == self.http,
            r.proxies == self.proxies,
            r.tls == self.tls,
    {
        let ClientBuilder { http, mut client, proxies, tls } = self;
        client.request_timeout = timeout;
        ClientBuilder { http, client, proxies, tls }
    }

    /// Bounds the connect phase alone.
    pub fn connect_timeout(self, timeout: Timeout) -> (r: ClientBuilder)
        ensures
            r.client.connect_timeout == timeout,
            r.client.request_timeout == self.client.request_timeout,
            r.client.redirect == self.client.redirect,
            r.client.retry == self.client.retry,
            r.http == self.http,
            r.proxies == self.proxies,
            r.tls == self.tls,
    {
        let ClientBuilder { http, mut client, proxies, tls } = self;
        client.connect_timeout = timeout;
        ClientBuilder { http, client, proxies, tls }
    }

    /// Sets the redirect policy.
    pub fn redirect(self, redirect: Redirect) -> (r: ClientBuilder)
        ensures
            r.client.redirect == redirect,
            r.client.request_timeout == self.client.request_timeout,
            r.client.connect_timeout == self.client.connect_timeout,
            r.client.retry == self.client.retry,
            r.http == self.http,
            r.proxies == self.proxies,
            r.tls == self.tls,
    {
        let ClientBuilder { http, mut client, proxies, tls } = self;
        client.redirect = redirect;
        ClientBuilder { http, client, proxies, tls }
    }

    /// Sets the retry budget.
    pub fn retry(self, retry: Retry) -> (r: ClientBuilder)
        ensures
            r.client.retry == retry,
            r.client.request_timeout == self.client.request_timeout,
            r.client.connect_timeout == self.client.connect_timeout,
            r.client.redirect == self.client.redirect,
            r.http == self.http,
            r.proxies == self.proxies,
            r.tls == self.tls,
    {
        let ClientBuilder { http, mut client, proxies, tls } = self;
        client.retry = retry;
        ClientBuilder { http, client, proxies, tls }
    }

    /// Adds a proxy rule at the end of the list.
    pub fn proxy(self, proxy: Proxy) -> (r: ClientBuilder)
        ensures
            r.proxies.list@ == self.proxies.list@.push(proxy),
            r.client == self.client,
            r.http == self.http,
            r.tls == self.tls,
    {
        let ClientBuilder { http, client, mut proxies, tls } = self;
        proxies.add_proxy(proxy);
        ClientBuilder { http, client, proxies, tls }
    }

    /// Sets the `SETTINGS_MAX_FRAME_SIZE` preference.
    pub fn set_http2_max_frame_size(self, size: u32) -> (r: ClientBuilder)
        ensures
            r.http.http2_config.max_frame_size == size,
            r.http.http2_config.max_header_list_size == self.http.http2_config.max_header_list_size,
            r.http.http2_config.header_table_size == self.http.http2_config.header_table_size,
            r.http.version == self.http.version,
            r.client == self.client,
            r.proxies == self.proxies,
            r.tls == self.tls,
    {
        let ClientBuilder { mut http, client, proxies, tls } = self;
        http.http2_config.max_frame_size = size;
        ClientBuilder { http, client, proxies, tls }
    }

    /// Sets the `SETTINGS_MAX_HEADER_LIST_SIZE` preference.
    pub fn set_http2_max_header_list_size(self, size: u32) -> (r: ClientBuilder)
        ensures
            r.http.http2_config.max_header_list_size == size,
            r.http.http2_config.max_frame_size == self.http.http2_config.max_frame_size,
            r.http.http2_config.header_table_size == self.http.http2_config.header_table_size,
            r.http.version == self.http.version,
            r.client == self.client,
            r.proxies == self.proxies,
            r.tls == self.tls,
    {
        let ClientBuilder { mut http, client, proxies, tls } = self;
        http.http2_config.max_header_list_size = size;
        ClientBuilder { http, client, proxies, tls }
    }

    /// Sets the `SETTINGS_HEADER_TABLE_SIZE` preference.
    pub fn set_http2_header_table_size(self, size: u32) -> (r: ClientBuilder)
        ensures
            r.http.http2_config.header_table_size == size,
            r.http.http2_config.max_frame_size == self.http.http2_config.max_frame_size,
            r.http.http2_config.max_header_list_size == self.http.http2_config.max_header_list_size,
            r.http.version == self.http.version,
            r.client == self.client,
            r.proxies == self.proxies,
            r.tls == self.tls,
    {
        let ClientBuilder { mut http, client, proxies, tls } = self;
        http.http2_config.header_table_size = size;
        ClientBuilder { http, client, proxies, tls }
    }

    /// Sets the highest TLS version allowed.
    pub fn max_tls_version(self, version: crate::config::TlsVersion) -> (r: ClientBuilder)
        ensures
            r.tls.max_version == Some(version),
            r.tls.min_version == self.tls.min_version,
            r.tls.root_certificates == self.tls.root_certificates,
            r.tls.ca_file == self.tls.ca_file,
            r.tls.cipher_list == self.tls.cipher_list,
            r.tls.cipher_suites == self.tls.cipher_suites,
            r.tls.built_in_root_certs == self.tls.built_in_root_certs,
            r.tls.accept_invalid_certs == self.tls.accept_invalid_certs,
            r.tls.accept_invalid_hostnames == self.tls.accept_invalid_hostnames,
            r.tls.sni == self.tls.sni,
            r.tls.verifier == self.tls.verifier,
            r.proxies == self.proxies,
            r.client == self.client,
            r.http == self.http,
    {
        let ClientBuilder { http, client, proxies, mut tls } = self;
        tls.max_version = Some(version);
        ClientBuilder { http, client, proxies, tls }
    }

    /// Sets the lowest TLS version required.
    pub fn min_tls_version(self, version: crate::config::TlsVersion) -> (r: ClientBuilder)
        ensures
            r.tls.min_version == Some(version),
            r.tls.max_version == self.tls.max_version,
            r.tls.root_certificates == self.tls.root_certificates,
            r.tls.ca_file == self.tls.ca_file,
            r.tls.cipher_list == self.tls.cipher_list,
            r.tls.cipher_suites == self.tls.cipher_suites,
            r.tls.built_in_root_certs == self.tls.built_in_root_certs,
            r.tls.accept_invalid_certs == self.tls.accept_invalid_certs,
            r.tls.accept_invalid_hostnames == self.tls.accept_invalid_hostnames,
            r.tls.sni == self.tls.sni,
            r.tls.verifier == self.tls.verifier,
            r.proxies == self.proxies,
            r.client == self.client,
            r.http == self.http,
    {
        let ClientBuilder { http, client, proxies, mut tls } = self;
        tls.min_version = Some(version);
        ClientBuilder { http, client, proxies, tls }
    }

    /// Adds a trusted root certificate at the end of the list.
    pub fn add_root_certificate(self, certs: crate::config::Certificate) -> (r: ClientBuilder)
        ensures
            r.tls.root_certificates@ == self.tls.root_certificates@.push(certs),
            r.tls.max_version == self.tls.max_version,
            r.tls.min_version == self.tls.min_version,
            r.tls.ca_file == self.tls.ca_file,
            r.tls.cipher_list == self.tls.cipher_list,
            r.tls.cipher_suites == self.tls.cipher_suites,
            r.tls.built_in_root_certs == self.tls.built_in_root_certs,
            r.tls.accept_invalid_certs == self.tls.accept_invalid_certs,
            r.tls.accept_invalid_hostnames == self.tls.accept_invalid_hostnames,
            r.tls.sni == self.tls.sni,
            r.tls.verifier == self.tls.verifier,
            r.proxies == self.proxies,
            r.client == self.client,
            r.http == self.http,
    {
        let ClientBuilder { http, client, proxies, mut tls } = self;
        tls.root_certificates.push(certs);
        ClientBuilder { http, client, proxies, tls }
    }

    /// Names a file of PEM root certificates for the transport to load.
    pub fn tls_ca_file(self, path: &str) -> (r: ClientBuilder)
        ensures
            r.tls.ca_file is Some && r.tls.ca_file->0@ == path@,
            r.tls.max_version == self.tls.max_version,
            r.tls.min_version == self.tls.min_version,
            r.tls.root_certificates == self.tls.root_certificates,
            r.tls.cipher_list == self.tls.cipher_list,
            r.tls.cipher_suites == self.tls.cipher_suites,
            r.tls.built_in_root_certs == self.tls.built_in_root_certs,
            r.tls.accept_invalid_certs == self.tls.accept_invalid_certs,
            r.tls.accept_invalid_hostnames == self.tls.accept_invalid_hostnames,
            r.tls.sni == self.tls.sni,
            r.tls.verifier == self.tls.verifier,
            r.proxies == self.proxies,
            r.client == self.client,
            r.http == self.http,
    {
        let ClientBuilder { http, client, proxies, mut tls } = self;
        tls.ca_file = Some(String::from_str(path));
        ClientBuilder { http, client, proxies, tls }
    }

    /// Sets the cipher list for protocols before TLS 1.3.
    pub fn tls_cipher_list(self, list: &str) -> (r: ClientBuilder)
        ensures
            r.tls.cipher_list is Some && r.tls.cipher_list->0@ == list@,
            r.tls.max_version == self.tls.max_version,
            r.tls.min_version == self.tls.min_version,
            r.tls.root_certificates == self.tls.root_certificates,
            r.tls.ca_file == self.tls.ca_file,
            r.tls.cipher_suites == self.tls.cipher_suites,
            r.tls.built_in_root_certs == self.tls.built_in_root_certs,
            r.tls.accept_invalid_certs == self.tls.accept_invalid_certs,
            r.tls.accept_invalid_hostnames == self.tls.accept_invalid_hostnames,
            r.tls.sni == self.tls.sni,
            r.tls.verifier == self.tls.verifier,
            r.proxies == self.proxies,
            r.client == self.client,
            r.http == self.http,
    {
        let ClientBuilder { http, client, proxies, mut tls } = self;
        tls.cipher_list = Some(String::from_str(list));
        ClientBuilder { http, client, proxies, tls }
    }

    /// Sets the cipher suites for TLS 1.3.
    pub fn tls_cipher_suites(self, list: &str) -> (r: ClientBuilder)
        ensures
            r.tls.cipher_suites is Some && r.tls.cipher_suites->0@ == list@,
            r.tls.max_version == self.tls.max_version,
            r.tls.min_version == self.tls.min_version,
            r.tls.root_certificates == self.tls.root_certificates,
            r.tls.ca_file == self.tls.ca_file,
            r.tls.cipher_list == self.tls.cipher_list,
            r.tls.built_in_root_certs == self.tls.built_in_root_certs,
            r.tls.accept_invalid_certs == self.tls.accept_invalid_certs,
            r.tls.accept_invalid_hostnames == self.tls.accept_invalid_hostnames,
            r.tls.sni == self.tls.sni,
            r.tls.verifier == self.tls.verifier,
            r.proxies == self.proxies,
            r.client == self.client,
            r.http == self.http,
    {
        let ClientBuilder { http, client, proxies, mut tls } = self;
        tls.cipher_suites = Some(String::from_str(list));
        ClientBuilder { http, client, proxies, tls }
    }

    /// Controls the use of the system's built-in root certificates.
    pub fn tls_built_in_root_certs(self, is_use: bool) -> (r: ClientBuilder)
        ensures
            r.tls.built_in_root_certs == is_use,
            r.tls.max_version == self.tls.max_version,
            r.tls.min_version == self.tls.min_version,
            r.tls.root_certificates == self.tls.root_certificates,
            r.tls.ca_file == self.tls.ca_file,
            r.tls.cipher_list == self.tls.cipher_list,
            r.tls.cipher_suites == self.tls.cipher_suites,
            r.tls.accept_invalid_certs == self.tls.accept_invalid_certs,
            r.tls.accept_invalid_hostnames == self.tls.accept_invalid_hostnames,
            r.tls.sni == self.tls.sni,
            r.tls.verifier == self.tls.verifier,
            r.proxies == self.proxies,
            r.client == self.client,
            r.http == self.http,
    {
        let ClientBuilder { http, client, proxies, mut tls } = self;
        tls.built_in_root_certs = is_use;
        ClientBuilder { http, client, proxies, tls }
    }

    /// Controls whether invalid certificates are accepted.
    pub fn danger_accept_invalid_certs(self, is_invalid: bool) -> (r: ClientBuilder)
        ensures
            r.tls.accept_invalid_certs == is_invalid,
            r.tls.max_version == self.tls.max_version,
            r.tls.min_version == self.tls.min_version,
            r.tls.root_certificates == self.tls.root_certificates,
            r.tls.ca_file == self.tls.ca_file,
            r.tls.cipher_list == self.tls.cipher_list,
            r.tls.cipher_suites == self.tls.cipher_suites,
            r.tls.built_in_root_certs == self.tls.built_in_root_certs,
            r.tls.accept_invalid_hostnames == self.tls.accept_invalid_hostnames,
            r.tls.sni == self.tls.sni,
            r.tls.verifier == self.tls.verifier,
            r.proxies == self.proxies,
            r.client == self.client,
            r.http == self.http,
    {
        let ClientBuilder { http, client, proxies, mut tls } = self;
        tls.accept_invalid_certs = is_invalid;
        ClientBuilder { http, client, proxies, tls }
    }

    /// Controls whether host-name mismatches are accepted.
    pub fn danger_accept_invalid_hostnames(self, is_invalid: bool) -> (r: ClientBuilder)
        ensures
            r.tls.accept_invalid_hostnames == is_invalid,
            r.tls.max_version == self.tls.max_version,
            r.tls.min_version == self.tls.min_version,
            r.tls.root_certificates == self.tls.root_certificates,
            r.tls.ca_file == self.tls.ca_file,
            r.tls.cipher_list == self.tls.cipher_list,
            r.tls.cipher_suites == self.tls.cipher_suites,
            r.tls.built_in_root_certs == self.tls.built_in_root_certs,
            r.tls.accept_invalid_certs == self.tls.accept_invalid_certs,
            r.tls.sni == self.tls.sni,
            r.tls.verifier == self.tls.verifier,
            r.proxies == self.proxies,
            r.client == self.client,
            r.http == self.http,
    {
        let ClientBuilder { http, client, proxies, mut tls } = self;
        tls.accept_invalid_hostnames = is_invalid;
        ClientBuilder { http, client, proxies, tls }
    }

    /// Controls TLS server-name indication.
    pub fn tls_sni(self, is_set_sni: bool) -> (r: ClientBuilder)
        ensures
            r.tls.sni == is_set_sni,
            r.tls.max_version == self.tls.max_version,
            r.tls.min_version == self.tls.min_version,
            r.tls.root_certificates == self.tls.root_certificates,
            r.tls.ca_file == self.tls.ca_file,
            r.tls.cipher_list == self.tls.cipher_list,
            r.tls.cipher_suites == self.tls.cipher_suites,
            r.tls.built_in_root_certs == self.tls.built_in_root_certs,
            r.tls.accept_invalid_certs == self.tls.accept_invalid_certs,
            r.tls.accept_invalid_hostnames == self.tls.accept_invalid_hostnames,
            r.tls.verifier == self.tls.verifier,
            r.proxies == self.proxies,
            r.client == self.client,
            r.http == self.http,
    {
        let ClientBuilder { http, client, proxies, mut tls } = self;
        tls.sni = is_set_sni;
        ClientBuilder { http, client, proxies, tls }
    }

    /// Sets how server certificates are judged.
    pub fn cert_verifier(self, verifier: crate::config::CertVerifier) -> (r: ClientBuilder)
        ensures
            r.tls.verifier == verifier,
            r.tls.max_version == self.tls.max_version,
            r.tls.min_version == self.tls.min_version,
            r.tls.root_certificates == self.tls.root_certificates,
            r.tls.ca_file == self.tls.ca_file,
            r.tls.cipher_list == self.tls.cipher_list,
            r.tls.cipher_suites == self.tls.cipher_suites,
            r.tls.built_in_root_certs == self.tls.built_in_root_certs,
            r.tls.accept_invalid_certs == self.tls.accept_invalid_certs,
            r.tls.accept_invalid_hostnames == self.tls.accept_invalid_hostnames,
            r.tls.sni == self.tls.sni,
            r.proxies == self.proxies,
            r.client == self.client,
            r.http == self.http,
    {
        let ClientBuilder { http, client, proxies, mut tls } = self;
        tls.verifier = verifier;
        ClientBuilder { http, client, proxies, tls }
    }

    /// Finishes the client: an empty pool, a fresh connector carrying the
    /// builder's proxy rules and TLS settings, and the builder's
    /// client-level configuration. Building cannot fail.
    pub fn build(self) -> (r: Result<Client, HttpClientError>)
        ensures
            match r {
                Ok(c) => c.wf() && c.spec_config() == self.client && c.spec_pool().spec_len() == 0
                    && c.spec_attempts() == 0 && c.spec_connector().spec_served() == 0
                    && c.spec_connector().spec_remaining() == 0
                    && c.spec_connector().spec_proxies() == self.proxies.list@
                    && c.spec_connector().spec_tls() == self.tls,
                Err(e) => false,
            },
    {
        let ClientBuilder { http, client, proxies, tls } = self;
        let config = ConnectorConfig { proxies, tls };
        let connector = HttpConnector::new(config);
        Ok(Client { inner: ConnPool::new(), connector, config: client, http, attempts: 0 })
    }
}

impl Default for Client {
    fn default() -> (r: Client)
        ensures
            r.wf(),
            r.spec_connector().spec_remaining() == 0,
            r.spec_connector().spec_proxies().len() == 0,
            crate::config::spec_tls_default(r.spec_connector().spec_tls()),
            r.spec_pool().spec_len() == 0,
            r.spec_config() == ClientConfig::spec_default(),
    {
        Client::new()
    }
}

impl Default for ClientBuilder {
    fn default() -> (r: ClientBuilder)
        ensures
            r.http == HttpConfig::spec_default(),
            r.client == ClientConfig::spec_default(),
            r.proxies.list@.len() == 0,
            crate::config::spec_tls_default(r.tls),
    {
        ClientBuilder::new()
    }
}

} // verus!
