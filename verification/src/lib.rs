//! A verified HTTP/1.x client engine.
//!
//! The library contains the wire-protocol codec (request encoding, response
//! decoding, body framing), the body-length resolution rules, the connection
//! pool, and the client orchestration (retries and redirects), all specified
//! and proved. Transport establishment and real socket I/O live outside the
//! library and drive it through plain byte values.

pub mod bytes;
pub mod error;
pub mod num;
pub mod method;
pub mod version;
pub mod headers;
pub mod uri;
pub mod body;
pub mod request;
pub mod response;
pub mod normalizer;
pub mod encoder;
pub mod decoder;
pub mod conn;
pub mod pool;
pub mod http_body;
pub mod http1;
pub mod redirect;
pub mod config;
pub mod client;

pub use body::Body;
pub use client::{Client, ClientBuilder, HttpConnector};
pub use config::{Certificate, CertVerifier, Proxy, Retry, Timeout, TlsVersion};
pub use error::{ErrorKind, HttpClientError};
pub use redirect::Redirect;
pub use request::Request;
pub use response::Response;
