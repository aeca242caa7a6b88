//! The client's error taxonomy.
//!
//! Every failure of an exchange is one discriminated kind together with a
//! short message, so callers can match on the phase that failed.

use vstd::prelude::*;

verus! {

/// What phase or rule an error came from.
///
/// - `Build`: invalid configuration handed to a builder.
/// - `Connect`: the connector could not produce a connection.
/// - `Request`: a wire-protocol failure while sending the request or reading
///   the response head (malformed status line, headers, chunk grammar, or a
///   connection closed before a complete head).
/// - `Timeout`: a configured time budget elapsed.
/// - `BodyTransfer`: an I/O failure while streaming a body.
/// - `UserAborted`: the request body's producer aborted the transfer.
/// - `Redirect`: the redirect policy failed (hop limit exceeded or a
///   malformed `Location` target).
#[derive(PartialEq, Eq, Structural, Clone, Copy, Debug)]
pub enum ErrorKind {
    Build,
    Connect,
    Request,
    Timeout,
    BodyTransfer,
    UserAborted,
    Redirect,
}

/// An error returned by the client: a kind plus a human-readable message.
#[derive(Debug)]
pub struct HttpClientError {
    kind: ErrorKind,
    message: String,
}

impl HttpClientError {
    /// Creates an error of the given kind with the given message.
    pub fn new(kind: ErrorKind, message: &str) -> (r: Self)
        ensures
            r.kind() == kind,
            r.msg() == message@,
    {
        HttpClientError { kind, message: String::from_str(message) }
    }

    /// The distinguished error for a request body aborted by its producer.
    pub fn user_aborted() -> (r: Self)
        ensures
            r.kind() == ErrorKind::UserAborted,
    {
        Self::new(ErrorKind::UserAborted, "user aborted the request body")
    }

    /// The kind of this error.
    pub fn error_kind(&self) -> (r: ErrorKind)
        ensures
            r == self.kind(),
    {
        self.kind
    }

    /// Spec view of the kind.
    pub closed spec fn kind(&self) -> ErrorKind {
        self.kind
    }

    /// Spec view of the message.
    pub closed spec fn msg(&self) -> Seq<char> {
        self.message@
    }

    /// The message alone.
    pub fn message(&self) -> (r: &str)
        ensures
            r@ == self.msg(),
    {
        self.message.as_str()
    }

    /// The phrase that `formatted` puts before the message of each kind.
    pub closed spec fn kind_phrase(&self) -> Seq<char> {
        match self.kind {
            ErrorKind::Build => "Build Error: "@,
            ErrorKind::Connect => "Connect Error: "@,
            ErrorKind::Request => "Request Error: "@,
            ErrorKind::Timeout => "Timeout Error: "@,
            ErrorKind::BodyTransfer => "Body Transfer Error: "@,
            ErrorKind::UserAborted => "User Aborted Error: "@,
            ErrorKind::Redirect => "Redirect Error: "@,
        }
    }

    /// The error written out as the phase's phrase followed by the message,
    /// the way a log line would show it.
    pub fn formatted(&self) -> (r: String)
        ensures
            r@ == self.kind_phrase() + self.msg(),
    {
        let phrase: &str = match self.kind {
            ErrorKind::Build => "Build Error: ",
            ErrorKind::Connect => "Connect Error: ",
            ErrorKind::Request => "Request Error: ",
            ErrorKind::Timeout => "Timeout Error: ",
            ErrorKind::BodyTransfer => "Body Transfer Error: ",
            ErrorKind::UserAborted => "User Aborted Error: ",
            ErrorKind::Redirect => "Redirect Error: ",
        };
        let mut out = String::from_str(phrase);
        out.append(self.message.as_str());
        out
    }
}

} // verus!
