//! Responses: the parsed head, and the body once drained.

use vstd::prelude::*;

verus! {

use crate::headers::Headers;
use crate::version::Version;

/// The parsed status line and header block of a response.
#[derive(Debug)]
pub struct ResponsePart {
    pub version: Version,
    pub status: u16,
    pub headers: Headers,
}

/// A finished response: the parsed head and the body's bytes.
#[derive(Debug)]
pub struct Response {
    pub part: ResponsePart,
    pub body: Vec<u8>,
}

impl Response {
    /// Pairs a parsed head with its drained body.
    pub fn new(part: ResponsePart, body: Vec<u8>) -> (r: Response)
        ensures
            r.part.version == part.version,
            r.part.status == part.status,
            r.part.headers@ == part.headers@,
            r.body@ == body@,
    {
        Response { part, body }
    }

    /// The status code.
    pub fn status(&self) -> (r: u16)
        ensures
            r == self.part.status,
    {
        self.part.status
    }

    /// The protocol version of the response.
    pub fn version(&self) -> (r: Version)
        ensures
            r == self.part.version,
    {
        self.part.version
    }

    /// The header block.
    pub fn headers(&self) -> (r: &Headers)
        ensures
            r@ == self.part.headers@,
    {
        &self.part.headers
    }

    /// The body's bytes.
    pub fn body_bytes(&self) -> (r: &Vec<u8>)
        ensures
            r@ == self.body@,
    {
        &self.body
    }
}

} // verus!
