//! The redirect policy: decides, per response, whether to stop or follow
//! the `Location` target, and enforces its own hop limit.

use vstd::prelude::*;

verus! {

use crate::bytes::ascii_seq;
use crate::error::{ErrorKind, HttpClientError};
use crate::headers::spec_get;
use crate::response::ResponsePart;
use crate::uri::{Uri, spec_parse_uri};

/// What the policy tells the client to do next.
pub enum Trigger {
    /// The response is final.
    Stop,
    /// Re-point the request at this target and send again.
    NextLink(Uri),
}

/// What one logical request has accumulated while following redirects.
pub struct RedirectInfo {
    /// How many hops were taken.
    pub count: u64,
    /// The targets visited, in order.
    pub visited: Vec<Uri>,
}

impl RedirectInfo {
    /// A fresh record: no hops taken yet.
    pub fn new() -> (r: RedirectInfo)
        ensures
            r.count == 0,
            r.visited@.len() == 0,
    {
        RedirectInfo { count: 0, visited: Vec::new() }
    }
}

/// The redirect policy: how many hops may be followed, if any.
pub struct Redirect {
    /// `None` follows no redirect at all.
    pub max: Option<u32>,
}

impl Redirect {
    /// Follow no redirect: every response is final.
    pub fn none() -> (r: Redirect)
        ensures
            r.max is None,
    {
        Redirect { max: None }
    }

    /// Follow at most `max` hops; one more is an error.
    pub fn limited(max: u32) -> (r: Redirect)
        ensures
            r.max == Some(max),
    {
        Redirect { max: Some(max) }
    }
}

impl Default for Redirect {
    /// The default policy follows up to ten hops.
    fn default() -> (r: Redirect)
        ensures
            r.max == Some(10u32),
    {
        Redirect { max: Some(10) }
    }
}

/// Whether a status code asks the client to follow a `Location`.
pub open spec fn spec_is_redirect_status(status: u16) -> bool {
    status == 301 || status == 302 || status == 303 || status == 307 || status == 308
}

/// Whether the policy refuses another hop: the count of hops taken has
/// reached the limit.
pub open spec fn spec_over_limit(max: Option<u32>, count: u64) -> bool {
    match max {
        Some(m) => count >= m as u64,
        None => false,
    }
}

/// Consults the policy.
///
/// A response that is not a redirect, or a policy that follows none, is
/// final. Otherwise the policy itself enforces its hop limit: a hop past
/// the limit is an error, never a silent stop; so is a missing or
/// unparseable `Location`.
pub fn decide(policy: &Redirect, response: &ResponsePart, info: &mut RedirectInfo) -> (r: Result<
    Trigger,
    HttpClientError,
>)
    ensures
        match r {
            Ok(t) => match t {
                Trigger::Stop => (!spec_is_redirect_status(response.status) || policy.max is None)
                    && final(info).count == old(info).count,
                Trigger::NextLink(u) => spec_is_redirect_status(response.status)
                    && policy.max is Some && !spec_over_limit(policy.max, old(info).count)
                    && final(info).count == old(info).count + 1 && final(info).visited@.len()
                    == old(info).visited@.len() + 1 && (match spec_get(
                    response.headers@,
                    ascii_seq("Location"@),
                ) {
                    Some(loc) => spec_parse_uri(loc) == Some((u.scheme, u.host@, u.port, u.path@)),
                    None => false,
                }) && crate::uri::spec_uri_wf(u),
            },
            Err(e) => spec_is_redirect_status(response.status) && policy.max is Some && e.kind()
                == ErrorKind::Redirect && (spec_over_limit(policy.max, old(info).count) || !(
            match spec_get(response.headers@, ascii_seq("Location"@)) {
                Some(loc) => spec_parse_uri(loc) is Some,
                None => false,
            })) && final(info).count == old(info).count,
        },
{
    proof {
        reveal_strlit("Location");
    }
    let status = response.status;
    let is_redirect = status == 301 || status == 302 || status == 303 || status == 307 || status
        == 308;
    let m = match policy.max {
        Some(m) => m,
        None => {
            return Ok(Trigger::Stop);
        },
    };
    if !is_redirect {
        return Ok(Trigger::Stop);
    }
    if info.count >= m as u64 {
        return Err(HttpClientError::new(ErrorKind::Redirect, "over redirect max limit"));
    }
    let mut loc_name: Vec<u8> = Vec::new();
    crate::bytes::push_ascii(&mut loc_name, "Location");
    let target = match response.headers.get(loc_name.as_slice()) {
        Some(v) => v,
        None => {
            return Err(HttpClientError::new(ErrorKind::Redirect, "no location header"));
        },
    };
    let uri = match Uri::parse_bytes(target.as_slice()) {
        Some(u) => u,
        None => {
            return Err(HttpClientError::new(ErrorKind::Redirect, "invalid location target"));
        },
    };
    info.count = info.count + 1;
    info.visited.push(uri.clone());
    Ok(Trigger::NextLink(uri))
}

/// The redirect loop cannot run forever: under a policy with hop limit `m`,
/// every accepted hop raises the count by one, and once the count reaches
/// `m` the policy refuses the next hop. In particular, with hop limit 2 a
/// third consecutive next-link decision is already past the limit.
pub proof fn lemma_redirect_loop_terminates(m: u32, count: u64)
    ensures
        count >= m as u64 ==> spec_over_limit(Some(m), count),
        !spec_over_limit(Some(m), count) ==> (m as u64 - (count + 1)) < (m as u64 - count),
        spec_over_limit(Some(2u32), 2u64),
{
}

} // verus!
