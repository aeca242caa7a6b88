//! The idle-connection pool: connections keyed by scheme, host and port,
//! handed out exclusively, and never re-issued once shut down.

use vstd::prelude::*;

verus! {

use crate::bytes::bytes_eq;
use crate::conn::Conn;
use crate::uri::Scheme;

/// What a pooled connection is keyed by.
pub struct PoolKey {
    pub scheme: Scheme,
    pub host: Vec<u8>,
    pub port: u16,
}

/// The index of the first entry of `s` keyed by the given target, or
/// `s.len()` when none is.
pub closed spec fn spec_find_key_in(
    s: Seq<(PoolKey, Conn)>,
    scheme: Scheme,
    host: Seq<u8>,
    port: u16,
) -> int
    decreases s.len(),
{
    if s.len() == 0 {
        0
    } else if s[0].0.scheme == scheme && s[0].0.host@ == host && s[0].0.port == port {
        0
    } else {
        1 + spec_find_key_in(s.skip(1), scheme, host, port)
    }
}

/// The idle set. The invariant of the type: every connection resting here
/// is well-formed and not shut down, so nothing shut down is ever re-issued.
pub struct ConnPool {
    idle: Vec<(PoolKey, Conn)>,
}

impl ConnPool {
    /// How many connections are idle.
    pub closed spec fn spec_len(&self) -> int {
        self.idle@.len() as int
    }

    /// The connection resting at `i`.
    pub closed spec fn spec_conn_at(&self, i: int) -> Conn {
        self.idle@[i].1
    }

    /// The target the entry at `i` is keyed by.
    pub closed spec fn spec_key_at(&self, i: int) -> (Scheme, Seq<u8>, u16) {
        (self.idle@[i].0.scheme, self.idle@[i].0.host@, self.idle@[i].0.port)
    }

    /// The index of the first idle entry for the target, or `spec_len()`
    /// when no entry matches.
    pub closed spec fn spec_find_key(&self, scheme: Scheme, host: Seq<u8>, port: u16) -> int {
        spec_find_key_in(self.idle@, scheme, host, port)
    }

    /// Every idle connection is well-formed and not shut down.
    pub open spec fn wf(&self) -> bool {
        forall|i: int|
            0 <= i < self.spec_len() ==> !(#[trigger] self.spec_conn_at(i)).spec_shutdown()
                && self.spec_conn_at(i).wf()
    }

    /// How many connections rest idle.
    pub fn len(&self) -> (r: usize)
        ensures
            r == self.spec_len(),
    {
        self.idle.len()
    }

    /// An empty pool.
    pub fn new() -> (r: ConnPool)
        ensures
            r.spec_len() == 0,
            r.wf(),
    {
        ConnPool { idle: Vec::new() }
    }

    /// Hands out the first idle connection keyed by the given target, if one
    /// rests here: the entry is removed from the pool, so no two exchanges
    /// ever share a connection. Anything handed out is well-formed, not shut
    /// down, and keyed exactly by the requested target; entries before the
    /// match do not carry that key, and the others keep their places.
    pub fn check_out(&mut self, scheme: Scheme, host: &[u8], port: u16) -> (r: Option<Conn>)
        requires
            old(self).wf(),
        ensures
            final(self).wf(),
            ({
                let f = old(self).spec_find_key(scheme, host@, port);
                match r {
                    Some(c) => f < old(self).spec_len() && old(self).spec_key_at(f) == (
                    scheme,
                    host@,
                    port,
                    ) && c == old(self).spec_conn_at(f) && !c.spec_shutdown() && c.wf() && final(self).spec_len() == old(self).spec_len() - 1 && (forall|j: int|
                        0 <= j < f ==> #[trigger] final(self).spec_conn_at(j) == old(self).spec_conn_at(j) && final(self).spec_key_at(j) == old(self).spec_key_at(
                            j,
                        )) && (forall|j: int|
                        f <= j < final(self).spec_len() ==> #[trigger] final(self).spec_conn_at(j)
                            == old(self).spec_conn_at(j + 1) && final(self).spec_key_at(j) == old(self).spec_key_at(j + 1)),
                    None => f == old(self).spec_len() && *final(self) == *old(self),
                }
            }),
    {
        proof {
            lemma_find_key_bounds(self.idle@, scheme, host@, port);
        }
        let mut i: usize = 0;
        let n = self.idle.len();
        while i < n
            invariant
                *self == *old(self),
                self.idle@ == old(self).idle@,
                self.wf(),
                n == self.spec_len(),
                i <= n,
                forall|j: int|
                    0 <= j < i ==> (#[trigger] old(self).spec_key_at(j)) != (scheme, host@, port),
            decreases n - i,
        {
            let matches = {
                let entry = &self.idle[i];
                entry.0.scheme == scheme && entry.0.port == port && bytes_eq(
                    entry.0.host.as_slice(),
                    host,
                )
            };
            if matches {
                let ghost before = self.idle@;
                proof {
                    assert forall|j: int|
                        0 <= j < i implies !((#[trigger] before[j].0).scheme == scheme
                        && before[j].0.host@ == host@ && before[j].0.port == port) by {
                        assert(old(self).spec_key_at(j) != (scheme, host@, port));
                        assert(old(self).spec_key_at(j) == (
                            before[j].0.scheme,
                            before[j].0.host@,
                            before[j].0.port,
                        ));
                    }
                    lemma_find_key_is(before, scheme, host@, port, i as int);
                    assert forall|j: int|
                        0 <= j < before.len() implies !(#[trigger] before[j].1).spec_shutdown()
                        && before[j].1.wf() by {
                        assert(before[j].1 == self.spec_conn_at(j));
                    }
                }
                let entry = self.idle.remove(i);
                let conn = entry.1;
                proof {
                    assert(entry == before[i as int]);
                    assert(old(self).spec_conn_at(i as int) == conn);
                    assert(self.idle@ =~= before.subrange(0, i as int) + before.subrange(
                        i + 1,
                        before.len() as int,
                    ));
                    assert forall|j: int|
                        0 <= j < self.spec_len() implies !(#[trigger] self.spec_conn_at(
                        j,
                    )).spec_shutdown() && self.spec_conn_at(j).wf() by {
                        let a = before.subrange(0, i as int);
                        let b = before.subrange(i + 1, before.len() as int);
                        if j < i {
                            assert(self.idle@[j] == a[j]);
                            assert(a[j] == before[j]);
                        } else {
                            assert(self.idle@[j] == b[j - i]);
                            assert(b[j - i] == before[j + 1]);
                        }
                    }
                    assert forall|j: int|
                        0 <= j < i implies #[trigger] self.spec_conn_at(j) == old(self).spec_conn_at(j) && self.spec_key_at(j) == old(self).spec_key_at(j) by {
                        assert(self.idle@[j] == before.subrange(0, i as int)[j]);
                        assert(before.subrange(0, i as int)[j] == before[j]);
                    }
                    assert forall|j: int|
                        i <= j < self.spec_len() implies #[trigger] self.spec_conn_at(j) == old(self).spec_conn_at(j + 1) && self.spec_key_at(j) == old(self).spec_key_at(
                        j + 1,
                    ) by {
                        let b = before.subrange(i + 1, before.len() as int);
                        assert(self.idle@[j] == b[j - i]);
                        assert(b[j - i] == before[j + 1]);
                    }
                }
                return Some(conn);
            }
            i += 1;
        }
        proof {
            assert forall|j: int|
                0 <= j < self.idle@.len() implies !((#[trigger] self.idle@[j].0).scheme == scheme
                && self.idle@[j].0.host@ == host@ && self.idle@[j].0.port == port) by {
                assert(old(self).spec_key_at(j) != (scheme, host@, port));
                assert(old(self).spec_key_at(j) == (
                    self.idle@[j].0.scheme,
                    self.idle@[j].0.host@,
                    self.idle@[j].0.port,
                ));
            }
            lemma_find_key_none(self.idle@, scheme, host@, port);
        }
        None
    }

    /// Takes a connection back after an exchange. A connection that was
    /// shut down is dropped, never pooled; any other joins the idle set at
    /// the end, under the given key, with every earlier entry untouched.
    pub fn check_in(&mut self, key: PoolKey, conn: Conn)
        requires
            old(self).wf(),
            conn.wf(),
        ensures
            final(self).wf(),
            conn.spec_shutdown() ==> *final(self) == *old(self),
            !conn.spec_shutdown() ==> final(self).spec_len() == old(self).spec_len() + 1 && final(self).spec_conn_at(old(self).spec_len()) == conn && final(self).spec_key_at(
                old(self).spec_len(),
            ) == (key.scheme, key.host@, key.port) && (forall|j: int|
                0 <= j < old(self).spec_len() ==> #[trigger] final(self).spec_conn_at(j) == old(self).spec_conn_at(j) && final(self).spec_key_at(j) == old(self).spec_key_at(j)),
    {
        if conn.is_shutdown() {
            return;
        }
        let ghost n = self.spec_len();
        self.idle.push((key, conn));
        proof {
            assert forall|j: int|
                0 <= j < self.spec_len() implies !(#[trigger] self.spec_conn_at(
                j,
            )).spec_shutdown() && self.spec_conn_at(j).wf() by {
                if j < n {
                    assert(self.spec_conn_at(j) == old(self).spec_conn_at(j));
                } else {
                    assert(self.spec_conn_at(j) == conn);
                }
            }
            assert forall|j: int|
                0 <= j < n implies #[trigger] self.spec_conn_at(j) == old(self).spec_conn_at(j)
                && self.spec_key_at(j) == old(self).spec_key_at(j) by {
                assert(self.idle@[j] == old(self).idle@[j]);
            }
        }
    }
}

/// The first-match index stays within bounds, names a matching entry when
/// it is in range, and nothing before it matches.
pub proof fn lemma_find_key_bounds(s: Seq<(PoolKey, Conn)>, scheme: Scheme, host: Seq<u8>, port: u16)
    ensures
        0 <= spec_find_key_in(s, scheme, host, port) <= s.len(),
    decreases s.len(),
{
    if s.len() != 0 && !(s[0].0.scheme == scheme && s[0].0.host@ == host && s[0].0.port == port) {
        lemma_find_key_bounds(s.skip(1), scheme, host, port);
    }
}

/// A matching position with no match before it is the first match.
proof fn lemma_find_key_is(s: Seq<(PoolKey, Conn)>, scheme: Scheme, host: Seq<u8>, port: u16, i: int)
    requires
        0 <= i < s.len(),
        s[i].0.scheme == scheme && s[i].0.host@ == host && s[i].0.port == port,
        forall|j: int|
            0 <= j < i ==> !((#[trigger] s[j].0).scheme == scheme && s[j].0.host@ == host
                && s[j].0.port == port),
    ensures
        spec_find_key_in(s, scheme, host, port) == i,
    decreases i,
{
    if i > 0 {
        assert(s.skip(1)[i - 1] == s[i]);
        assert forall|j: int|
            0 <= j < i - 1 implies !((#[trigger] s.skip(1)[j].0).scheme == scheme && s.skip(
            1,
        )[j].0.host@ == host && s.skip(1)[j].0.port == port) by {
            assert(s.skip(1)[j] == s[j + 1]);
        }
        lemma_find_key_is(s.skip(1), scheme, host, port, i - 1);
    }
}

/// When no entry matches, the first-match index is the length.
proof fn lemma_find_key_none(s: Seq<(PoolKey, Conn)>, scheme: Scheme, host: Seq<u8>, port: u16)
    requires
        forall|j: int|
            0 <= j < s.len() ==> !((#[trigger] s[j].0).scheme == scheme && s[j].0.host@ == host
                && s[j].0.port == port),
    ensures
        spec_find_key_in(s, scheme, host, port) == s.len(),
    decreases s.len(),
{
    if s.len() != 0 {
        assert forall|j: int|
            0 <= j < s.skip(1).len() implies !((#[trigger] s.skip(1)[j].0).scheme == scheme
            && s.skip(1)[j].0.host@ == host && s.skip(1)[j].0.port == port) by {
            assert(s.skip(1)[j] == s[j + 1]);
        }
        lemma_find_key_none(s.skip(1), scheme, host, port);
    }
}

/// The first-match index always lies between zero and the pool's length.
pub proof fn lemma_find_key_in_range(p: &ConnPool, scheme: Scheme, host: Seq<u8>, port: u16)
    ensures
        0 <= p.spec_find_key(scheme, host, port) <= p.spec_len(),
{
    lemma_find_key_bounds(p.idle@, scheme, host, port);
}

/// No connection observed as non-reusable is ever handed out again: every
/// connection resting in a well-formed pool, and so everything `check_out`
/// can return, is not shut down.
pub proof fn lemma_pool_reissues_no_shutdown(p: &ConnPool, i: int)
    requires
        p.wf(),
        0 <= i < p.spec_len(),
    ensures
        !p.spec_conn_at(i).spec_shutdown(),
{
}

} // verus!
