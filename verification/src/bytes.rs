//! Byte-sequence helpers shared by the codec: first-occurrence search,
//! substring search, ASCII case folding, and whitespace trimming.

use vstd::prelude::*;

verus! {

use vstd::string::StrSliceExecFns;

/// Index of the first occurrence of `c` in `s`, or `s.len()` if absent.
pub open spec fn spec_find(s: Seq<u8>, c: u8) -> int
    decreases s.len(),
{
    if s.len() == 0 {
        0
    } else if s[0] == c {
        0
    } else {
        1 + spec_find(s.skip(1), c)
    }
}

pub proof fn lemma_spec_find_bounds(s: Seq<u8>, c: u8)
    ensures
        0 <= spec_find(s, c) <= s.len(),
        spec_find(s, c) < s.len() ==> s[spec_find(s, c)] == c,
        forall|i: int| 0 <= i < spec_find(s, c) ==> s[i] != c,
    decreases s.len(),
{
    if s.len() != 0 && s[0] != c {
        lemma_spec_find_bounds(s.skip(1), c);
        assert forall|i: int| 0 <= i < spec_find(s, c) implies s[i] != c by {
            if i >= 1 {
                assert(s.skip(1)[i - 1] == s[i]);
            }
        }
    }
}

/// If `s` starts with a block `a` free of `c` followed by `c`, the first
/// occurrence of `c` in `s` is exactly at `a.len()`.
pub proof fn lemma_spec_find_append(a: Seq<u8>, c: u8, rest: Seq<u8>)
    requires
        forall|i: int| 0 <= i < a.len() ==> a[i] != c,
    ensures
        spec_find(a + seq![c] + rest, c) == a.len(),
    decreases a.len(),
{
    let s = a + seq![c] + rest;
    if a.len() == 0 {
        assert(s[0] == c);
    } else {
        assert(s[0] == a[0]);
        lemma_spec_find_append(a.skip(1), c, rest);
        assert(s.skip(1) =~= a.skip(1) + seq![c] + rest);
    }
}

/// A position that holds `c` with only non-`c` bytes before it is the first
/// occurrence.
pub proof fn lemma_spec_find_is(s: Seq<u8>, c: u8, i: int)
    requires
        0 <= i < s.len(),
        s[i] == c,
        forall|j: int| 0 <= j < i ==> s[j] != c,
    ensures
        spec_find(s, c) == i,
{
    lemma_spec_find_bounds(s, c);
}

/// First index of byte `c` in `s`, if any.
pub fn find_byte(s: &[u8], c: u8) -> (r: Option<usize>)
    ensures
        match r {
            Some(i) => i == spec_find(s@, c) && i < s@.len() && s@[i as int] == c,
            None => spec_find(s@, c) == s@.len(),
        },
{
    proof {
        lemma_spec_find_bounds(s@, c);
    }
    let mut i: usize = 0;
    while i < s.len()
        invariant
            i <= s@.len(),
            forall|j: int| 0 <= j < i ==> s@[j] != c,
        decreases s@.len() - i,
    {
        if s[i] == c {
            proof {
                lemma_spec_find_is(s@, c, i as int);
            }
            return Some(i);
        }
        i += 1;
    }
    None
}

/// The bytes of an ASCII character sequence, one byte per character.
pub open spec fn ascii_seq(s: Seq<char>) -> Seq<u8> {
    Seq::new(s.len(), |i: int| s[i] as u8)
}

/// Copies the bytes of an ASCII string onto the end of a byte vector.
pub fn push_ascii(out: &mut Vec<u8>, s: &str)
    requires
        s.is_ascii(),
    ensures
        final(out)@ == old(out)@ + ascii_seq(s@),
{
    proof {
        vstd::string::is_ascii_spec_bytes(s);
    }
    let mut bs = s.as_bytes_vec();
    out.append(&mut bs);
    assert(out@ =~= old(out)@ + ascii_seq(s@));
}

/// Copies a byte slice onto the end of a byte vector.
pub fn push_bytes(out: &mut Vec<u8>, s: &[u8])
    ensures
        final(out)@ == old(out)@ + s@,
{
    let mut i: usize = 0;
    while i < s.len()
        invariant
            i <= s@.len(),
            out@ == old(out)@ + s@.take(i as int),
        decreases s@.len() - i,
    {
        out.push(s[i]);
        i += 1;
        assert(out@ =~= old(out)@ + s@.take(i as int));
    }
    assert(out@ =~= old(out)@ + s@);
}

/// Whether two byte slices hold the same bytes.
pub fn bytes_eq(a: &[u8], b: &[u8]) -> (r: bool)
    ensures
        r == (a@ == b@),
{
    if a.len() != b.len() {
        return false;
    }
    let mut i: usize = 0;
    while i < a.len()
        invariant
            a@.len() == b@.len(),
            i <= a@.len(),
            forall|j: int| 0 <= j < i ==> a@[j] == b@[j],
        decreases a@.len() - i,
    {
        if a[i] != b[i] {
            return false;
        }
        i += 1;
    }
    proof {
        assert(a@ =~= b@);
    }
    true
}

/// ASCII lower-casing of one byte.
pub open spec fn spec_lower_byte(c: u8) -> u8 {
    if 'A' as u8 <= c <= 'Z' as u8 {
        (c + 32) as u8
    } else {
        c
    }
}

/// ASCII lower-casing of a byte sequence.
pub open spec fn spec_lower(s: Seq<u8>) -> Seq<u8> {
    Seq::new(s.len(), |i: int| spec_lower_byte(s[i]))
}

/// Whether two byte slices are equal up to ASCII case.
pub fn eq_ignore_case(a: &[u8], b: &[u8]) -> (r: bool)
    ensures
        r == (spec_lower(a@) == spec_lower(b@)),
{
    if a.len() != b.len() {
        assert(spec_lower(a@).len() != spec_lower(b@).len());
        return false;
    }
    let mut i: usize = 0;
    while i < a.len()
        invariant
            a@.len() == b@.len(),
            i <= a@.len(),
            forall|j: int| 0 <= j < i ==> spec_lower(a@)[j] == spec_lower(b@)[j],
        decreases a@.len() - i,
    {
        let ca = a[i];
        let cb = b[i];
        let la = if 'A' as u8 <= ca && ca <= 'Z' as u8 { (ca + 32) as u8 } else { ca };
        let lb = if 'A' as u8 <= cb && cb <= 'Z' as u8 { (cb + 32) as u8 } else { cb };
        if la != lb {
            assert(spec_lower(a@)[i as int] != spec_lower(b@)[i as int]);
            return false;
        }
        i += 1;
    }
    proof {
        assert(spec_lower(a@) =~= spec_lower(b@));
    }
    true
}

/// Whether `needle` occurs as a contiguous run inside `hay`.
pub open spec fn spec_has_substring(hay: Seq<u8>, needle: Seq<u8>) -> bool {
    exists|i: int|
        0 <= i <= hay.len() - needle.len() && #[trigger] hay.subrange(i, i + needle.len())
            == needle
}

/// Whether `needle` matches `hay` at offset `i`.
fn match_at(hay: &[u8], needle: &[u8], i: usize) -> (r: bool)
    requires
        i + needle@.len() <= hay@.len(),
    ensures
        r == (hay@.subrange(i as int, i + needle@.len()) == needle@),
{
    let hlen = hay.len();
    let mut j: usize = 0;
    while j < needle.len()
        invariant
            hlen == hay@.len(),
            i + needle@.len() <= hay@.len(),
            j <= needle@.len(),
            forall|k: int| 0 <= k < j ==> hay@[i + k] == needle@[k],
        decreases needle@.len() - j,
    {
        if hay[i + j] != needle[j] {
            proof {
                assert(hay@.subrange(i as int, i + needle@.len())[j as int] == hay@[i + j]);
            }
            return false;
        }
        j += 1;
    }
    proof {
        assert(hay@.subrange(i as int, i + needle@.len()) =~= needle@);
    }
    true
}

/// Substring search, byte for byte.
pub fn has_substring(hay: &[u8], needle: &[u8]) -> (r: bool)
    ensures
        r == spec_has_substring(hay@, needle@),
{
    if needle.len() > hay.len() {
        return false;
    }
    if needle.len() == 0 {
        proof {
            let w: int = 0;
            assert(hay@.subrange(w, w + needle@.len()) =~= needle@);
        }
        return true;
    }
    let hlen = hay.len();
    let n = needle.len();
    let mut i: usize = 0;
    while i <= hlen - n
        invariant
            hlen == hay@.len(),
            n == needle@.len(),
            1 <= n <= hlen,
            i <= hlen - n + 1,
            forall|k: int| 0 <= k < i ==> #[trigger] hay@.subrange(k, k + needle@.len())
                != needle@,
        decreases hay@.len() + 1 - n - i,
    {
        if match_at(hay, needle, i) {
            return true;
        }
        i += 1;
    }
    false
}

/// Optional whitespace around a header value: space or horizontal tab.
pub open spec fn spec_is_ows(c: u8) -> bool {
    c == ' ' as u8 || c == '\t' as u8
}

/// A sequence with leading whitespace removed.
pub open spec fn spec_trim_start(s: Seq<u8>) -> Seq<u8>
    decreases s.len(),
{
    if s.len() > 0 && spec_is_ows(s[0]) {
        spec_trim_start(s.skip(1))
    } else {
        s
    }
}

/// A sequence with trailing whitespace removed.
pub open spec fn spec_trim_end(s: Seq<u8>) -> Seq<u8>
    decreases s.len(),
{
    if s.len() > 0 && spec_is_ows(s[s.len() - 1]) {
        spec_trim_end(s.take(s.len() - 1))
    } else {
        s
    }
}

/// A sequence with whitespace removed at both ends.
pub open spec fn spec_trim(s: Seq<u8>) -> Seq<u8> {
    spec_trim_end(spec_trim_start(s))
}

/// Trimming leaves a sequence with no whitespace at either end untouched.
pub proof fn lemma_trim_id(s: Seq<u8>)
    requires
        s.len() > 0 ==> !spec_is_ows(s[0]) && !spec_is_ows(s[s.len() - 1]),
    ensures
        spec_trim(s) == s,
{
}

/// The copy of `s[lo..hi]` with whitespace removed at both ends.
pub fn trim_slice(s: &[u8], lo: usize, hi: usize) -> (r: Vec<u8>)
    requires
        lo <= hi <= s@.len(),
    ensures
        r@ == spec_trim(s@.subrange(lo as int, hi as int)),
{
    let mut a = lo;
    let mut b = hi;
    while a < b && (s[a] == ' ' as u8 || s[a] == '\t' as u8)
        invariant
            lo <= a <= b,
            b == hi <= s@.len(),
            spec_trim_start(s@.subrange(lo as int, hi as int)) == spec_trim_start(
                s@.subrange(a as int, b as int),
            ),
        decreases b - a,
    {
        proof {
            assert(s@.subrange(a as int, b as int).skip(1) =~= s@.subrange(a + 1, b as int));
        }
        a += 1;
    }
    proof {
        let t = s@.subrange(a as int, b as int);
        if t.len() > 0 {
            assert(!spec_is_ows(t[0]));
        }
        assert(spec_trim_start(t) == t);
    }
    while a < b && (s[b - 1] == ' ' as u8 || s[b - 1] == '\t' as u8)
        invariant
            lo <= a <= b <= s@.len(),
            spec_trim(s@.subrange(lo as int, hi as int)) == spec_trim_end(
                s@.subrange(a as int, b as int),
            ),
        decreases b - a,
    {
        proof {
            assert(s@.subrange(a as int, b as int).take(
                s@.subrange(a as int, b as int).len() - 1,
            ) =~= s@.subrange(a as int, b - 1));
        }
        b -= 1;
    }
    proof {
        let t = s@.subrange(a as int, b as int);
        if t.len() > 0 {
            assert(!spec_is_ows(t[t.len() - 1]));
        }
        assert(spec_trim_end(t) == t);
    }
    let mut out: Vec<u8> = Vec::new();
    let mut i = a;
    while i < b
        invariant
            a <= i <= b <= s@.len(),
            out@ == s@.subrange(a as int, i as int),
        decreases b - i,
    {
        out.push(s[i]);
        proof {
            assert(out@ =~= s@.subrange(a as int, i + 1));
        }
        i += 1;
    }
    proof {
        assert(out@ =~= spec_trim(s@.subrange(lo as int, hi as int)));
    }
    out
}

/// Whether `hay` begins with `needle`.
pub open spec fn spec_starts_with(hay: Seq<u8>, needle: Seq<u8>) -> bool {
    hay.len() >= needle.len() && hay.take(needle.len() as int) == needle
}

/// Prefix test, byte for byte.
pub fn starts_with(hay: &[u8], needle: &[u8]) -> (r: bool)
    ensures
        r == spec_starts_with(hay@, needle@),
{
    if needle.len() > hay.len() {
        return false;
    }
    let r = match_at(hay, needle, 0);
    proof {
        assert(hay@.subrange(0, needle@.len() as int) =~= hay@.take(needle@.len() as int));
    }
    r
}

/// The copy of `s[lo..hi]`.
pub fn subvec(s: &[u8], lo: usize, hi: usize) -> (r: Vec<u8>)
    requires
        lo <= hi <= s@.len(),
    ensures
        r@ == s@.subrange(lo as int, hi as int),
{
    let mut out: Vec<u8> = Vec::new();
    let mut i = lo;
    while i < hi
        invariant
            lo <= i <= hi <= s@.len(),
            out@ == s@.subrange(lo as int, i as int),
        decreases hi - i,
    {
        out.push(s[i]);
        proof {
            assert(out@ =~= s@.subrange(lo as int, i + 1));
        }
        i += 1;
    }
    out
}

/// Two adjacent subranges concatenate into one.
pub proof fn lemma_subrange_extend(input: Seq<u8>, t0: int, t1: int, k: int)
    requires
        0 <= t0 <= t1,
        0 <= k,
        t1 + k <= input.len(),
    ensures
        input.subrange(t0, t1) + input.subrange(t1, t1 + k) == input.subrange(t0, t1 + k),
{
    assert(input.subrange(t0, t1) + input.subrange(t1, t1 + k) =~= input.subrange(t0, t1 + k));
}

/// Extending a buffered prefix of leftover-then-stream by the chunk just
/// read keeps it a prefix.
pub proof fn lemma_take_extend(pdata: Seq<u8>, input: Seq<u8>, t0: int, bytes: Seq<u8>, chunk: Seq<u8>)
    requires
        0 <= t0 <= input.len(),
        bytes.len() >= pdata.len(),
        bytes == (pdata + input.skip(t0)).take(bytes.len() as int),
        chunk == input.subrange(
            t0 + bytes.len() - pdata.len(),
            t0 + bytes.len() - pdata.len() + chunk.len(),
        ),
        t0 + bytes.len() - pdata.len() + chunk.len() <= input.len(),
    ensures
        bytes + chunk == (pdata + input.skip(t0)).take(bytes.len() + chunk.len() as int),
{
    let avail = pdata + input.skip(t0);
    let l0 = bytes.len() as int;
    let l1 = l0 + chunk.len();
    assert forall|i: int| 0 <= i < l1 implies (bytes + chunk)[i] == avail[i] by {
        if i < l0 {
            assert((bytes + chunk)[i] == bytes[i]);
            assert(bytes[i] == avail.take(l0)[i]);
        } else {
            assert((bytes + chunk)[i] == chunk[i - l0]);
            assert(chunk[i - l0] == input[t0 + l0 - pdata.len() + (i - l0)]);
            assert(avail[i] == input.skip(t0)[i - pdata.len()]);
            assert(input.skip(t0)[i - pdata.len()] == input[t0 + i - pdata.len()]);
        }
    }
    assert(bytes + chunk =~= avail.take(l1));
}

} // verus!
