//! Decimal and hexadecimal numerals on the wire: `Content-Length` values,
//! status codes, ports, and chunk sizes.

use vstd::prelude::*;

verus! {

/// Whether `c` is an ASCII decimal digit.
pub open spec fn spec_is_digit(c: u8) -> bool {
    '0' as u8 <= c <= '9' as u8
}

/// Whether every byte of `s` is a decimal digit.
pub open spec fn spec_all_digits(s: Seq<u8>) -> bool {
    forall|i: int| 0 <= i < s.len() ==> spec_is_digit(#[trigger] s[i])
}

/// A well-formed decimal numeral: nonempty, digits only.
pub open spec fn spec_is_dec(s: Seq<u8>) -> bool {
    s.len() > 0 && spec_all_digits(s)
}

/// The value of a decimal numeral, most significant digit first.
pub open spec fn spec_dec_val(s: Seq<u8>) -> int
    decreases s.len(),
{
    if s.len() == 0 {
        0
    } else {
        spec_dec_val(s.take(s.len() - 1)) * 10 + (s[s.len() - 1] - '0' as u8)
    }
}

pub proof fn lemma_dec_val_nonneg(s: Seq<u8>)
    requires
        spec_all_digits(s),
    ensures
        spec_dec_val(s) >= 0,
    decreases s.len(),
{
    if s.len() > 0 {
        assert(spec_all_digits(s.take(s.len() - 1)));
        lemma_dec_val_nonneg(s.take(s.len() - 1));
    }
}

/// The value of a numeral is at least the value of any of its prefixes.
pub proof fn lemma_dec_val_prefix(s: Seq<u8>, j: int)
    requires
        spec_all_digits(s),
        0 <= j <= s.len(),
    ensures
        spec_dec_val(s.take(j)) <= spec_dec_val(s),
    decreases s.len() - j,
{
    if j < s.len() {
        assert(spec_all_digits(s.take(j + 1)));
        lemma_dec_val_nonneg(s.take(j));
        assert(s.take(j + 1).take(j) =~= s.take(j));
        assert(spec_dec_val(s.take(j + 1)) == spec_dec_val(s.take(j)) * 10 + (s[j] - '0' as u8));
        lemma_dec_val_prefix(s, j + 1);
    } else {
        assert(s.take(j) =~= s);
    }
}

/// Parses a decimal numeral into a `u64`; `None` on anything malformed and
/// on values beyond `u64::MAX`.
pub fn parse_u64_dec(s: &[u8]) -> (r: Option<u64>)
    ensures
        match r {
            Some(n) => spec_is_dec(s@) && n == spec_dec_val(s@),
            None => !spec_is_dec(s@) || spec_dec_val(s@) > u64::MAX,
        },
{
    if s.len() == 0 {
        return None;
    }
    let mut acc: u64 = 0;
    let mut i: usize = 0;
    while i < s.len()
        invariant
            i <= s@.len(),
            spec_all_digits(s@.take(i as int)),
            acc == spec_dec_val(s@.take(i as int)),
        decreases s@.len() - i,
    {
        let c = s[i];
        if c < '0' as u8 || c > '9' as u8 {
            return None;
        }
        let d = (c - '0' as u8) as u64;
        if acc > (u64::MAX - d) / 10 {
            proof {
                assert(spec_all_digits(s@.take(i + 1)));
                assert(s@.take(i + 1).take(i as int) =~= s@.take(i as int));
                assert(spec_dec_val(s@.take(i + 1)) == acc * 10 + d);
                if spec_all_digits(s@) {
                    lemma_dec_val_prefix(s@, i + 1);
                }
            }
            return None;
        }
        acc = acc * 10 + d;
        proof {
            assert(s@.take(i + 1).take(i as int) =~= s@.take(i as int));
        }
        i += 1;
    }
    proof {
        assert(s@.take(i as int) =~= s@);
    }
    Some(acc)
}

/// The decimal numeral of a non-negative value, no leading zeros except for
/// zero itself.
pub open spec fn spec_dec_of(n: int) -> Seq<u8>
    decreases n,
{
    if n < 10 {
        seq![(n + '0' as u8) as u8]
    } else {
        spec_dec_of(n / 10) + seq![(n % 10 + '0' as u8) as u8]
    }
}

/// Writes a value as a decimal numeral.
pub fn to_dec_u64(n: u64) -> (r: Vec<u8>)
    ensures
        r@ == spec_dec_of(n as int),
    decreases n,
{
    if n < 10 {
        let mut out: Vec<u8> = Vec::new();
        out.push(n as u8 + '0' as u8);
        assert(out@ =~= spec_dec_of(n as int));
        out
    } else {
        let mut out = to_dec_u64(n / 10);
        out.push((n % 10) as u8 + '0' as u8);
        assert(out@ =~= spec_dec_of(n as int));
        out
    }
}

/// Whether `c` is an ASCII hexadecimal digit, either case.
pub open spec fn spec_is_hex_digit(c: u8) -> bool {
    ('0' as u8 <= c <= '9' as u8) || ('a' as u8 <= c <= 'f' as u8) || (
    'A' as u8 <= c <= 'F' as u8)
}

/// The value of one hexadecimal digit.
pub open spec fn spec_hex_digit_val(c: u8) -> int {
    if '0' as u8 <= c <= '9' as u8 {
        c - '0' as u8
    } else if 'a' as u8 <= c <= 'f' as u8 {
        c - 'a' as u8 + 10
    } else {
        c - 'A' as u8 + 10
    }
}

/// Whether every byte of `s` is a hexadecimal digit.
pub open spec fn spec_all_hex_digits(s: Seq<u8>) -> bool {
    forall|i: int| 0 <= i < s.len() ==> spec_is_hex_digit(#[trigger] s[i])
}

/// A well-formed hexadecimal numeral: nonempty, hex digits only.
pub open spec fn spec_is_hex(s: Seq<u8>) -> bool {
    s.len() > 0 && spec_all_hex_digits(s)
}

/// The value of a hexadecimal numeral, most significant digit first.
pub open spec fn spec_hex_val(s: Seq<u8>) -> int
    decreases s.len(),
{
    if s.len() == 0 {
        0
    } else {
        spec_hex_val(s.take(s.len() - 1)) * 16 + spec_hex_digit_val(s[s.len() - 1])
    }
}

pub proof fn lemma_hex_val_nonneg(s: Seq<u8>)
    requires
        spec_all_hex_digits(s),
    ensures
        spec_hex_val(s) >= 0,
    decreases s.len(),
{
    if s.len() > 0 {
        assert(spec_all_hex_digits(s.take(s.len() - 1)));
        lemma_hex_val_nonneg(s.take(s.len() - 1));
    }
}

/// The value of a hex numeral is at least the value of any of its prefixes.
pub proof fn lemma_hex_val_prefix(s: Seq<u8>, j: int)
    requires
        spec_all_hex_digits(s),
        0 <= j <= s.len(),
    ensures
        spec_hex_val(s.take(j)) <= spec_hex_val(s),
    decreases s.len() - j,
{
    if j < s.len() {
        assert(spec_all_hex_digits(s.take(j + 1)));
        lemma_hex_val_nonneg(s.take(j));
        assert(s.take(j + 1).take(j) =~= s.take(j));
        assert(spec_hex_val(s.take(j + 1)) == spec_hex_val(s.take(j)) * 16 + spec_hex_digit_val(
            s[j],
        ));
        lemma_hex_val_prefix(s, j + 1);
    } else {
        assert(s.take(j) =~= s);
    }
}

/// Parses a hexadecimal numeral into a `u64`; `None` on anything malformed
/// and on values beyond `u64::MAX`.
pub fn parse_u64_hex(s: &[u8]) -> (r: Option<u64>)
    ensures
        match r {
            Some(n) => spec_is_hex(s@) && n == spec_hex_val(s@),
            None => !spec_is_hex(s@) || spec_hex_val(s@) > u64::MAX,
        },
{
    if s.len() == 0 {
        return None;
    }
    let mut acc: u64 = 0;
    let mut i: usize = 0;
    while i < s.len()
        invariant
            i <= s@.len(),
            spec_all_hex_digits(s@.take(i as int)),
            acc == spec_hex_val(s@.take(i as int)),
        decreases s@.len() - i,
    {
        let c = s[i];
        let d: u64 = if c >= '0' as u8 && c <= '9' as u8 {
            (c - '0' as u8) as u64
        } else if c >= 'a' as u8 && c <= 'f' as u8 {
            (c - 'a' as u8) as u64 + 10
        } else if c >= 'A' as u8 && c <= 'F' as u8 {
            (c - 'A' as u8) as u64 + 10
        } else {
            return None;
        };
        if acc > (u64::MAX - d) / 16 {
            proof {
                assert(spec_all_hex_digits(s@.take(i + 1)));
                assert(s@.take(i + 1).take(i as int) =~= s@.take(i as int));
                assert(spec_hex_val(s@.take(i + 1)) == acc * 16 + d);
                if spec_all_hex_digits(s@) {
                    lemma_hex_val_prefix(s@, i + 1);
                }
            }
            return None;
        }
        acc = acc * 16 + d;
        proof {
            assert(s@.take(i + 1).take(i as int) =~= s@.take(i as int));
        }
        i += 1;
    }
    proof {
        assert(s@.take(i as int) =~= s@);
    }
    Some(acc)
}

/// The lower-case hexadecimal numeral of a non-negative value.
pub open spec fn spec_hex_of(n: int) -> Seq<u8>
    decreases n,
{
    if n < 16 {
        seq![spec_hex_digit_of(n)]
    } else {
        spec_hex_of(n / 16) + seq![spec_hex_digit_of(n % 16)]
    }
}

/// The lower-case digit for one hexadecimal place.
pub open spec fn spec_hex_digit_of(d: int) -> u8 {
    if d < 10 {
        (d + '0' as u8) as u8
    } else {
        (d - 10 + 'a' as u8) as u8
    }
}

/// Writes a value as a lower-case hexadecimal numeral.
pub fn to_hex_u64(n: u64) -> (r: Vec<u8>)
    ensures
        r@ == spec_hex_of(n as int),
    decreases n,
{
    if n < 16 {
        let mut out: Vec<u8> = Vec::new();
        let d = n as u8;
        out.push(if d < 10 { d + '0' as u8 } else { d - 10 + 'a' as u8 });
        assert(out@ =~= spec_hex_of(n as int));
        out
    } else {
        let mut out = to_hex_u64(n / 16);
        let d = (n % 16) as u8;
        out.push(if d < 10 { d + '0' as u8 } else { d - 10 + 'a' as u8 });
        assert(out@ =~= spec_hex_of(n as int));
        out
    }
}

/// A three-digit numeral names a value below a thousand.
pub proof fn lemma_dec_val_3(s: Seq<u8>)
    requires
        spec_is_dec(s),
        s.len() == 3,
    ensures
        0 <= spec_dec_val(s) <= 999,
{
    let t2 = s.take(2);
    let t1 = s.take(1);
    assert(t2.take(1) =~= t1);
    assert(t1.take(0) =~= Seq::<u8>::empty());
    assert(spec_dec_val(t1) == spec_dec_val(t1.take(0)) * 10 + (t1[0] - '0' as u8));
    assert(spec_dec_val(t2) == spec_dec_val(t1) * 10 + (t2[1] - '0' as u8));
    assert(spec_dec_val(s) == spec_dec_val(t2) * 10 + (s[2] - '0' as u8));
}

} // verus!
