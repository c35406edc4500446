//! Byte-level text helpers: appending, decimal rendering and decimal parsing.
use vstd::prelude::*;

verus! {

/// The ASCII digits of `n`, most significant first.
pub open spec fn digits(n: nat) -> Seq<u8>
    decreases n,
{
    if n < 10 {
        seq![(n + 48) as u8]
    } else {
        digits(n / 10).push((n % 10 + 48) as u8)
    }
}

/// The decimal text of `n`: a minus sign for negatives, then its digits.
pub open spec fn decimal(n: int) -> Seq<u8> {
    if n < 0 {
        seq![45u8] + digits((-n) as nat)
    } else {
        digits(n as nat)
    }
}

pub open spec fn is_digit(c: u8) -> bool {
    48 <= c <= 57
}

pub open spec fn all_digits(s: Seq<u8>) -> bool {
    forall|i: int| 0 <= i < s.len() ==> is_digit(#[trigger] s[i])
}

/// The number that a run of ASCII digits spells.
pub open spec fn digits_value(s: Seq<u8>) -> int
    decreases s.len(),
{
    if s.len() == 0 {
        0
    } else {
        digits_value(s.drop_last()) * 10 + (s.last() - 48)
    }
}

/// Whether `s` starts with a sign byte, `+` or `-`.
pub open spec fn signed(s: Seq<u8>) -> bool {
    s.len() > 0 && (s[0] == 45 || s[0] == 43)
}

/// The digits after an optional sign.
pub open spec fn unsigned_part(s: Seq<u8>) -> Seq<u8> {
    if signed(s) {
        s.subrange(1, s.len() as int)
    } else {
        s
    }
}

/// The 64-bit integer that `s` spells in decimal: an optional sign, then
/// one or more digits, and nothing else; `None` for any other text and for
/// a number outside the 64-bit range.
pub open spec fn parse_decimal(s: Seq<u8>) -> Option<int> {
    let body = unsigned_part(s);
    let m = digits_value(body);
    let n = if s.len() > 0 && s[0] == 45 { -m } else { m };
    if body.len() > 0 && all_digits(body) && i64::MIN <= n <= i64::MAX {
        Some(n)
    } else {
        None
    }
}

proof fn lemma_digits_value_nonneg(s: Seq<u8>)
    requires
        all_digits(s),
    ensures
        digits_value(s) >= 0,
    decreases s.len(),
{
    if s.len() > 0 {
        lemma_digits_value_nonneg(s.drop_last());
    }
}

/// Appends the bytes of `src` to `out`.
pub fn append_bytes(out: &mut Vec<u8>, src: &Vec<u8>)
    ensures
        final(out)@ == old(out)@ + src@,
{
    let mut i: usize = 0;
    while i < src.len()
        invariant
            i <= src@.len(),
            out@ == old(out)@ + src@.subrange(0, i as int),
        decreases src@.len() - i,
    {
        out.push(src[i]);
        i += 1;
        assert(src@.subrange(0, i as int) =~= src@.subrange(0, i - 1) + seq![src@[i - 1]]);
    }
    assert(src@.subrange(0, i as int) =~= src@);
}

/// Whether `x` and `y` hold the same bytes.
pub fn bytes_equal(x: &Vec<u8>, y: &Vec<u8>) -> (r: bool)
    ensures
        r == (x@ == y@),
{
    if x.len() != y.len() {
        return false;
    }
    let mut i: usize = 0;
    while i < x.len()
        invariant
            i <= x@.len(),
            x@.len() == y@.len(),
            forall|j: int| 0 <= j < i ==> x@[j] == y@[j],
        decreases x@.len() - i,
    {
        if x[i] != y[i] {
            return false;
        }
        i += 1;
    }
    assert(x@ =~= y@);
    true
}

/// Appends the digits of `n` to `out`.
pub fn push_digits(out: &mut Vec<u8>, n: u64)
    ensures
        final(out)@ == old(out)@ + digits(n as nat),
    decreases n,
{
    if n >= 10 {
        push_digits(out, n / 10);
    }
    out.push((n % 10) as u8 + 48);
    assert(out@ =~= old(out)@ + digits(n as nat));
}

/// The decimal text of `n`.
pub fn decimal_bytes(n: i64) -> (r: Vec<u8>)
    ensures
        r@ == decimal(n as int),
{
    let mut out: Vec<u8> = Vec::new();
    if n < 0 {
        out.push(45u8);
        push_digits(&mut out, (-(n as i128)) as u64);
        assert(out@ =~= decimal(n as int));
    } else {
        push_digits(&mut out, n as u64);
        assert(out@ =~= decimal(n as int));
    }
    out
}

/// Reads `s` as a decimal 64-bit integer, as `parse_decimal` says.
pub fn parse_bytes(s: &Vec<u8>) -> (r: Option<i64>)
    ensures
        r matches Some(n) ==> parse_decimal(s@) == Some(n as int),
        r is None ==> parse_decimal(s@) is None,
{
    let negative = s.len() > 0 && s[0] == 45u8;
    let start: usize = if s.len() > 0 && (s[0] == 45u8 || s[0] == 43u8) { 1 } else { 0 };
    let ghost body = unsigned_part(s@);
    assert(body =~= s@.subrange(start as int, s@.len() as int));
    if start >= s.len() {
        return None;
    }
    // Magnitudes beyond the 64-bit range are all held as `cap`.
    let cap: u128 = 0x8000_0000_0000_0001u128;
    let mut m: u128 = 0;
    let mut i: usize = start;
    while i < s.len()
        invariant
            start <= i <= s@.len(),
            cap == 0x8000_0000_0000_0001u128,
            m <= cap,
            body == unsigned_part(s@),
            body == s@.subrange(start as int, s@.len() as int),
            all_digits(s@.subrange(start as int, i as int)),
            m == (if digits_value(s@.subrange(start as int, i as int)) < cap {
                digits_value(s@.subrange(start as int, i as int))
            } else {
                cap as int
            }),
        decreases s@.len() - i,
    {
        let c = s[i];
        if c < 48u8 || c > 57u8 {
            assert(body[i - start] == c);
            assert(!is_digit(body[i - start]));
            assert(!all_digits(body));
            return None;
        }
        let ghost prev = s@.subrange(start as int, i as int);
        let ghost next = s@.subrange(start as int, i + 1);
        assert(next.drop_last() =~= prev);
        assert(next.last() == c);
        assert(all_digits(next)) by {
            assert forall|j: int| 0 <= j < next.len() implies is_digit(#[trigger] next[j]) by {
                if j < prev.len() {
                    assert(next[j] == prev[j]);
                }
            }
        }
        proof {
            lemma_digits_value_nonneg(prev);
        }
        let t: u128 = m * 10 + (c - 48u8) as u128;
        assert(digits_value(next) == digits_value(prev) * 10 + (c - 48));
        proof {
            if digits_value(prev) >= cap {
                assert(digits_value(prev) * 10 >= cap * 10) by (nonlinear_arith)
                    requires
                        digits_value(prev) >= cap,
                ;
            }
        }
        m = if t > cap { cap } else { t };
        i += 1;
    }
    assert(s@.subrange(start as int, i as int) =~= body);
    if negative {
        if m > 0x8000_0000_0000_0000u128 {
            return None;
        }
        Some((-(m as i128)) as i64)
    } else {
        if m > 0x7fff_ffff_ffff_ffffu128 {
            return None;
        }
        Some(m as i64)
    }
}

} // verus!
