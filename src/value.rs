//! One machine word per value: an odd word carries an integer in its upper
//! 63 bits, an even non-zero word refers to a heap object, and zero is null.
use vstd::prelude::*;
use vstd::arithmetic::div_mod::{lemma_fundamental_div_mod_converse, lemma_mod_multiples_vanish};

verus! {

/// Smallest integer an inline value carries.
pub const INT_MIN: i64 = -0x4000_0000_0000_0000;

/// Largest integer an inline value carries.
pub const INT_MAX: i64 = 0x3fff_ffff_ffff_ffff;

/// The null word.
pub const NULL: i64 = 0;

/// The number of integers an inline value carries.
pub open spec fn int_span() -> int {
    0x8000_0000_0000_0000int
}

pub open spec fn representable(n: int) -> bool {
    INT_MIN <= n <= INT_MAX
}

/// `n` reduced into the inline range, as two's complement arithmetic on
/// 63 bits does.
pub open spec fn wrap(n: int) -> int {
    (n - INT_MIN) % int_span() + INT_MIN
}

/// The word that carries the integer `n`.
pub open spec fn encode(n: int) -> int {
    2 * n + 1
}

/// The integer in the upper bits of `v` (an arithmetic shift right by one).
pub open spec fn decode(v: int) -> int {
    v / 2
}

pub open spec fn tagged_int(v: int) -> bool {
    v % 2 == 1
}

pub open spec fn tagged_ref(v: int) -> bool {
    v % 2 == 0 && v != 0
}

/// Encoding and decoding undo each other on the inline range.
pub proof fn lemma_round_trip(n: int)
    requires
        representable(n),
    ensures
        decode(encode(n)) == n,
        tagged_int(encode(n)),
        i64::MIN <= encode(n) <= i64::MAX,
{
    lemma_fundamental_div_mod_converse(encode(n), 2, n, 1);
}

/// Every word is exactly one of: an inline integer, a heap reference, null.
pub proof fn lemma_tag_partition(v: i64)
    ensures
        tagged_int(v as int) || tagged_ref(v as int) || v == NULL,
        !(tagged_int(v as int) && tagged_ref(v as int)),
        !(tagged_int(v as int) && v == NULL),
        !(tagged_ref(v as int) && v == NULL),
{
}

/// Wrapping leaves the inline range alone and lands in it from anywhere.
pub proof fn lemma_wrap(n: int)
    ensures
        representable(wrap(n)),
        representable(n) ==> wrap(n) == n,
{
    if representable(n) {
        lemma_fundamental_div_mod_converse(n - INT_MIN, int_span(), 0, n - INT_MIN);
    }
}

/// Whether `val` carries an inline integer.
pub fn is_int(val: i64) -> (r: bool)
    ensures
        r == tagged_int(val as int),
{
    proof {
        assert(((val & 1i64) == 1i64) == (val % 2 == 1)) by (bit_vector);
    }
    (val & 1) == 1
}

/// Whether `val` refers to a heap object (even and not null).
pub fn is_ptr(val: i64) -> (r: bool)
    ensures
        r == tagged_ref(val as int),
{
    proof {
        assert(((val & 1i64) == 0i64) == (val % 2 == 0)) by (bit_vector);
    }
    (val & 1) == 0 && val != 0
}

/// The integer that `val` carries.
pub fn to_int(val: i64) -> (r: i64)
    ensures
        r == decode(val as int),
        representable(r as int),
{
    proof {
        assert((val >> 1u32) == val / 2) by (bit_vector);
        assert(INT_MIN <= (val >> 1u32) <= INT_MAX) by (bit_vector);
    }
    val >> 1u32
}

/// `p` reduced into the inline range.
pub fn wrap_wide(p: i128) -> (r: i64)
    requires
        -0x2000_0000_0000_0000_0000_0000_0000_0000 <= p < 0x2000_0000_0000_0000_0000_0000_0000_0000,
    ensures
        r == wrap(p as int),
{
    // Adding a multiple of the span keeps the residue and makes it non-negative.
    let shifted: u128 = (p - (INT_MIN as i128) + 0x4000_0000_0000_0000_0000_0000_0000_0000i128) as u128;
    let m: u128 = shifted % 0x8000_0000_0000_0000u128;
    proof {
        lemma_mod_multiples_vanish(int_span(), p - INT_MIN, int_span());
        assert(int_span() * int_span() == 0x4000_0000_0000_0000_0000_0000_0000_0000int);
    }
    (m as i128 + INT_MIN as i128) as i64
}

/// The word that carries `p` reduced into the inline range.
pub fn encode_wide(p: i128) -> (r: i64)
    requires
        -0x2000_0000_0000_0000_0000_0000_0000_0000 <= p < 0x2000_0000_0000_0000_0000_0000_0000_0000,
    ensures
        r == encode(wrap(p as int)),
        tagged_int(r as int),
{
    let w = wrap_wide(p);
    proof {
        lemma_wrap(p as int);
        lemma_round_trip(w as int);
    }
    2 * w + 1
}

/// The word that carries `n` reduced into the inline range.
pub fn from_int(n: i64) -> (r: i64)
    ensures
        r == encode(wrap(n as int)),
        tagged_int(r as int),
{
    encode_wide(n as i128)
}

} // verus!
