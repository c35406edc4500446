//! The operators of the language over values: arithmetic, comparison and
//! equality. Text operands take part in `+` and `==`; every other operator
//! works on the integers that its operands carry.
use vstd::prelude::*;
use crate::heap::{ref_of, text_at, Heap, Obj, Object};
use crate::text::{append_bytes, bytes_equal, decimal, decimal_bytes};
use crate::value::{decode, encode, from_int, encode_wide, is_int, tagged_int, to_int, wrap};

verus! {

/// The word for truth values: 1 for true, 0 for false.
pub open spec fn truth(b: bool) -> int {
    if b {
        encode(1)
    } else {
        encode(0)
    }
}

/// The word for the integer result `n`, reduced into the inline range.
pub open spec fn int_word(n: int) -> int {
    encode(wrap(n))
}

/// Division that rounds toward zero.
pub open spec fn quotient(a: int, b: int) -> int {
    let q = (if a < 0 { -a } else { a }) / (if b < 0 { -b } else { b });
    if (a < 0) != (b < 0) {
        -q
    } else {
        q
    }
}

/// The text that `a + b` builds, when it builds one: two texts joined, or a
/// text and the decimal form of an integer joined in operand order.
pub open spec fn concat_of(h: Seq<Object>, a: int, b: int) -> Option<Seq<u8>> {
    match (text_at(h, a), text_at(h, b)) {
        (Some(x), Some(y)) => Some(x + y),
        (Some(x), None) => if tagged_int(b) {
            Some(x + decimal(decode(b)))
        } else {
            None
        },
        (None, Some(y)) => if tagged_int(a) {
            Some(decimal(decode(a)) + y)
        } else {
            None
        },
        (None, None) => None,
    }
}

/// The word that `a + b` gives when it builds no text.
pub open spec fn sum_word(a: int, b: int) -> int {
    if tagged_int(a) && tagged_int(b) {
        int_word(decode(a) + decode(b))
    } else {
        encode(0)
    }
}

/// The word that `a == b` gives: true for the same word, or for two texts
/// with the same bytes; false otherwise.
pub open spec fn eq_word(h: Seq<Object>, a: int, b: int) -> int {
    truth(
        a == b || (text_at(h, a) is Some && text_at(h, a) == text_at(h, b)),
    )
}

/// Adds two integers, or joins texts, or joins a text and an integer's
/// decimal form; any other pair gives the integer 0.
pub fn argon_add(heap: &mut Heap, a: i64, b: i64) -> (r: i64)
    requires
        old(heap).room(),
    ensures
        match concat_of(old(heap)@, a as int, b as int) {
            Some(t) => final(heap)@ == old(heap)@.push(Object::Text(t)) && r == ref_of(
                old(heap)@.len() as int,
            ),
            None => final(heap)@ == old(heap)@ && r == sum_word(a as int, b as int),
        },
{
    if is_int(a) && is_int(b) {
        return from_int(to_int(a) + to_int(b));
    }
    let mut out: Vec<u8> = Vec::new();
    match (heap.text_of(a), heap.text_of(b)) {
        (Some(x), Some(y)) => {
            append_bytes(&mut out, x);
            append_bytes(&mut out, y);
        },
        (Some(x), None) => {
            if !is_int(b) {
                return from_int(0);
            }
            append_bytes(&mut out, x);
            append_bytes(&mut out, &decimal_bytes(to_int(b)));
        },
        (None, Some(y)) => {
            if !is_int(a) {
                return from_int(0);
            }
            append_bytes(&mut out, &decimal_bytes(to_int(a)));
            append_bytes(&mut out, y);
        },
        (None, None) => {
            return from_int(0);
        },
    }
    heap.allocate(Obj::Text(out))
}

/// The difference of the integers that `a` and `b` carry.
pub fn argon_sub(a: i64, b: i64) -> (r: i64)
    ensures
        r == int_word(decode(a as int) - decode(b as int)),
{
    from_int(to_int(a) - to_int(b))
}

/// The product of the integers that `a` and `b` carry.
pub fn argon_mul(a: i64, b: i64) -> (r: i64)
    ensures
        r == int_word(decode(a as int) * decode(b as int)),
{
    let x = to_int(a) as i128;
    let y = to_int(b) as i128;
    assert(-0x1000_0000_0000_0000_0000_0000_0000_0000int <= x * y <= 0x1000_0000_0000_0000_0000_0000_0000_0000int) by (nonlinear_arith)
        requires
            -0x4000_0000_0000_0000int <= x <= 0x4000_0000_0000_0000int,
            -0x4000_0000_0000_0000int <= y <= 0x4000_0000_0000_0000int,
    ;
    encode_wide(x * y)
}

/// The quotient, rounded toward zero, of the integers that `a` and `b`
/// carry; a zero divisor gives 0 rather than a fault.
pub fn argon_div(a: i64, b: i64) -> (r: i64)
    ensures
        decode(b as int) == 0 ==> r == encode(0),
        decode(b as int) != 0 ==> r == int_word(quotient(decode(a as int), decode(b as int))),
{
    let vb = to_int(b);
    if vb == 0 {
        return from_int(0);
    }
    let va = to_int(a);
    let ma: i64 = if va < 0 { -va } else { va };
    let mb: i64 = if vb < 0 { -vb } else { vb };
    let q: i64 = ma / mb;
    assert(0 <= q <= ma) by (nonlinear_arith)
        requires
            0 <= ma,
            1 <= mb,
            q == ma / mb,
    ;
    from_int(if (va < 0) != (vb < 0) { -q } else { q })
}

/// Whether the integer that `a` carries is below that of `b`.
pub fn argon_lt(a: i64, b: i64) -> (r: i64)
    ensures
        r == truth(decode(a as int) < decode(b as int)),
{
    if to_int(a) < to_int(b) {
        from_int(1)
    } else {
        from_int(0)
    }
}

/// Whether the integer that `a` carries is above that of `b`.
pub fn argon_gt(a: i64, b: i64) -> (r: i64)
    ensures
        r == truth(decode(a as int) > decode(b as int)),
{
    if to_int(a) > to_int(b) {
        from_int(1)
    } else {
        from_int(0)
    }
}

/// Equality: the same word is equal to itself; two texts are equal when
/// their bytes are; nothing else is equal.
pub fn argon_eq(heap: &Heap, a: i64, b: i64) -> (r: i64)
    ensures
        r == eq_word(heap@, a as int, b as int),
{
    if a == b {
        return from_int(1);
    }
    if let (Some(x), Some(y)) = (heap.text_of(a), heap.text_of(b)) {
        if bytes_equal(x, y) {
            return from_int(1);
        }
    }
    from_int(0)
}

/// A text and an integer are never equal, in either order.
pub proof fn lemma_text_never_equals_int(h: Seq<Object>, t: int, n: int)
    requires
        text_at(h, t) is Some,
        tagged_int(n),
    ensures
        eq_word(h, t, n) == encode(0),
        eq_word(h, n, t) == encode(0),
{
}

} // verus!
