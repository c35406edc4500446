//! Building, reading and changing texts and lists through reference words.
//! Indices are the integers that index words carry; an index outside an
//! object, or a word that names no fitting object, gives a fixed default.
use vstd::prelude::*;
use crate::heap::{list_at, ref_of, slot_of, text_at, Heap, Obj, Object};
use crate::ops::int_word;
use crate::text::{parse_bytes, parse_decimal};
use crate::value::{decode, encode, from_int, encode_wide, to_int, NULL};

verus! {

/// Whether `i` is a position of a sequence of length `n`.
pub open spec fn in_bounds(i: int, n: int) -> bool {
    0 <= i < n
}

/// The heap after `val` is appended to the list that `l` names; unchanged
/// when `l` names no list.
pub open spec fn pushed(h: Seq<Object>, l: int, val: i64) -> Seq<Object> {
    match list_at(h, l) {
        Some(items) => h.update(slot_of(l), Object::List(items.push(val))),
        None => h,
    }
}

/// The heap after position `i` of the list that `l` names is set to `val`;
/// unchanged when `l` names no list or `i` is outside it.
pub open spec fn assigned(h: Seq<Object>, l: int, i: int, val: i64) -> Seq<Object> {
    match list_at(h, l) {
        Some(items) => if in_bounds(i, items.len() as int) {
            h.update(slot_of(l), Object::List(items.update(i, val)))
        } else {
            h
        },
        None => h,
    }
}

/// The element count of a list, the byte count of a text, 0 for any other
/// word.
pub open spec fn count_of(h: Seq<Object>, v: int) -> int {
    match list_at(h, v) {
        Some(items) => items.len() as int,
        None => match text_at(h, v) {
            Some(t) => t.len() as int,
            None => 0,
        },
    }
}

/// Makes a text object holding `bytes`.
pub fn argon_str_new(heap: &mut Heap, bytes: Vec<u8>) -> (r: i64)
    requires
        old(heap).room(),
    ensures
        final(heap)@ == old(heap)@.push(Object::Text(bytes@)),
        r == ref_of(old(heap)@.len() as int),
{
    heap.allocate(Obj::Text(bytes))
}

/// Makes an empty list object.
pub fn argon_arr_new(heap: &mut Heap) -> (r: i64)
    requires
        old(heap).room(),
    ensures
        final(heap)@ == old(heap)@.push(Object::List(Seq::empty())),
        r == ref_of(old(heap)@.len() as int),
{
    let items: Vec<i64> = Vec::new();
    assert(items@ =~= Seq::<i64>::empty());
    heap.allocate(Obj::List(items))
}

/// Appends `val` to the list that `arr` names and hands `arr` back.
pub fn argon_push(heap: &mut Heap, arr: i64, val: i64) -> (r: i64)
    ensures
        r == arr,
        final(heap)@ == pushed(old(heap)@, arr as int, val),
{
    if let Some(k) = heap.slot(arr) {
        if let Obj::List(_) = heap.get(k) {
            heap.push_at(k, val);
        }
    }
    arr
}

/// The element of a list at an index, or a new one-byte text for a text;
/// null when the index is outside the object or `coll` names neither.
pub fn argon_get(heap: &mut Heap, coll: i64, idx: i64) -> (r: i64)
    requires
        old(heap).room(),
    ensures
        ({
            let h = old(heap)@;
            let i = decode(idx as int);
            match list_at(h, coll as int) {
                Some(items) => final(heap)@ == h && r == (if in_bounds(i, items.len() as int) {
                    items[i] as int
                } else {
                    NULL as int
                }),
                None => match text_at(h, coll as int) {
                    Some(t) => if in_bounds(i, t.len() as int) {
                        final(heap)@ == h.push(Object::Text(seq![t[i]])) && r == ref_of(h.len() as int)
                    } else {
                        final(heap)@ == h && r == NULL
                    },
                    None => final(heap)@ == h && r == NULL,
                },
            }
        }),
{
    let i = to_int(idx);
    if let Some(items) = heap.list_of(coll) {
        if i >= 0 && (i as u64) < (items.len() as u64) {
            return items[i as usize];
        }
        return NULL;
    }
    let mut one: Vec<u8> = Vec::new();
    match heap.text_of(coll) {
        Some(t) => {
            if i >= 0 && (i as u64) < (t.len() as u64) {
                one.push(t[i as usize]);
            } else {
                return NULL;
            }
        },
        None => {
            return NULL;
        },
    }
    assert(one@ =~= seq![text_at(heap@, coll as int)->0[decode(idx as int)]]);
    heap.allocate(Obj::Text(one))
}

/// Sets position `idx` of the list that `arr` names to `val`, when there is
/// such a position, and hands `val` back either way.
pub fn argon_set(heap: &mut Heap, arr: i64, idx: i64, val: i64) -> (r: i64)
    ensures
        r == val,
        final(heap)@ == assigned(old(heap)@, arr as int, decode(idx as int), val),
{
    let i = to_int(idx);
    if let Some(k) = heap.slot(arr) {
        if let Obj::List(items) = heap.get(k) {
            if i >= 0 && (i as u64) < (items.len() as u64) {
                heap.set_at(k, i as usize, val);
            }
        }
    }
    val
}

/// The element count of a list or the byte count of a text; 0 otherwise.
pub fn argon_len(heap: &Heap, val: i64) -> (r: i64)
    ensures
        r == int_word(count_of(heap@, val as int)),
{
    if let Some(items) = heap.list_of(val) {
        return encode_wide(items.len() as i128);
    }
    if let Some(t) = heap.text_of(val) {
        return encode_wide(t.len() as i128);
    }
    from_int(0)
}

/// The byte at offset `idx` of the text that `s` names; 0 when the offset is
/// outside it or `s` names no text.
pub fn argon_char_code_at(heap: &Heap, s: i64, idx: i64) -> (r: i64)
    ensures
        r == (match text_at(heap@, s as int) {
            Some(t) => if in_bounds(decode(idx as int), t.len() as int) {
                encode(t[decode(idx as int)] as int)
            } else {
                encode(0)
            },
            None => encode(0),
        }),
{
    let i = to_int(idx);
    if let Some(t) = heap.text_of(s) {
        if i >= 0 && (i as u64) < (t.len() as u64) {
            let c = t[i as usize];
            proof {
                crate::value::lemma_wrap(c as int);
            }
            return from_int(c as i64);
        }
    }
    from_int(0)
}

/// The integer that the text `s` spells in decimal; 0 when it spells none or
/// `s` names no text, the same word as a spelled zero.
pub fn argon_parse_int(heap: &Heap, s: i64) -> (r: i64)
    ensures
        r == (match text_at(heap@, s as int) {
            Some(t) => match parse_decimal(t) {
                Some(n) => int_word(n),
                None => encode(0),
            },
            None => encode(0),
        }),
{
    if let Some(t) = heap.text_of(s) {
        if let Some(n) = parse_bytes(t) {
            return from_int(n);
        }
    }
    from_int(0)
}

/// Appending to a list hands back the same word, and the list's count then
/// reads one more.
pub proof fn lemma_push_then_length(h: Seq<Object>, l: int, val: i64)
    requires
        list_at(h, l) is Some,
    ensures
        list_at(pushed(h, l, val), l) is Some,
        count_of(pushed(h, l, val), l) == count_of(h, l) + 1,
{
}

} // verus!
