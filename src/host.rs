//! The parts of the host services that decide: which values reach the host
//! and what the program gets back for each outcome. The host work itself
//! (reading the arguments, printing, the file system) is done by the caller,
//! which hands its outcome in.
use vstd::prelude::*;
use crate::heap::{ref_of, text_at, list_at, Heap, Obj, Object};
use crate::collections::{argon_arr_new, argon_push, argon_str_new, pushed};
use crate::ops::truth;
use crate::text::{append_bytes, decimal, decimal_bytes};
use crate::value::{decode, is_int, tagged_int, to_int, NULL};

verus! {

/// What a list prints as: `[Array]`.
pub open spec fn array_mark() -> Seq<u8> {
    seq![91u8, 65, 114, 114, 97, 121, 93]
}

/// What null, or a word naming no object, prints as: `[Null]`.
pub open spec fn null_mark() -> Seq<u8> {
    seq![91u8, 78, 117, 108, 108, 93]
}

/// The line that printing `v` shows, without its line break.
pub open spec fn printed(h: Seq<Object>, v: int) -> Seq<u8> {
    if tagged_int(v) {
        decimal(decode(v))
    } else {
        match text_at(h, v) {
            Some(t) => t,
            None => if list_at(h, v) is Some {
                array_mark()
            } else {
                null_mark()
            },
        }
    }
}

/// The bytes of the text that `v` names, as a value of their own.
pub fn text_value(heap: &Heap, v: i64) -> (r: Option<Vec<u8>>)
    ensures
        r matches Some(b) ==> text_at(heap@, v as int) == Some(b@),
        r is None ==> text_at(heap@, v as int) is None,
{
    match heap.text_of(v) {
        Some(t) => {
            let mut b: Vec<u8> = Vec::new();
            append_bytes(&mut b, t);
            assert(b@ =~= t@);
            Some(b)
        },
        None => None,
    }
}

/// A new list of new texts, one per program argument, in order.
pub fn argon_get_args(heap: &mut Heap, args: &Vec<Vec<u8>>) -> (r: i64)
    requires
        old(heap).room_for(args@.len() + 1int),
    ensures
        ({
            let n = old(heap)@.len() as int;
            let h = final(heap)@;
            &&& r == ref_of(n)
            &&& h.len() == n + 1 + args@.len()
            &&& h.subrange(0, n) == old(heap)@
            &&& h[n] == Object::List(Seq::new(args@.len(), |i: int| ref_of(n + 1 + i) as i64))
            &&& forall|i: int| 0 <= i < args@.len() ==> h[n + 1 + i] == Object::Text(#[trigger] args@[i]@)
        }),
{
    let ghost n = heap@.len() as int;
    let arr = argon_arr_new(heap);
    let mut i: usize = 0;
    assert(Seq::new(0nat, |j: int| ref_of(n + 1 + j) as i64) =~= Seq::<i64>::empty());
    while i < args.len()
        invariant
            n == old(heap)@.len(),
            old(heap).room_for(args@.len() + 1int),
            arr == ref_of(n),
            i <= args@.len(),
            heap@.len() == n + 1 + i,
            heap@.subrange(0, n) == old(heap)@,
            heap@[n] == Object::List(Seq::new(i as nat, |j: int| ref_of(n + 1 + j) as i64)),
            forall|j: int| 0 <= j < i ==> heap@[n + 1 + j] == Object::Text(#[trigger] args@[j]@),
        decreases args@.len() - i,
    {
        let mut b: Vec<u8> = Vec::new();
        append_bytes(&mut b, &args[i]);
        assert(b@ =~= args@[i as int]@);
        let ghost before = heap@;
        let s = argon_str_new(heap, b);
        let ghost mid = heap@;
        assert(mid.subrange(0, n) =~= before.subrange(0, n));
        assert(list_at(mid, arr as int) == Some(Seq::new(i as nat, |j: int| ref_of(n + 1 + j) as i64)));
        argon_push(heap, arr, s);
        proof {
            assert(heap@ == pushed(mid, arr as int, s));
            assert(heap@.subrange(0, n) =~= mid.subrange(0, n));
            assert(Seq::new(i as nat, |j: int| ref_of(n + 1 + j) as i64).push(s) =~= Seq::new(
                (i + 1) as nat,
                |j: int| ref_of(n + 1 + j) as i64,
            ));
            assert forall|j: int| 0 <= j < i + 1 implies heap@[n + 1 + j] == Object::Text(
                #[trigger] args@[j]@,
            ) by {
                if j < i {
                    assert(mid[n + 1 + j] == before[n + 1 + j]);
                }
            }
        }
        i += 1;
    }
    arr
}

/// The line that printing `val` shows: an integer's decimal form, a text's
/// bytes, `[Array]` for a list, `[Null]` for anything else.
pub fn argon_print(heap: &Heap, val: i64) -> (r: Vec<u8>)
    ensures
        r@ == printed(heap@, val as int),
{
    if is_int(val) {
        return decimal_bytes(to_int(val));
    }
    if let Some(t) = text_value(heap, val) {
        return t;
    }
    if let Some(_) = heap.list_of(val) {
        let r = vec![91u8, 65, 114, 114, 97, 121, 93];
        assert(r@ =~= array_mark());
        r
    } else {
        let r = vec![91u8, 78, 117, 108, 108, 93];
        assert(r@ =~= null_mark());
        r
    }
}

/// The text that a file read gives: a new text of the content `loaded`
/// when `path` names a text and the read succeeded, null otherwise.
pub fn argon_read_file(heap: &mut Heap, path: i64, loaded: Option<Vec<u8>>) -> (r: i64)
    requires
        old(heap).room(),
    ensures
        match (text_at(old(heap)@, path as int), loaded) {
            (Some(_), Some(c)) => final(heap)@ == old(heap)@.push(Object::Text(c@)) && r == ref_of(
                old(heap)@.len() as int,
            ),
            _ => final(heap)@ == old(heap)@ && r == NULL,
        },
{
    if heap.text_of(path).is_none() {
        return NULL;
    }
    match loaded {
        Some(c) => heap.allocate(Obj::Text(c)),
        None => NULL,
    }
}

/// The flag that a file write gives: true when both words name texts and
/// the write succeeded.
pub fn argon_write_file(heap: &Heap, path: i64, content: i64, written: bool) -> (r: i64)
    ensures
        r == truth(
            text_at(heap@, path as int) is Some && text_at(heap@, content as int) is Some && written,
        ),
{
    if heap.text_of(path).is_some() && heap.text_of(content).is_some() && written {
        crate::value::from_int(1)
    } else {
        crate::value::from_int(0)
    }
}

/// The flag that an existence test gives: true when `path` names a text and
/// the file is there.
pub fn argon_file_exists(heap: &Heap, path: i64, exists: bool) -> (r: i64)
    ensures
        r == truth(text_at(heap@, path as int) is Some && exists),
{
    if heap.text_of(path).is_some() && exists {
        crate::value::from_int(1)
    } else {
        crate::value::from_int(0)
    }
}

} // verus!
