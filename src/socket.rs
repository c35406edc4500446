//! The socket handle tables. A handle is the position at which a listener or
//! a stream was appended; closing a stream empties its slot, and no slot is
//! ever removed or reused. The tables hold the host's own listener and
//! stream values (`L`, `S`); binding, accepting, reading and writing are done
//! by the caller, which hands its outcome in.
use vstd::prelude::*;
use crate::heap::{ref_of, text_at, Heap, Obj, Object};
use crate::ops::truth;
use crate::value::{decode, encode, encode_wide, from_int, lemma_wrap, to_int};

verus! {

/// The most entries one table holds, so that every handle fits a word.
pub const MAX_HANDLES: u64 = 0x2000_0000_0000_0000;

/// The most bytes one socket read takes.
pub const READ_CHUNK: usize = 1024;

/// Whether the handle word `id` names a filled slot of `t`.
pub open spec fn open_slot<T>(t: Seq<Option<T>>, id: int) -> bool {
    0 <= decode(id) < t.len() && t[decode(id)] is Some
}

/// The word that accepting on `id` gives, when a connection in hand is
/// `accepted` and the stream table holds `n` entries: the new stream's
/// handle, or -1 when `id` names no listener or nothing was accepted.
pub open spec fn accept_word<L, S>(t: Seq<Option<L>>, id: int, accepted: Option<S>, n: int) -> int {
    if open_slot(t, id) && accepted is Some {
        encode(n)
    } else {
        encode(-1)
    }
}

/// The listener and stream tables of one running program.
pub struct Registry<L, S> {
    listeners: Vec<Option<L>>,
    streams: Vec<Option<S>>,
}

impl<L, S> Registry<L, S> {
    pub closed spec fn listener_table(&self) -> Seq<Option<L>> {
        self.listeners@
    }

    pub closed spec fn stream_table(&self) -> Seq<Option<S>> {
        self.streams@
    }

    /// Whether each table takes one more entry.
    pub open spec fn room(&self) -> bool {
        self.listener_table().len() < MAX_HANDLES && self.stream_table().len() < MAX_HANDLES
    }

    /// Empty tables.
    pub fn new() -> (r: Self)
        ensures
            r.listener_table() == Seq::<Option<L>>::empty(),
            r.stream_table() == Seq::<Option<S>>::empty(),
    {
        let r = Registry { listeners: Vec::new(), streams: Vec::new() };
        assert(r.listener_table() =~= Seq::<Option<L>>::empty());
        assert(r.stream_table() =~= Seq::<Option<S>>::empty());
        r
    }

    /// Whether each table takes one more entry.
    pub fn has_room(&self) -> (r: bool)
        ensures
            r == self.room(),
    {
        (self.listeners.len() as u64) < MAX_HANDLES && (self.streams.len() as u64) < MAX_HANDLES
    }

    /// The listener that `id` names, if its slot is filled.
    pub fn listener(&self, id: i64) -> (r: Option<&L>)
        ensures
            r matches Some(l) ==> open_slot(self.listener_table(), id as int) && *l
                == self.listener_table()[decode(id as int)]->0,
            r is None ==> !open_slot(self.listener_table(), id as int),
    {
        let k = to_int(id);
        if k >= 0 && (k as u64) < (self.listeners.len() as u64) {
            match &self.listeners[k as usize] {
                Some(l) => Some(l),
                None => None,
            }
        } else {
            None
        }
    }

    /// The stream that `id` names, if its slot is filled.
    pub fn stream(&self, id: i64) -> (r: Option<&S>)
        ensures
            r matches Some(s) ==> open_slot(self.stream_table(), id as int) && *s
                == self.stream_table()[decode(id as int)]->0,
            r is None ==> !open_slot(self.stream_table(), id as int),
    {
        let k = to_int(id);
        if k >= 0 && (k as u64) < (self.streams.len() as u64) {
            match &self.streams[k as usize] {
                Some(s) => Some(s),
                None => None,
            }
        } else {
            None
        }
    }
}

/// Records the outcome of binding a listener: a bound listener is appended
/// and its handle returned; a failed bind gives -1 and changes nothing.
pub fn argon_listen<L, S>(reg: &mut Registry<L, S>, bound: Option<L>) -> (r: i64)
    requires
        old(reg).room(),
    ensures
        final(reg).stream_table() == old(reg).stream_table(),
        match bound {
            Some(l) => final(reg).listener_table() == old(reg).listener_table().push(Some(l)) && r
                == encode(old(reg).listener_table().len() as int),
            None => final(reg).listener_table() == old(reg).listener_table() && r == encode(-1),
        },
{
    match bound {
        Some(l) => {
            let k = reg.listeners.len();
            reg.listeners.push(Some(l));
            proof {
                lemma_wrap(k as int);
            }
            encode_wide(k as i128)
        },
        None => from_int(-1),
    }
}

/// Records the outcome of accepting on the listener `id`: with a filled
/// listener slot and a connection in hand, the stream is appended and its
/// handle returned; otherwise -1, and nothing changes.
pub fn argon_accept<L, S>(reg: &mut Registry<L, S>, id: i64, accepted: Option<S>) -> (r: i64)
    requires
        old(reg).room(),
    ensures
        final(reg).listener_table() == old(reg).listener_table(),
        r == accept_word(old(reg).listener_table(), id as int, accepted, old(reg).stream_table().len() as int),
        final(reg).stream_table() == (match accepted {
            Some(s) => if open_slot(old(reg).listener_table(), id as int) {
                old(reg).stream_table().push(Some(s))
            } else {
                old(reg).stream_table()
            },
            None => old(reg).stream_table(),
        }),
{
    if reg.listener(id).is_none() {
        return from_int(-1);
    }
    match accepted {
        Some(s) => {
            let k = reg.streams.len();
            reg.streams.push(Some(s));
            proof {
                lemma_wrap(k as int);
            }
            encode_wide(k as i128)
        },
        None => from_int(-1),
    }
}

/// Records the outcome of reading from the stream `id`: the bytes
/// `received` become a new text (empty when the peer has closed); a handle
/// that names no open stream, or a failed read, gives the integer 0.
pub fn argon_socket_read<L, S>(heap: &mut Heap, reg: &Registry<L, S>, id: i64, received: Option<Vec<u8>>) -> (r: i64)
    requires
        old(heap).room(),
    ensures
        match received {
            Some(b) => if open_slot(reg.stream_table(), id as int) {
                final(heap)@ == old(heap)@.push(Object::Text(b@)) && r == ref_of(old(heap)@.len() as int)
            } else {
                final(heap)@ == old(heap)@ && r == encode(0)
            },
            None => final(heap)@ == old(heap)@ && r == encode(0),
        },
{
    if reg.stream(id).is_none() {
        return from_int(0);
    }
    match received {
        Some(b) => heap.allocate(Obj::Text(b)),
        None => from_int(0),
    }
}

/// Records the outcome of writing the text `str_val` to the stream `id`:
/// true when `id` names an open stream, `str_val` names a text, and all its
/// bytes were `sent`.
pub fn argon_socket_write<L, S>(heap: &Heap, reg: &Registry<L, S>, id: i64, str_val: i64, sent: bool) -> (r: i64)
    ensures
        r == truth(
            open_slot(reg.stream_table(), id as int) && text_at(heap@, str_val as int) is Some && sent,
        ),
{
    if reg.stream(id).is_some() && heap.text_of(str_val).is_some() && sent {
        from_int(1)
    } else {
        from_int(0)
    }
}

/// Empties the stream slot `id`, if there is one, dropping (and so closing)
/// its stream; always gives true.
pub fn argon_socket_close<L, S>(reg: &mut Registry<L, S>, id: i64) -> (r: i64)
    ensures
        r == encode(1),
        final(reg).listener_table() == old(reg).listener_table(),
        final(reg).stream_table() == (if 0 <= decode(id as int) < old(reg).stream_table().len() {
            old(reg).stream_table().update(decode(id as int), None)
        } else {
            old(reg).stream_table()
        }),
{
    let k = to_int(id);
    if k >= 0 && (k as u64) < (reg.streams.len() as u64) {
        reg.streams.set(k as usize, None);
    }
    from_int(1)
}

/// Once a listener is bound, accepting on any handle past its own gives -1,
/// whatever connection is in hand.
pub proof fn lemma_accept_past_end<L, S>(t: Seq<Option<L>>, l: L, k: int, accepted: Option<S>, n: int)
    requires
        1 <= k,
    ensures
        accept_word(t.push(Some(l)), encode(t.len() + k), accepted, n) == encode(-1),
{
    vstd::arithmetic::div_mod::lemma_fundamental_div_mod_converse(encode(t.len() + k), 2, t.len() + k, 1);
}

} // verus!
