//! The object heap: text and list objects, addressed by reference words.
//! Objects are appended and never removed, so a reference stays valid for
//! the life of the heap.
use vstd::prelude::*;
use crate::value::tagged_ref;

verus! {

/// The most objects one heap holds, so that every reference fits a word.
pub const MAX_OBJECTS: u64 = 0x2000_0000_0000_0000;

/// A heap object as the operations see it.
pub enum Object {
    Text(Seq<u8>),
    List(Seq<i64>),
}

/// A heap object.
pub enum Obj {
    /// Bytes, read as UTF-8 where possible; offsets count bytes.
    Text(Vec<u8>),
    /// An ordered, growable sequence of values.
    List(Vec<i64>),
}

impl View for Obj {
    type V = Object;

    open spec fn view(&self) -> Object {
        match self {
            Obj::Text(b) => Object::Text(b@),
            Obj::List(v) => Object::List(v@),
        }
    }
}

/// The reference word of the object in slot `k`.
pub open spec fn ref_of(k: int) -> int {
    2 * (k + 1)
}

/// The slot that the reference word `v` names.
pub open spec fn slot_of(v: int) -> int {
    v / 2 - 1
}

/// Whether `v` names an object of `h`.
pub open spec fn names_object(h: Seq<Object>, v: int) -> bool {
    tagged_ref(v) && 0 <= slot_of(v) < h.len()
}

/// The bytes of the text object that `v` names, if it names one.
pub open spec fn text_at(h: Seq<Object>, v: int) -> Option<Seq<u8>> {
    if names_object(h, v) {
        match h[slot_of(v)] {
            Object::Text(t) => Some(t),
            Object::List(_) => None,
        }
    } else {
        None
    }
}

/// The elements of the list object that `v` names, if it names one.
pub open spec fn list_at(h: Seq<Object>, v: int) -> Option<Seq<i64>> {
    if names_object(h, v) {
        match h[slot_of(v)] {
            Object::List(l) => Some(l),
            Object::Text(_) => None,
        }
    } else {
        None
    }
}

/// The heap of one running program.
pub struct Heap {
    objects: Vec<Obj>,
}

impl View for Heap {
    type V = Seq<Object>;

    closed spec fn view(&self) -> Seq<Object> {
        self.objects@.map_values(|o: Obj| o@)
    }
}

impl Heap {
    /// Whether one more object fits.
    pub open spec fn room(&self) -> bool {
        self@.len() < MAX_OBJECTS
    }

    /// Whether `n` more objects fit.
    pub open spec fn room_for(&self, n: int) -> bool {
        self@.len() + n <= MAX_OBJECTS
    }

    /// An empty heap.
    pub fn new() -> (h: Heap)
        ensures
            h@ == Seq::<Object>::empty(),
    {
        let h = Heap { objects: Vec::new() };
        assert(h@ =~= Seq::<Object>::empty());
        h
    }

    /// The number of objects.
    pub fn count(&self) -> (r: usize)
        ensures
            r == self@.len(),
    {
        self.objects.len()
    }

    /// Whether `n` more objects fit.
    pub fn has_room_for(&self, n: usize) -> (r: bool)
        ensures
            r == self.room_for(n as int),
    {
        (self.objects.len() as u64) <= MAX_OBJECTS && (n as u64) <= MAX_OBJECTS - (self.objects.len() as u64)
    }

    /// The slot that `v` names, if it names an object.
    pub fn slot(&self, v: i64) -> (r: Option<usize>)
        ensures
            r matches Some(k) ==> names_object(self@, v as int) && k == slot_of(v as int),
            r is None ==> !names_object(self@, v as int),
    {
        if crate::value::is_ptr(v) && v > 0 {
            let k = v / 2 - 1;
            if (k as u64) < (self.objects.len() as u64) {
                return Some(k as usize);
            }
        }
        None
    }

    /// The bytes of the text object that `v` names, if it names one.
    pub fn text_of(&self, v: i64) -> (r: Option<&Vec<u8>>)
        ensures
            r matches Some(b) ==> text_at(self@, v as int) == Some(b@),
            r is None ==> text_at(self@, v as int) is None,
    {
        match self.slot(v) {
            Some(k) => match self.get(k) {
                Obj::Text(b) => Some(b),
                Obj::List(_) => None,
            },
            None => None,
        }
    }

    /// The elements of the list object that `v` names, if it names one.
    pub fn list_of(&self, v: i64) -> (r: Option<&Vec<i64>>)
        ensures
            r matches Some(l) ==> list_at(self@, v as int) == Some(l@),
            r is None ==> list_at(self@, v as int) is None,
    {
        match self.slot(v) {
            Some(k) => match self.get(k) {
                Obj::List(l) => Some(l),
                Obj::Text(_) => None,
            },
            None => None,
        }
    }

    /// The object in slot `k`.
    pub fn get(&self, k: usize) -> (r: &Obj)
        requires
            k < self@.len(),
        ensures
            r@ == self@[k as int],
    {
        &self.objects[k]
    }

    /// Appends `o` and returns its reference word.
    pub fn allocate(&mut self, o: Obj) -> (r: i64)
        requires
            old(self).room(),
        ensures
            final(self)@ == old(self)@.push(o@),
            r == ref_of(old(self)@.len() as int),
            tagged_ref(r as int),
    {
        let k = self.objects.len();
        self.objects.push(o);
        proof {
            assert(self@ =~= old(self)@.push(o@));
        }
        2 * (k as i64) + 2
    }

    /// Appends `v` to the list in slot `k`.
    pub fn push_at(&mut self, k: usize, v: i64)
        requires
            k < old(self)@.len(),
            old(self)@[k as int] is List,
        ensures
            final(self)@ == old(self)@.update(k as int, Object::List(old(self)@[k as int]->List_0.push(v))),
    {
        let mut o = Obj::Text(Vec::new());
        std::mem::swap(&mut o, &mut self.objects[k]);
        if let Obj::List(mut items) = o {
            items.push(v);
            self.objects.set(k, Obj::List(items));
        }
        proof {
            assert(self@ =~= old(self)@.update(k as int, Object::List(old(self)@[k as int]->List_0.push(v))));
        }
    }

    /// Writes `v` at position `i` of the list in slot `k`.
    pub fn set_at(&mut self, k: usize, i: usize, v: i64)
        requires
            k < old(self)@.len(),
            old(self)@[k as int] is List,
            i < old(self)@[k as int]->List_0.len(),
        ensures
            final(self)@ == old(self)@.update(k as int, Object::List(old(self)@[k as int]->List_0.update(i as int, v))),
    {
        let mut o = Obj::Text(Vec::new());
        std::mem::swap(&mut o, &mut self.objects[k]);
        if let Obj::List(mut items) = o {
            items.set(i, v);
            self.objects.set(k, Obj::List(items));
        }
        proof {
            assert(self@ =~= old(self)@.update(k as int, Object::List(old(self)@[k as int]->List_0.update(i as int, v))));
        }
    }
}

} // verus!
