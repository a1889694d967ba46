//! An arena of textures addressed by stable handles: scripts hold handles,
//! the arena owns the data for the whole render and is dropped as a whole.
use vstd::prelude::*;

verus! {

/// A stable index into an `Arena`.
#[derive(Clone, Copy, Debug, PartialEq, Eq, Structural)]
pub struct Handle {
    pub index: usize,
}

pub struct Arena<T> {
    items: Vec<T>,
}

impl<T> View for Arena<T> {
    type V = Seq<T>;

    closed spec fn view(&self) -> Seq<T> {
        self.items@
    }
}

impl<T> Arena<T> {
    pub fn new() -> (r: Arena<T>)
        ensures
            r@ == Seq::<T>::empty(),
    {
        Arena { items: Vec::new() }
    }

    /// Stores `item`; its handle stays valid for the arena's lifetime.
    pub fn insert(&mut self, item: T) -> (h: Handle)
        ensures
            final(self)@ == old(self)@.push(item),
            h.index == old(self)@.len(),
    {
        let index = self.items.len();
        self.items.push(item);
        Handle { index }
    }

    /// The item stored under `h`, if `h` came from this arena.
    pub fn get(&self, h: Handle) -> (r: Option<&T>)
        ensures
            h.index < self@.len() ==> r == Some(&self@[h.index as int]),
            h.index >= self@.len() ==> r is None,
    {
        if h.index < self.items.len() {
            Some(&self.items[h.index])
        } else {
            None
        }
    }

    pub fn len(&self) -> (r: usize)
        ensures
            r == self@.len(),
    {
        self.items.len()
    }
}

} // verus!
