use vstd::prelude::*;

verus! {

/// A last-in, first-out stack. Its methods take `&mut self`, so every change
/// is exclusive to its caller.
pub struct AtomicStack<T> {
    vec: Vec<T>,
}

impl<T> View for AtomicStack<T> {
    type V = Seq<T>;

    /// The items, bottom first.
    closed spec fn view(&self) -> Seq<T> {
        self.vec@
    }
}

impl<T: Clone> AtomicStack<T> {
    pub fn new() -> (r: Self)
        ensures
            r@ == Seq::<T>::empty(),
    {
        AtomicStack { vec: Vec::new() }
    }

    /// An empty stack with room for `cap` items.
    pub fn with_capacity(cap: usize) -> (r: Self)
        ensures
            r@ == Seq::<T>::empty(),
    {
        AtomicStack { vec: Vec::with_capacity(cap) }
    }

    /// Pushes an item on top; reports whether it was stored, which it
    /// always is.
    pub fn push(&mut self, item: T) -> (r: bool)
        ensures
            r,
            final(self)@ == old(self)@.push(item),
    {
        self.vec.push(item);
        true
    }

    /// Takes the top item, if any.
    pub fn pop(&mut self) -> (r: Option<T>)
        ensures
            old(self)@.len() == 0 ==> r is None && final(self)@ == old(self)@,
            old(self)@.len() > 0 ==> {
                &&& r == Some(old(self)@.last())
                &&& final(self)@ == old(self)@.drop_last()
            },
    {
        let r = self.vec.pop();
        proof {
            if old(self)@.len() > 0 {
                assert(self.vec@ =~= old(self)@.drop_last());
            }
        }
        r
    }

    /// A copy of the items, bottom first.
    pub fn to_vec(&self) -> (r: Option<Vec<T>>)
        ensures
            r matches Some(v) && v@.len() == self@.len() && forall|i: int|
                0 <= i < v@.len() ==> cloned::<T>(self@[i], #[trigger] v@[i]),
    {
        Some(self.vec.clone())
    }
}

} // verus!
