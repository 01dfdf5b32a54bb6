use vstd::prelude::*;

verus! {

/// A list of at most `N` items kept in a fixed array, without a heap.
pub struct FixedVec<T: Copy, const N: usize> {
    items: [T; N],
    len: usize,
}

impl<T: Copy, const N: usize> View for FixedVec<T, N> {
    type V = Seq<T>;

    /// The items, oldest first.
    closed spec fn view(&self) -> Seq<T> {
        self.items@.take(self.len as int)
    }
}

impl<T: Copy, const N: usize> FixedVec<T, N> {
    #[verifier::type_invariant]
    spec fn len_in_range(self) -> bool {
        self.len <= N
    }

    /// An empty list; `filler` stands in the unused slots.
    pub fn new(filler: T) -> (v: Self)
        ensures
            v@ == Seq::<T>::empty(),
    {
        let v = Self { items: [filler; N], len: 0 };
        assert(v.items@.take(0) =~= Seq::<T>::empty());
        v
    }

    /// The number of items.
    pub fn len(&self) -> (n: usize)
        ensures
            n == self@.len(),
            n <= N,
    {
        proof {
            use_type_invariant(self);
        }
        self.len
    }

    /// Appends `item`.
    pub fn push(&mut self, item: T)
        requires
            old(self)@.len() < N,
        ensures
            final(self)@ == old(self)@.push(item),
    {
        proof {
            use_type_invariant(&*self);
        }
        let ghost before = self@;
        let mut items = self.items;
        items[self.len] = item;
        let len = self.len + 1;
        assert(items@.take(len as int) =~= before.push(item));
        *self = Self { items, len };
    }

    /// The item at `i`.
    pub fn get(&self, i: usize) -> (item: T)
        requires
            i < self@.len(),
        ensures
            item == self@[i as int],
    {
        proof {
            use_type_invariant(self);
        }
        self.items[i]
    }

    /// The items as a slice.
    pub fn as_slice(&self) -> (s: &[T])
        ensures
            s@ == self@,
    {
        proof {
            use_type_invariant(self);
        }
        let (head, _) = self.items.as_slice().split_at(self.len);
        head
    }
}

} // verus!
