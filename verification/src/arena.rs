use vstd::prelude::*;

verus! {

/// Capacity requested for an arena.
#[derive(Debug, Clone, Copy)]
pub enum Size {
    Kibs(usize),
    Megs(usize),
    Gigs(usize),
}

/// The byte count a size stands for.
pub open spec fn s_size_bytes(s: Size) -> int {
    match s {
        Size::Kibs(v) => 1024 * v,
        Size::Megs(v) => 1024 * 1024 * v,
        Size::Gigs(v) => 1024 * 1024 * 1024 * v,
    }
}

impl Size {
    pub fn as_bytes(&self) -> (r: usize)
        requires
            s_size_bytes(*self) <= usize::MAX,
        ensures
            r == s_size_bytes(*self),
    {
        match self {
            Size::Kibs(v) => 1024 * *v,
            Size::Megs(v) => 1024 * 1024 * *v,
            Size::Gigs(v) => 1024 * 1024 * 1024 * *v,
        }
    }
}

/// A typed handle an arena hands out: the slot index of the allocated value,
/// tagged with the value's type.
#[derive(Debug)]
pub struct ASpan<T> {
    pub _marker: core::marker::PhantomData<T>,
    pub val: usize,
}

impl<T> Clone for ASpan<T> {
    fn clone(&self) -> (r: Self)
        ensures
            r == *self,
    {
        ASpan { val: self.val, _marker: core::marker::PhantomData }
    }
}

impl<T> Copy for ASpan<T> {

}

impl<T> ASpan<T> {
    pub fn new(input: usize) -> (r: ASpan<T>)
        ensures
            r.val == input,
    {
        ASpan { val: input, _marker: core::marker::PhantomData }
    }
}

#[derive(Debug, Clone, Copy, PartialEq, Eq, Structural)]
pub enum ArenaError {
    /// The arena's configured capacity is exhausted; fatal for a compilation.
    OutOfMemory,
}

/// An arena allocator: values are placed at ever-growing slot indices and
/// never move or disappear until the whole arena is dropped. Each slot holds
/// one value of the element type, so every slot is aligned and the padding
/// between allocations is always zero.
#[derive(Debug)]
pub struct Arena<T> {
    data: Vec<T>,
    capacity: usize,
}

impl<T> Arena<T> {
    pub closed spec fn view(&self) -> Seq<T> {
        self.data@
    }

    pub closed spec fn spec_capacity(&self) -> usize {
        self.capacity
    }

    pub fn new(capacity: Size) -> (r: Arena<T>)
        requires
            s_size_bytes(capacity) <= usize::MAX,
        ensures
            r@ == Seq::<T>::empty(),
            r.spec_capacity() == s_size_bytes(capacity),
    {
        let r = Arena { data: Vec::new(), capacity: capacity.as_bytes() };
        proof {
            assert(r@ =~= Seq::<T>::empty());
        }
        r
    }

    /// Alignment padding the next allocation needs: slots are always aligned,
    /// so none.
    #[inline]
    pub fn padding(&self) -> (r: usize)
        ensures
            r == 0,
    {
        0
    }

    pub fn capacity(&self) -> (r: usize)
        ensures
            r == self.spec_capacity(),
    {
        self.capacity
    }

    /// How many slots the arena has handed out.
    pub fn used(&self) -> (r: usize)
        ensures
            r == self@.len(),
    {
        self.data.len()
    }

    /// Places a value in the arena and hands back its handle; fails once the
    /// configured capacity is exhausted.
    #[inline]
    pub fn allocate(&mut self, input: T) -> (r: Result<ASpan<T>, ArenaError>)
        ensures
            (if old(self)@.len() < old(self).spec_capacity() {
                r matches Ok(h) && h.val == old(self)@.len() && final(self)@ == old(self)@.push(
                    input,
                ) && final(self).spec_capacity() == old(self).spec_capacity()
            } else {
                r == Err::<ASpan<T>, ArenaError>(ArenaError::OutOfMemory) && final(self)@ == old(
                    self,
                )@ && final(self).spec_capacity() == old(self).spec_capacity()
            }),
    {
        if self.data.len() < self.capacity {
            let h = ASpan::new(self.data.len());
            self.data.push(input);
            Ok(h)
        } else {
            Err(ArenaError::OutOfMemory)
        }
    }

    /// Dereferences a handle; handles stay valid for the arena's lifetime.
    pub fn take<'b>(&'b self, input: ASpan<T>) -> (r: &'b T)
        requires
            input.val < self@.len(),
        ensures
            *r == self@[input.val as int],
    {
        &self.data[input.val]
    }

    /// Overwrites the value a handle points at.
    pub fn set(&mut self, input: ASpan<T>, value: T)
        requires
            input.val < old(self)@.len(),
        ensures
            final(self)@ == old(self)@.update(input.val as int, value),
            final(self).spec_capacity() == old(self).spec_capacity(),
    {
        self.data.set(input.val, value);
    }
}

impl Arena<u8> {
    /// Copies a byte string into the arena and hands back its span; fails
    /// once the configured capacity is exhausted.
    pub fn alloc_str(&mut self, input: &Vec<u8>) -> (r: Result<crate::span::Span, ArenaError>)
        ensures
            (if old(self)@.len() + input@.len() <= old(self).spec_capacity() {
                r matches Ok(sp) && sp.begin == old(self)@.len() && sp.end == old(self)@.len()
                    + input@.len() && final(self)@ == old(self)@ + input@ && final(self).spec_capacity() == old(self).spec_capacity()
            } else {
                r == Err::<crate::span::Span, ArenaError>(ArenaError::OutOfMemory) && final(self)@
                    == old(self)@ && final(self).spec_capacity() == old(self).spec_capacity()
            }),
    {
        if input.len() <= self.capacity && self.data.len() <= self.capacity - input.len() {
            let begin = self.data.len();
            let mut i: usize = 0;
            while i < input.len()
                invariant
                    0 <= i <= input@.len(),
                    self.data@ == old(self)@ + input@.subrange(0, i as int),
                    self.capacity == old(self).spec_capacity(),
                decreases input@.len() - i,
            {
                self.data.push(input[i]);
                proof {
                    assert(self.data@ =~= old(self)@ + input@.subrange(0, i + 1 as int));
                }
                i = i + 1;
            }
            proof {
                assert(input@.subrange(0, input@.len() as int) =~= input@);
            }
            Ok(crate::span::Span { begin, end: self.data.len() })
        } else {
            Err(ArenaError::OutOfMemory)
        }
    }
}

} // verus!
