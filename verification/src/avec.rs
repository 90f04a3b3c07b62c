use vstd::prelude::*;

verus! {

#[derive(Debug, Clone, Copy, PartialEq, Eq, Structural)]
pub enum AVecError {
    BufFilled,
}

/// A vector with a compile-time element capacity: pushes past the capacity
/// are refused.
#[derive(Debug)]
pub struct AVec<T, const SIZE: usize> {
    buf: Vec<T>,
}

impl<T, const SIZE: usize> AVec<T, SIZE> {
    pub closed spec fn view(&self) -> Seq<T> {
        self.buf@
    }

    #[allow(clippy::new_without_default)]
    pub fn new() -> (r: AVec<T, SIZE>)
        ensures
            r@ == Seq::<T>::empty(),
    {
        let r = AVec { buf: Vec::new() };
        proof {
            assert(r@ =~= Seq::<T>::empty());
        }
        r
    }

    /// The element at an index, when the index is within the filled part.
    pub fn take(&self, input: usize) -> (r: Option<&T>)
        ensures
            (if input < self@.len() {
                r matches Some(v) && *v == self@[input as int]
            } else {
                r is None
            }),
    {
        if input < self.buf.len() {
            Some(&self.buf[input])
        } else {
            None
        }
    }

    /// Appends an element; refused once the capacity is filled.
    pub fn push(&mut self, input: T) -> (r: Result<(), AVecError>)
        ensures
            (if old(self)@.len() < SIZE {
                r == Ok::<(), AVecError>(()) && final(self)@ == old(self)@.push(input)
            } else {
                r == Err::<(), AVecError>(AVecError::BufFilled) && final(self)@ == old(self)@
            }),
    {
        if self.buf.len() < SIZE {
            self.buf.push(input);
            Ok(())
        } else {
            Err(AVecError::BufFilled)
        }
    }

    pub fn len(&self) -> (r: usize)
        ensures
            r == self@.len(),
    {
        self.buf.len()
    }

    pub fn is_empty(&self) -> (r: bool)
        ensures
            r == (self@.len() == 0),
    {
        self.buf.len() == 0
    }

    /// The filled part as a slice.
    pub fn as_slice(&self) -> (r: &[T])
        ensures
            r@ == self@,
    {
        self.buf.as_slice()
    }

    pub fn iter<'this>(&'this self) -> (r: AVecIter<'this, T, SIZE>)
        ensures
            r.index == 0,
            r.iter == self,
    {
        AVecIter { index: 0, iter: self }
    }
}

/// A cursor over an `AVec`.
pub struct AVecIter<'this, T, const SIZE: usize> {
    pub index: usize,
    pub iter: &'this AVec<T, SIZE>,
}

impl<'this, T, const SIZE: usize> AVecIter<'this, T, SIZE> {
    /// The element under the cursor, advancing past it.
    pub fn next(&mut self) -> (r: Option<&'this T>)
        requires
            old(self).index <= old(self).iter@.len(),
        ensures
            final(self).iter == old(self).iter,
            (if old(self).index < old(self).iter@.len() {
                (r matches Some(v) && *v == old(self).iter@[old(self).index as int]) && final(self).index == old(self).index + 1
            } else {
                r is None && final(self).index == old(self).index
            }),
    {
        if self.index < self.iter.len() {
            let out = self.iter.take(self.index);
            self.index = self.index + 1;
            out
        } else {
            None
        }
    }
}

} // verus!
