//! The generic array front end: a growable, indexable sequence of an
//! arbitrary element type, built directly on [`Repr`].
//!
//! A [`Vector`] starts inline (or, via [`Vector::new_heap`], heap-backed) and
//! forwards every storage decision to the representation: it promotes to the
//! heap arm exactly when the required byte size first exceeds
//! [`INLINE_SIZE`], and its reported capacity never decreases. The logical
//! contents are specified as a `Seq` view, the reference model every
//! operation's contract is stated against.
//!
//! Teardown needs no special protocol here: each storage arm owns its
//! elements, so dropping a container, or an abandoned consuming or draining
//! traversal, drops every remaining element exactly once before the backing
//! memory is released.

use vstd::prelude::*;
use vstd::layout::size_of;
use crate::repr::Repr;
use crate::INLINE_SIZE;

verus! {

/// A growable sequence of `T` with small-buffer optimization.
pub struct Vector<T> {
    repr: Repr<T>,
}

impl<T> View for Vector<T> {
    type V = Seq<T>;

    /// The logical contents: the live elements in index order.
    closed spec fn view(&self) -> Seq<T> {
        self.repr@
    }
}

impl<T> Vector<T> {
    /// True while the elements are stored inline.
    pub closed spec fn spec_is_inline(&self) -> bool {
        self.repr.spec_is_inline()
    }

    /// The reported capacity: the inline byte budget while inline, the
    /// allocated element count once heap-backed.
    pub closed spec fn spec_capacity(&self) -> usize {
        self.repr.spec_capacity()
    }

    /// Well-formedness of the underlying representation; constructors
    /// establish it and every operation preserves it.
    pub closed spec fn wf(&self) -> bool {
        self.repr.wf()
    }

    /// True when `n` elements fit in the current storage arm without growing.
    pub open spec fn fits_in_place(&self, n: int) -> bool {
        if self.spec_is_inline() {
            n * size_of::<T>() <= INLINE_SIZE as int && n <= 127
        } else {
            n <= self.spec_capacity() as int
        }
    }

    /// The capacity the growth policy picks for a request of at least
    /// `min_size` elements.
    pub open spec fn grown_capacity(&self, min_size: int) -> int {
        if size_of::<T>() == 0 {
            usize::MAX as int
        } else if self.spec_capacity() == 0 {
            if min_size >= 1 {
                min_size
            } else {
                1
            }
        } else {
            if min_size >= 2 * self.spec_capacity() as int {
                min_size
            } else {
                2 * self.spec_capacity() as int
            }
        }
    }

    /// True when the container can be brought to hold `n` elements within the
    /// platform's maximum object size. Exceeding that limit is fatal in this
    /// layer, so operations that may grow require this of their callers.
    pub open spec fn can_hold(&self, n: int) -> bool {
        &&& n <= usize::MAX as int
        &&& {
            ||| self.fits_in_place(n)
            ||| size_of::<T>() == 0
            ||| self.grown_capacity(n) * size_of::<T>() <= isize::MAX as int
        }
    }

    /// An empty inline vector.
    pub fn new() -> (r: Self)
        ensures
            r@ == Seq::<T>::empty(),
            r.spec_is_inline(),
            r.spec_capacity() == INLINE_SIZE,
            r.wf(),
    {
        Vector { repr: Repr::<T>::inline_empty() }
    }

    /// An empty heap-backed vector with nothing allocated yet.
    pub fn new_heap() -> (r: Self)
        ensures
            r@ == Seq::<T>::empty(),
            !r.spec_is_inline(),
            r.spec_capacity() == if size_of::<T>() == 0 {
                usize::MAX as int
            } else {
                0
            },
            r.wf(),
    {
        Vector { repr: Repr::<T>::new_heap() }
    }

    /// Adopt an externally-owned buffer as heap storage, without copying.
    pub fn from_vec(data: Vec<T>) -> (r: Self)
        requires
            data@.len() * size_of::<T>() <= isize::MAX as int,
        ensures
            r@ == data@,
            !r.spec_is_inline(),
            r.wf(),
    {
        Vector { repr: Repr::<T>::from_vec(data) }
    }

    /// The reported capacity.
    pub fn capacity(&self) -> (r: usize)
        ensures
            r == self.spec_capacity(),
    {
        self.repr.capacity()
    }

    /// The number of live elements.
    pub fn len(&self) -> (r: usize)
        requires
            self.wf(),
        ensures
            r == self@.len(),
    {
        self.repr.len()
    }

    /// True while the elements are stored inline.
    pub fn is_inline(&self) -> (r: bool)
        ensures
            r == self.spec_is_inline(),
    {
        self.repr.is_inline()
    }

    /// Bounds-checked read access: absent when `idx` is out of range.
    pub fn get(&self, idx: usize) -> (r: Option<&T>)
        requires
            self.wf(),
        ensures
            idx < self@.len() ==> r is Some && *r.unwrap() == self@[idx as int],
            idx >= self@.len() ==> r is None,
    {
        self.repr.get(idx)
    }

    /// Bounds-checked mutable access: absent when `idx` is out of range.
    pub fn get_mut(&mut self, idx: usize) -> (r: Option<&mut T>)
        requires
            old(self).wf(),
        ensures
            idx >= old(self)@.len() ==> r is None && *final(self) == *old(self),
            idx < old(self)@.len() ==> r is Some && *r.unwrap() == old(self)@[idx as int],
            idx < old(self)@.len() ==> final(self)@ == old(self)@.update(
                idx as int,
                *final(r.unwrap()),
            ),
            final(self).wf(),
            final(self).spec_is_inline() == old(self).spec_is_inline(),
            final(self).spec_capacity() == old(self).spec_capacity(),
    {
        self.repr.get_mut(idx)
    }

    /// Append one element, promoting to the heap arm exactly when the new
    /// byte size first exceeds the inline budget, and growing a full heap
    /// buffer by the doubling policy.
    pub fn push(&mut self, element: T)
        requires
            old(self).wf(),
            old(self).can_hold(old(self)@.len() as int + 1),
        ensures
            final(self).wf(),
            final(self)@ == old(self)@.push(element),
            final(self).spec_is_inline() == (old(self).spec_is_inline() && old(self).fits_in_place(
                old(self)@.len() as int + 1,
            )),
            final(self).spec_capacity() as int == if old(self).fits_in_place(
                old(self)@.len() as int + 1,
            ) {
                old(self).spec_capacity() as int
            } else {
                old(self).grown_capacity(old(self)@.len() as int + 1)
            },
            final(self).spec_capacity() >= old(self).spec_capacity(),
    {
        self.repr.push(element)
    }

    /// Remove and return the last element, or nothing when empty. Only the
    /// recorded length shrinks; the arm and the capacity are unchanged.
    pub fn pop(&mut self) -> (r: Option<T>)
        requires
            old(self).wf(),
        ensures
            final(self).wf(),
            final(self).spec_is_inline() == old(self).spec_is_inline(),
            final(self).spec_capacity() == old(self).spec_capacity(),
            old(self)@.len() == 0 ==> r is None && final(self)@ == old(self)@,
            old(self)@.len() > 0 ==> r == Some(old(self)@.last()) && final(self)@ == old(
                self,
            )@.drop_last(),
    {
        self.repr.pop()
    }

    /// Insert `element` at `idx`, shifting the trailing elements one slot to
    /// the right; `idx` equal to the current length appends.
    pub fn insert(&mut self, idx: usize, element: T)
        requires
            old(self).wf(),
            idx <= old(self)@.len(),
            old(self).can_hold(old(self)@.len() as int + 1),
        ensures
            final(self).wf(),
            final(self)@ == old(self)@.insert(idx as int, element),
            final(self).spec_is_inline() == (old(self).spec_is_inline() && old(self).fits_in_place(
                old(self)@.len() as int + 1,
            )),
            final(self).spec_capacity() as int == if old(self).fits_in_place(
                old(self)@.len() as int + 1,
            ) {
                old(self).spec_capacity() as int
            } else {
                old(self).grown_capacity(old(self)@.len() as int + 1)
            },
            final(self).spec_capacity() >= old(self).spec_capacity(),
    {
        self.repr.insert(idx, element)
    }

    /// Read out the element at `idx`, shift the trailing elements one slot to
    /// the left, and return the removed value.
    pub fn remove(&mut self, idx: usize) -> (r: T)
        requires
            old(self).wf(),
            idx < old(self)@.len(),
        ensures
            final(self).wf(),
            r == old(self)@[idx as int],
            final(self)@ == old(self)@.remove(idx as int),
            final(self).spec_is_inline() == old(self).spec_is_inline(),
            final(self).spec_capacity() == old(self).spec_capacity(),
    {
        self.repr.remove(idx)
    }

    /// The live elements as one contiguous view.
    pub fn as_slice(&self) -> (r: &[T])
        ensures
            r@ == self@,
    {
        self.repr.as_slice()
    }

    /// The live elements as one contiguous mutable view. Writing through the
    /// view changes elements, never the length.
    pub fn as_slice_mut(&mut self) -> (r: &mut [T])
        ensures
            r@ == old(self)@,
            final(self)@ == final(r)@,
            final(self).spec_is_inline() == old(self).spec_is_inline(),
            final(self).spec_capacity() == old(self).spec_capacity(),
            old(self).wf() && final(r)@.len() == old(self)@.len() ==> final(self).wf(),
    {
        self.repr.as_slice_mut()
    }

    /// A restartable read-only traversal of the live elements, in index
    /// order, with support for taking elements from either end.
    pub fn iter(&self) -> (r: Iter<'_, T>)
        requires
            self.wf(),
        ensures
            r.wf(),
            r.remaining() == self@,
    {
        Iter { vec: self, lo: 0, hi: self.len() }
    }

    /// Element-wise mutable traversal, as one contiguous mutable view over
    /// the live elements.
    pub fn iter_mut(&mut self) -> (r: &mut [T])
        ensures
            r@ == old(self)@,
            final(self)@ == final(r)@,
            final(self).spec_is_inline() == old(self).spec_is_inline(),
            final(self).spec_capacity() == old(self).spec_capacity(),
            old(self).wf() && final(r)@.len() == old(self)@.len() ==> final(self).wf(),
    {
        self.repr.as_slice_mut()
    }

    /// Begin a draining traversal: the container is emptied the instant the
    /// drain is created, and the drain owns every element that was present.
    /// Elements the caller never takes are dropped with the drain, exactly
    /// once; the container keeps its arm and capacity.
    pub fn drain(&mut self) -> (d: Drain<T>)
        requires
            old(self).wf(),
        ensures
            final(self).wf(),
            d@ == old(self)@,
            final(self)@ == Seq::<T>::empty(),
            final(self).spec_is_inline() == old(self).spec_is_inline(),
            final(self).spec_capacity() == old(self).spec_capacity(),
    {
        Drain { items: self.repr.take_contents() }
    }

    /// A consuming traversal: takes ownership of the whole container and
    /// yields each element exactly once in index order (or from the tail).
    pub fn into_iter(self) -> (r: IntoIter<T>)
        ensures
            r@ == self@,
    {
        IntoIter { items: self.repr.into_vec() }
    }

    /// Surrender the live elements as an owned buffer, without copying.
    pub fn into_vec(self) -> (r: Vec<T>)
        ensures
            r@ == self@,
    {
        self.repr.into_vec()
    }
}

impl<T: Copy> Vector<T> {
    /// A heap-backed vector holding a copy of `data`.
    pub fn from_heap(data: &[T]) -> (r: Self)
        requires
            data@.len() * size_of::<T>() <= isize::MAX as int,
        ensures
            r@ == data@,
            !r.spec_is_inline(),
            r.wf(),
    {
        Vector { repr: Repr::<T>::from_heap(data) }
    }

    /// Append a copy of every element of `data` in order, growing at most
    /// once, first, to fit the whole batch.
    pub fn extend_from_slice(&mut self, data: &[T])
        requires
            old(self).wf(),
            old(self).can_hold(old(self)@.len() as int + data@.len() as int),
        ensures
            final(self).wf(),
            final(self)@ == old(self)@ + data@,
            final(self).spec_is_inline() == (old(self).spec_is_inline() && old(self).fits_in_place(
                old(self)@.len() as int + data@.len() as int,
            )),
            final(self).spec_capacity() as int == if old(self).fits_in_place(
                old(self)@.len() as int + data@.len() as int,
            ) {
                old(self).spec_capacity() as int
            } else {
                old(self).grown_capacity(old(self)@.len() as int + data@.len() as int)
            },
            final(self).spec_capacity() >= old(self).spec_capacity(),
    {
        self.repr.extend_from_slice(data)
    }
}

impl<T: Copy> Clone for Vector<T> {
    /// A deep, independent copy: same elements, same arm, same capacity.
    /// Mutating the original afterwards leaves the copy unchanged.
    fn clone(&self) -> (r: Self)
        ensures
            r@ == self@,
            r.spec_is_inline() == self.spec_is_inline(),
            r.spec_capacity() == self.spec_capacity(),
            self.wf() ==> r.wf(),
    {
        Vector { repr: self.repr.duplicate() }
    }
}

/// A read-only traversal over a borrowed [`Vector`]: the elements at
/// positions `lo..hi` are still to be yielded.
pub struct Iter<'a, T> {
    vec: &'a Vector<T>,
    lo: usize,
    hi: usize,
}

impl<'a, T> Iter<'a, T> {
    /// The positions are in range of the live elements.
    pub closed spec fn wf(&self) -> bool {
        self.vec.wf() && self.lo <= self.hi <= self.vec@.len()
    }

    /// The elements still to be yielded, in index order.
    pub closed spec fn remaining(&self) -> Seq<T> {
        self.vec@.subrange(self.lo as int, self.hi as int)
    }

    /// Yield the next element from the front, or nothing when exhausted.
    pub fn next(&mut self) -> (r: Option<&'a T>)
        requires
            old(self).wf(),
        ensures
            final(self).wf(),
            old(self).remaining().len() == 0 ==> r is None && final(self).remaining() == old(
                self,
            ).remaining(),
            old(self).remaining().len() > 0 ==> r is Some && *r.unwrap() == old(
                self,
            ).remaining()[0] && final(self).remaining() == old(self).remaining().drop_first(),
    {
        if self.lo < self.hi {
            let i = self.lo;
            self.lo = i + 1;
            let v: &'a Vector<T> = self.vec;
            let r = v.get(i);
            proof {
                assert(final(self).remaining() =~= old(self).remaining().drop_first());
            }
            r
        } else {
            None
        }
    }

    /// Yield the next element from the back, or nothing when exhausted.
    pub fn next_back(&mut self) -> (r: Option<&'a T>)
        requires
            old(self).wf(),
        ensures
            final(self).wf(),
            old(self).remaining().len() == 0 ==> r is None && final(self).remaining() == old(
                self,
            ).remaining(),
            old(self).remaining().len() > 0 ==> r is Some && *r.unwrap() == old(
                self,
            ).remaining().last() && final(self).remaining() == old(self).remaining().drop_last(),
    {
        if self.lo < self.hi {
            let i = self.hi - 1;
            self.hi = i;
            let v: &'a Vector<T> = self.vec;
            let r = v.get(i);
            proof {
                assert(final(self).remaining() =~= old(self).remaining().drop_last());
            }
            r
        } else {
            None
        }
    }

    /// How many elements are still to be yielded.
    pub fn len(&self) -> (r: usize)
        requires
            self.wf(),
        ensures
            r == self.remaining().len(),
    {
        self.hi - self.lo
    }
}

/// A consuming traversal: owns the elements still to be yielded.
pub struct IntoIter<T> {
    items: Vec<T>,
}

impl<T> View for IntoIter<T> {
    type V = Seq<T>;

    /// The elements still to be yielded, in index order.
    closed spec fn view(&self) -> Seq<T> {
        self.items@
    }
}

impl<T> IntoIter<T> {
    /// Yield the next element from the front, or nothing when exhausted.
    pub fn next(&mut self) -> (r: Option<T>)
        ensures
            old(self)@.len() == 0 ==> r is None && final(self)@ == old(self)@,
            old(self)@.len() > 0 ==> r == Some(old(self)@[0]) && final(self)@ == old(
                self,
            )@.drop_first(),
    {
        if self.items.len() == 0 {
            None
        } else {
            let r = self.items.remove(0);
            proof {
                assert(final(self)@ =~= old(self)@.drop_first());
            }
            Some(r)
        }
    }

    /// Yield the next element from the back, or nothing when exhausted.
    pub fn next_back(&mut self) -> (r: Option<T>)
        ensures
            old(self)@.len() == 0 ==> r is None && final(self)@ == old(self)@,
            old(self)@.len() > 0 ==> r == Some(old(self)@.last()) && final(self)@ == old(
                self,
            )@.drop_last(),
    {
        self.items.pop()
    }

    /// How many elements are still to be yielded.
    pub fn len(&self) -> (r: usize)
        ensures
            r == self@.len(),
    {
        self.items.len()
    }
}

/// A draining traversal: owns every element the container held when the
/// drain began. Elements the caller never takes are dropped with the drain,
/// exactly once.
pub struct Drain<T> {
    items: Vec<T>,
}

impl<T> View for Drain<T> {
    type V = Seq<T>;

    /// The elements still to be yielded, in index order.
    closed spec fn view(&self) -> Seq<T> {
        self.items@
    }
}

impl<T> Drain<T> {
    /// Yield the next element from the front, or nothing when exhausted.
    pub fn next(&mut self) -> (r: Option<T>)
        ensures
            old(self)@.len() == 0 ==> r is None && final(self)@ == old(self)@,
            old(self)@.len() > 0 ==> r == Some(old(self)@[0]) && final(self)@ == old(
                self,
            )@.drop_first(),
    {
        if self.items.len() == 0 {
            None
        } else {
            let r = self.items.remove(0);
            proof {
                assert(final(self)@ =~= old(self)@.drop_first());
            }
            Some(r)
        }
    }

    /// Yield the next element from the back, or nothing when exhausted.
    pub fn next_back(&mut self) -> (r: Option<T>)
        ensures
            old(self)@.len() == 0 ==> r is None && final(self)@ == old(self)@,
            old(self)@.len() > 0 ==> r == Some(old(self)@.last()) && final(self)@ == old(
                self,
            )@.drop_last(),
    {
        self.items.pop()
    }

    /// How many elements are still to be yielded.
    pub fn len(&self) -> (r: usize)
        ensures
            r == self@.len(),
    {
        self.items.len()
    }
}

} // verus!

