//! The tagged inline/heap storage primitive shared by both front ends.
//!
//! A [`Repr`] is at any instant exactly one of two arms. The inline arm keeps
//! its elements directly in the structure's own buffer and records the length
//! in the low seven bits of a one-byte [`Discriminant`]; it can hold at most
//! [`INLINE_SIZE`] bytes worth of elements. The heap arm keeps a separately
//! allocated, growable buffer together with an explicit capacity and length
//! (both element counts). Once an operation needs more room than the inline
//! arm offers, the value is promoted to the heap arm and never reverts.
//!
//! Resource exhaustion is not a recoverable error at this layer: every
//! operation that may grow the buffer requires, via [`Repr::can_hold`], that
//! the grown buffer stays within the platform's maximum object size. Callers
//! that need to survive oversized requests must pre-check sizes themselves.

use vstd::prelude::*;
use vstd::layout::size_of;
use vstd::arithmetic::mul::lemma_mul_inequality;
use crate::INLINE_SIZE;

verus! {

/// One-byte tag of the inline storage arm: the high bit is the variant flag
/// and the low seven bits hold the current inline length.
#[derive(Clone, Copy, Debug)]
pub struct Discriminant(pub u8);

impl Discriminant {
    /// The variant flag stored in the high bit.
    pub open spec fn spec_variant(self) -> bool {
        self.0 & 0x80 == 0x80
    }

    /// The length stored in the low seven bits.
    pub open spec fn spec_len(self) -> u8 {
        self.0 & 0x7f
    }

    pub fn new(variant: bool, len: u8) -> (r: Self)
        requires
            len < 128,
        ensures
            r.spec_variant() == variant,
            r.spec_len() == len,
    {
        let r = if variant {
            Discriminant(len | 0b10000000)
        } else {
            Discriminant(len << 1 >> 1)
        };
        proof {
            assert((len | 0x80) & 0x80 == 0x80 && (len | 0x80) & 0x7f == len && (len << 1 >> 1)
                & 0x80 != 0x80 && (len << 1 >> 1) & 0x7f == len) by (bit_vector)
                requires
                    len < 128,
            ;
        }
        r
    }

    pub fn variant(&self) -> (r: bool)
        ensures
            r == self.spec_variant(),
    {
        match self.0 & 0b10000000 {
            0b10000000 => true,
            _ => false,
        }
    }

    pub fn len(&self) -> (r: usize)
        ensures
            r == self.spec_len() as usize,
            r < 128,
    {
        let b = self.0;
        proof {
            assert(b << 1 >> 1 == b & 0x7f && b & 0x7f < 128) by (bit_vector);
        }
        (b << 1 >> 1) as usize
    }

    pub fn set_len(&mut self, new_len: u8)
        requires
            new_len < 128,
        ensures
            final(self).spec_variant() == old(self).spec_variant(),
            final(self).spec_len() == new_len,
    {
        let b = self.0;
        self.0 = (b & 0b10000000) | new_len;
        proof {
            assert(((b & 0x80) | new_len) & 0x80 == 0x80 <==> b & 0x80 == 0x80) by (bit_vector)
                requires
                    new_len < 128,
            ;
            assert(((b & 0x80) | new_len) & 0x7f == new_len) by (bit_vector)
                requires
                    new_len < 128,
            ;
        }
    }
}

/// The inline storage arm: the discriminant's low bits record how many
/// elements are live in the inline buffer.
pub struct Inline<T> {
    disc: Discriminant,
    data: Vec<T>,
}

/// The heap storage arm: a separately allocated buffer of `capacity` elements
/// of which the first `len` are live.
pub struct Heap<T> {
    capacity: usize,
    len: usize,
    data: Vec<T>,
}

/// The tagged storage primitive: exactly one of the two arms at any instant.
pub enum Repr<T> {
    Inline(Inline<T>),
    Heap(Heap<T>),
}

impl<T> View for Repr<T> {
    type V = Seq<T>;

    /// The logical contents: the live elements in index order.
    closed spec fn view(&self) -> Seq<T> {
        match self {
            Repr::Inline(inl) => inl.data@,
            Repr::Heap(h) => h.data@,
        }
    }
}

impl<T> Repr<T> {
    /// True while the value is in the inline arm.
    pub closed spec fn spec_is_inline(&self) -> bool {
        self is Inline
    }

    /// The reported capacity: the full inline byte budget while inline, the
    /// allocated element count once heap-backed.
    pub closed spec fn spec_capacity(&self) -> usize {
        match self {
            Repr::Inline(_) => INLINE_SIZE,
            Repr::Heap(h) => h.capacity,
        }
    }

    /// Well-formedness: the recorded lengths agree with the live contents,
    /// the inline arm respects its byte budget and seven-bit length field,
    /// and the heap arm's capacity respects the platform object-size limit
    /// (with the unbounded sentinel for zero-sized element types).
    pub closed spec fn wf(&self) -> bool {
        match self {
            Repr::Inline(inl) => {
                &&& inl.disc.spec_variant() == true
                &&& inl.disc.spec_len() as int == inl.data@.len()
                &&& inl.data@.len() <= 127
                &&& inl.data@.len() * size_of::<T>() <= INLINE_SIZE as int
            },
            Repr::Heap(h) => {
                &&& h.len as int == h.data@.len()
                &&& h.len <= h.capacity
                &&& (size_of::<T>() == 0 ==> h.capacity == usize::MAX)
                &&& (size_of::<T>() != 0 ==> h.capacity * size_of::<T>() <= isize::MAX as int)
            },
        }
    }

    /// True when `n` elements fit in the current arm without growing: within
    /// the byte budget and seven-bit length field while inline, within the
    /// allocated capacity while heap-backed.
    pub open spec fn fits_in_place(&self, n: int) -> bool {
        if self.spec_is_inline() {
            n * size_of::<T>() <= INLINE_SIZE as int && n <= 127
        } else {
            n <= self.spec_capacity() as int
        }
    }

    /// The capacity the growth policy picks for a request of at least
    /// `min_size` elements: unbounded for zero-sized element types, the
    /// requested minimum (at least one) for a never-allocated buffer, and
    /// otherwise the larger of the minimum and double the current capacity.
    pub open spec fn grown_capacity(&self, min_size: int) -> int {
        if size_of::<T>() == 0 {
            usize::MAX as int
        } else if self.spec_capacity() == 0 {
            if min_size >= 1 {
                min_size
            } else {
                1
            }
        } else {
            if min_size >= 2 * self.spec_capacity() as int {
                min_size
            } else {
                2 * self.spec_capacity() as int
            }
        }
    }

    /// True when the container can be brought to hold `n` elements: either
    /// they already fit in place, or the grown buffer stays within the
    /// platform's maximum object size. Exceeding this limit is fatal in this
    /// layer, so operations that may grow require it of their callers.
    pub open spec fn can_hold(&self, n: int) -> bool {
        &&& n <= usize::MAX as int
        &&& {
            ||| self.fits_in_place(n)
            ||| size_of::<T>() == 0
            ||| self.grown_capacity(n) * size_of::<T>() <= isize::MAX as int
        }
    }

    /// Growth policy laws: the grown capacity covers the requested minimum,
    /// never shrinks, and doubles a nonzero capacity unless the minimum asks
    /// for more.
    pub proof fn lemma_growth_policy(&self, min_size: int)
        requires
            min_size <= usize::MAX as int,
        ensures
            self.grown_capacity(min_size) >= min_size,
            self.grown_capacity(min_size) >= self.spec_capacity() as int,
            size_of::<T>() != 0 && self.spec_capacity() > 0 && min_size <= 2 * self.spec_capacity()
                as int ==> self.grown_capacity(min_size) == 2 * self.spec_capacity() as int,
    {
    }
}

/// True exactly when `n` elements of `T` fit in the inline arm: at most
/// [`INLINE_SIZE`] bytes and within the seven-bit length field.
fn inline_fits<T>(n: usize) -> (r: bool)
    ensures
        r == (n * size_of::<T>() <= INLINE_SIZE as int && n <= 127),
{
    if n > 127 {
        false
    } else {
        let size = core::mem::size_of::<T>();
        proof {
            lemma_mul_inequality(n as int, 127, size as int);
            assert(127 * (size as int) <= 127 * (u64::MAX as int)) by (nonlinear_arith)
                requires
                    size <= u64::MAX,
            ;
        }
        let prod: u128 = (n as u128) * (size as u128);
        prod <= INLINE_SIZE as u128
    }
}

impl<T> Repr<T> {
    /// An empty inline value.
    pub(crate) fn inline_empty() -> (r: Self)
        ensures
            r@ == Seq::<T>::empty(),
            r.spec_is_inline(),
            r.spec_capacity() == INLINE_SIZE,
            r.wf(),
    {
        Repr::Inline(Inline { disc: Discriminant::new(true, 0), data: Vec::new() })
    }

    /// A zero-length heap value with nothing allocated yet; for zero-sized
    /// element types the capacity is the unbounded sentinel and no allocation
    /// ever occurs.
    pub fn new_heap() -> (r: Self)
        ensures
            r@ == Seq::<T>::empty(),
            !r.spec_is_inline(),
            r.spec_capacity() == if size_of::<T>() == 0 {
                usize::MAX as int
            } else {
                0
            },
            r.wf(),
    {
        let capacity = if core::mem::size_of::<T>() == 0 {
            usize::MAX
        } else {
            0
        };
        proof {
            assert(0 * size_of::<T>() == 0) by (nonlinear_arith);
        }
        Repr::Heap(Heap { capacity, len: 0, data: Vec::new() })
    }

    /// The number of live elements.
    pub fn len(&self) -> (r: usize)
        requires
            self.wf(),
        ensures
            r == self@.len(),
    {
        match self {
            Repr::Inline(inl) => inl.disc.len(),
            Repr::Heap(h) => h.len,
        }
    }

    /// The reported capacity: the inline byte budget while inline, the
    /// allocated element count once heap-backed.
    pub fn capacity(&self) -> (r: usize)
        ensures
            r == self.spec_capacity(),
    {
        match self {
            Repr::Inline(_) => INLINE_SIZE,
            Repr::Heap(h) => h.capacity,
        }
    }

    /// True while the value is in the inline arm.
    pub fn is_inline(&self) -> (r: bool)
        ensures
            r == self.spec_is_inline(),
    {
        match self {
            Repr::Inline(_) => true,
            Repr::Heap(_) => false,
        }
    }

    /// True when `n` elements fit without growing.
    fn fits(&self, n: usize) -> (r: bool)
        ensures
            r == self.fits_in_place(n as int),
    {
        match self {
            Repr::Inline(_) => inline_fits::<T>(n),
            Repr::Heap(h) => n <= h.capacity,
        }
    }

    /// Grow to the policy's capacity for at least `min_size` elements,
    /// promoting the inline arm to the heap arm; the logical contents are
    /// unchanged. For zero-sized element types this installs the unbounded
    /// sentinel and allocates nothing.
    fn grow(&mut self, min_size: usize)
        requires
            old(self).wf(),
            old(self).grown_capacity(min_size as int) >= old(self)@.len(),
            size_of::<T>() != 0 ==> old(self).grown_capacity(min_size as int) * size_of::<T>()
                <= isize::MAX as int,
        ensures
            final(self).wf(),
            final(self)@ == old(self)@,
            !final(self).spec_is_inline(),
            final(self).spec_capacity() as int == old(self).grown_capacity(min_size as int),
    {
        let new_cap: usize = if core::mem::size_of::<T>() == 0 {
            usize::MAX
        } else {
            let cap = self.capacity();
            proof {
                if !self.spec_is_inline() {
                    // a heap capacity within the object-size limit is itself
                    // small enough that doubling it cannot overflow
                    assert(cap as int <= cap as int * size_of::<T>()) by (nonlinear_arith)
                        requires
                            size_of::<T>() >= 1,
                            cap >= 0,
                    ;
                }
            }
            let doubled: usize = if cap == 0 {
                1
            } else {
                2 * cap
            };
            if min_size > doubled {
                min_size
            } else {
                doubled
            }
        };
        let mut tmp = Repr::Heap(Heap { capacity: new_cap, len: 0, data: Vec::new() });
        core::mem::swap(self, &mut tmp);
        match tmp {
            Repr::Inline(inl) => {
                let n = inl.data.len();
                *self = Repr::Heap(Heap { capacity: new_cap, len: n, data: inl.data });
            },
            Repr::Heap(h) => {
                *self = Repr::Heap(Heap { capacity: new_cap, len: h.len, data: h.data });
            },
        }
    }

    /// Append to the heap arm, growing first if at capacity.
    pub fn heap_push(&mut self, elem: T)
        requires
            old(self).wf(),
            !old(self).spec_is_inline(),
            old(self).can_hold(old(self)@.len() as int + 1),
        ensures
            final(self).wf(),
            final(self)@ == old(self)@.push(elem),
            !final(self).spec_is_inline(),
            final(self).spec_capacity() as int == if old(self).fits_in_place(old(self)@.len() as int + 1) {
                old(self).spec_capacity() as int
            } else {
                old(self).grown_capacity(old(self)@.len() as int + 1)
            },
    {
        let len = self.len();
        if len == self.capacity() {
            self.grow(len + 1);
        }
        if let Repr::Heap(h) = self {
            h.data.push(elem);
            h.len = len + 1;
        }
    }

    /// Append one element: in place while it fits the current arm, otherwise
    /// growing (and, from the inline arm, promoting to the heap arm) first.
    pub fn push(&mut self, elem: T)
        requires
            old(self).wf(),
            old(self).can_hold(old(self)@.len() as int + 1),
        ensures
            final(self).wf(),
            final(self)@ == old(self)@.push(elem),
            final(self).spec_is_inline() == (old(self).spec_is_inline() && old(self).fits_in_place(
                old(self)@.len() as int + 1,
            )),
            final(self).spec_capacity() as int == if old(self).fits_in_place(old(self)@.len() as int + 1) {
                old(self).spec_capacity() as int
            } else {
                old(self).grown_capacity(old(self)@.len() as int + 1)
            },
            final(self).spec_capacity() >= old(self).spec_capacity(),
    {
        proof {
            old(self).lemma_growth_policy(old(self)@.len() as int + 1);
        }
        let len = self.len();
        if self.is_inline() {
            if inline_fits::<T>(len + 1) {
                if let Repr::Inline(inl) = self {
                    inl.data.push(elem);
                    inl.disc.set_len((len + 1) as u8);
                }
            } else {
                self.grow(len + 1);
                self.heap_push(elem);
            }
        } else {
            self.heap_push(elem);
        }
    }

    /// Remove and return the last element, or nothing when empty. Only the
    /// recorded length shrinks; the arm and the capacity are unchanged.
    pub fn pop(&mut self) -> (r: Option<T>)
        requires
            old(self).wf(),
        ensures
            final(self).wf(),
            final(self).spec_is_inline() == old(self).spec_is_inline(),
            final(self).spec_capacity() == old(self).spec_capacity(),
            old(self)@.len() == 0 ==> r is None && final(self)@ == old(self)@,
            old(self)@.len() > 0 ==> r == Some(old(self)@.last()) && final(self)@ == old(
                self,
            )@.drop_last(),
    {
        let len = self.len();
        if len == 0 {
            return None;
        }
        proof {
            lemma_mul_inequality(len as int - 1, len as int, size_of::<T>() as int);
        }
        match self {
            Repr::Inline(inl) => {
                let r = inl.data.pop();
                inl.disc.set_len((len - 1) as u8);
                r
            },
            Repr::Heap(h) => {
                let r = h.data.pop();
                h.len = len - 1;
                r
            },
        }
    }

    /// Insert `element` at `idx`, shifting the trailing elements one slot to
    /// the right; `idx` equal to the current length appends. Grows (and, from
    /// the inline arm, promotes) first when the new length does not fit, with
    /// the same policy as `push`.
    pub fn insert(&mut self, idx: usize, element: T)
        requires
            old(self).wf(),
            idx <= old(self)@.len(),
            old(self).can_hold(old(self)@.len() as int + 1),
        ensures
            final(self).wf(),
            final(self)@ == old(self)@.insert(idx as int, element),
            final(self).spec_is_inline() == (old(self).spec_is_inline() && old(self).fits_in_place(
                old(self)@.len() as int + 1,
            )),
            final(self).spec_capacity() as int == if old(self).fits_in_place(
                old(self)@.len() as int + 1,
            ) {
                old(self).spec_capacity() as int
            } else {
                old(self).grown_capacity(old(self)@.len() as int + 1)
            },
            final(self).spec_capacity() >= old(self).spec_capacity(),
    {
        proof {
            old(self).lemma_growth_policy(old(self)@.len() as int + 1);
        }
        let len = self.len();
        if !self.fits(len + 1) {
            self.grow(len + 1);
        }
        match self {
            Repr::Inline(inl) => {
                inl.data.insert(idx, element);
                inl.disc.set_len((len + 1) as u8);
            },
            Repr::Heap(h) => {
                h.data.insert(idx, element);
                h.len = len + 1;
            },
        }
    }

    /// Read out the element at `idx`, shift the trailing elements one slot to
    /// the left, and return the removed value. The arm and the capacity are
    /// unchanged.
    pub fn remove(&mut self, idx: usize) -> (r: T)
        requires
            old(self).wf(),
            idx < old(self)@.len(),
        ensures
            final(self).wf(),
            r == old(self)@[idx as int],
            final(self)@ == old(self)@.remove(idx as int),
            final(self).spec_is_inline() == old(self).spec_is_inline(),
            final(self).spec_capacity() == old(self).spec_capacity(),
    {
        let len = self.len();
        proof {
            lemma_mul_inequality(len as int - 1, len as int, size_of::<T>() as int);
        }
        match self {
            Repr::Inline(inl) => {
                let r = inl.data.remove(idx);
                inl.disc.set_len((len - 1) as u8);
                r
            },
            Repr::Heap(h) => {
                let r = h.data.remove(idx);
                h.len = len - 1;
                r
            },
        }
    }

    /// Truncate the recorded length to `new_len`; the arm and the capacity
    /// are unchanged.
    pub fn set_len(&mut self, new_len: usize)
        requires
            old(self).wf(),
            new_len <= old(self)@.len(),
        ensures
            final(self).wf(),
            final(self)@ == old(self)@.subrange(0, new_len as int),
            final(self).spec_is_inline() == old(self).spec_is_inline(),
            final(self).spec_capacity() == old(self).spec_capacity(),
    {
        proof {
            lemma_mul_inequality(new_len as int, old(self)@.len() as int, size_of::<T>() as int);
        }
        match self {
            Repr::Inline(inl) => {
                inl.data.truncate(new_len);
                inl.disc.set_len(new_len as u8);
            },
            Repr::Heap(h) => {
                h.data.truncate(new_len);
                h.len = new_len;
            },
        }
    }

    /// Bounds-checked read access: absent when `idx` is out of range.
    pub fn get(&self, idx: usize) -> (r: Option<&T>)
        requires
            self.wf(),
        ensures
            idx < self@.len() ==> r is Some && *r.unwrap() == self@[idx as int],
            idx >= self@.len() ==> r is None,
    {
        if idx >= self.len() {
            None
        } else {
            match self {
                Repr::Inline(inl) => Some(&inl.data[idx]),
                Repr::Heap(h) => Some(&h.data[idx]),
            }
        }
    }

    /// The live elements of the active arm as one contiguous view.
    pub fn as_slice(&self) -> (r: &[T])
        ensures
            r@ == self@,
    {
        match self {
            Repr::Inline(inl) => inl.data.as_slice(),
            Repr::Heap(h) => h.data.as_slice(),
        }
    }

    /// Adopt an externally-owned buffer as the heap arm, without copying.
    /// The reported capacity is the buffer's live length (for zero-sized
    /// element types, the unbounded sentinel).
    pub fn from_vec(data: Vec<T>) -> (r: Self)
        requires
            data@.len() * size_of::<T>() <= isize::MAX as int,
        ensures
            r@ == data@,
            !r.spec_is_inline(),
            r.wf(),
            r.spec_capacity() as int == if size_of::<T>() == 0 {
                usize::MAX as int
            } else {
                data@.len() as int
            },
    {
        let len = data.len();
        let capacity = if core::mem::size_of::<T>() == 0 {
            usize::MAX
        } else {
            len
        };
        Repr::Heap(Heap { capacity, len, data })
    }

    /// Surrender the live elements as an owned buffer, without copying.
    pub fn into_vec(self) -> (r: Vec<T>)
        ensures
            r@ == self@,
    {
        match self {
            Repr::Inline(inl) => inl.data,
            Repr::Heap(h) => h.data,
        }
    }

    /// Take out all live elements at once, leaving the value logically empty;
    /// the arm and the capacity are unchanged.
    pub(crate) fn take_contents(&mut self) -> (r: Vec<T>)
        requires
            old(self).wf(),
        ensures
            final(self).wf(),
            r@ == old(self)@,
            final(self)@ == Seq::<T>::empty(),
            final(self).spec_is_inline() == old(self).spec_is_inline(),
            final(self).spec_capacity() == old(self).spec_capacity(),
    {
        match self {
            Repr::Inline(inl) => {
                let mut tmp: Vec<T> = Vec::new();
                core::mem::swap(&mut inl.data, &mut tmp);
                inl.disc.set_len(0);
                tmp
            },
            Repr::Heap(h) => {
                let mut tmp: Vec<T> = Vec::new();
                core::mem::swap(&mut h.data, &mut tmp);
                h.len = 0;
                tmp
            },
        }
    }

    /// Bounds-checked mutable access: absent when `idx` is out of range.
    pub fn get_mut(&mut self, idx: usize) -> (r: Option<&mut T>)
        requires
            old(self).wf(),
        ensures
            idx >= old(self)@.len() ==> r is None && *final(self) == *old(self),
            idx < old(self)@.len() ==> r is Some && *r.unwrap() == old(self)@[idx as int],
            idx < old(self)@.len() ==> final(self)@ == old(self)@.update(
                idx as int,
                *final(r.unwrap()),
            ),
            final(self).wf(),
            final(self).spec_is_inline() == old(self).spec_is_inline(),
            final(self).spec_capacity() == old(self).spec_capacity(),
    {
        if idx >= self.len() {
            None
        } else {
            match self {
                Repr::Inline(inl) => Some(&mut inl.data[idx]),
                Repr::Heap(h) => Some(&mut h.data[idx]),
            }
        }
    }

    /// The live elements of the active arm as one contiguous mutable view.
    /// Writing through the view changes elements, never the length, so a
    /// caller that keeps the view's length also keeps well-formedness.
    pub fn as_slice_mut(&mut self) -> (r: &mut [T])
        ensures
            r@ == old(self)@,
            final(self)@ == final(r)@,
            final(self).spec_is_inline() == old(self).spec_is_inline(),
            final(self).spec_capacity() == old(self).spec_capacity(),
            old(self).wf() && final(r)@.len() == old(self)@.len() ==> final(self).wf(),
    {
        match self {
            Repr::Inline(inl) => inl.data.as_mut_slice(),
            Repr::Heap(h) => h.data.as_mut_slice(),
        }
    }
}

impl<T: Copy> Repr<T> {
    /// An inline value holding a copy of `data`, which must fit the inline
    /// byte budget and the seven-bit length field.
    pub fn new_inline(data: &[T]) -> (r: Self)
        requires
            data@.len() * size_of::<T>() <= INLINE_SIZE as int,
            data@.len() <= 127,
        ensures
            r@ == data@,
            r.spec_is_inline(),
            r.spec_capacity() == INLINE_SIZE,
            r.wf(),
    {
        let n = data.len();
        let mut buf: Vec<T> = Vec::new();
        let mut i: usize = 0;
        while i < n
            invariant
                i <= n,
                n == data@.len(),
                buf@ == data@.subrange(0, i as int),
            decreases n - i,
        {
            buf.push(data[i]);
            proof {
                assert(buf@ =~= data@.subrange(0, i as int + 1));
            }
            i = i + 1;
        }
        proof {
            assert(buf@ =~= data@);
        }
        Repr::Inline(Inline { disc: Discriminant::new(true, n as u8), data: buf })
    }

    /// Append a copy of every element of `data` in order, growing at most
    /// once, first, to fit the whole batch.
    pub fn extend_from_slice(&mut self, data: &[T])
        requires
            old(self).wf(),
            old(self).can_hold(old(self)@.len() as int + data@.len() as int),
        ensures
            final(self).wf(),
            final(self)@ == old(self)@ + data@,
            final(self).spec_is_inline() == (old(self).spec_is_inline() && old(self).fits_in_place(
                old(self)@.len() as int + data@.len() as int,
            )),
            final(self).spec_capacity() as int == if old(self).fits_in_place(
                old(self)@.len() as int + data@.len() as int,
            ) {
                old(self).spec_capacity() as int
            } else {
                old(self).grown_capacity(old(self)@.len() as int + data@.len() as int)
            },
            final(self).spec_capacity() >= old(self).spec_capacity(),
    {
        proof {
            old(self).lemma_growth_policy(old(self)@.len() as int + data@.len() as int);
        }
        let n = self.len() + data.len();
        if !self.fits(n) {
            self.grow(n);
        }
        let ghost pre = self@;
        match self {
            Repr::Inline(inl) => {
                let ghost disc0 = inl.disc;
                let mut i: usize = 0;
                while i < data.len()
                    invariant
                        i <= data@.len(),
                        inl.data@ == pre + data@.subrange(0, i as int),
                        inl.disc == disc0,
                    decreases data@.len() - i,
                {
                    inl.data.push(data[i]);
                    proof {
                        assert(inl.data@ =~= pre + data@.subrange(0, i as int + 1));
                    }
                    i = i + 1;
                }
                proof {
                    assert(inl.data@ =~= pre + data@);
                }
                inl.disc.set_len(n as u8);
            },
            Repr::Heap(h) => {
                let ghost cap0 = h.capacity;
                let ghost len0 = h.len;
                let mut i: usize = 0;
                while i < data.len()
                    invariant
                        i <= data@.len(),
                        h.data@ == pre + data@.subrange(0, i as int),
                        h.capacity == cap0,
                        h.len == len0,
                    decreases data@.len() - i,
                {
                    h.data.push(data[i]);
                    proof {
                        assert(h.data@ =~= pre + data@.subrange(0, i as int + 1));
                    }
                    i = i + 1;
                }
                proof {
                    assert(h.data@ =~= pre + data@);
                }
                h.len = n;
            },
        }
    }

    /// A heap value holding a copy of `data`: a zero-length heap value
    /// followed by one bulk append sized exactly to `data`.
    pub fn from_heap(data: &[T]) -> (r: Self)
        requires
            data@.len() * size_of::<T>() <= isize::MAX as int,
        ensures
            r@ == data@,
            !r.spec_is_inline(),
            r.wf(),
            r.spec_capacity() as int == if size_of::<T>() == 0 {
                usize::MAX as int
            } else if data@.len() == 0 {
                0
            } else {
                data@.len() as int
            },
    {
        let n = data.len();
        proof {
            assert(n == data@.len());
        }
        let mut repr = Self::new_heap();
        repr.extend_from_slice(data);
        repr
    }

    /// A structurally identical copy: same arm, same capacity, same elements.
    /// Nothing is required of the source, so a well-formedness promise is
    /// only returned when the source gives one.
    pub fn duplicate(&self) -> (r: Self)
        ensures
            r@ == self@,
            r.spec_is_inline() == self.spec_is_inline(),
            r.spec_capacity() == self.spec_capacity(),
            self.wf() ==> r.wf(),
    {
        let src: &Vec<T> = match self {
            Repr::Inline(inl) => &inl.data,
            Repr::Heap(h) => &h.data,
        };
        let mut buf: Vec<T> = Vec::new();
        let mut i: usize = 0;
        while i < src.len()
            invariant
                i <= src@.len(),
                buf@ == src@.subrange(0, i as int),
            decreases src@.len() - i,
        {
            buf.push(src[i]);
            proof {
                assert(buf@ =~= src@.subrange(0, i as int + 1));
            }
            i = i + 1;
        }
        proof {
            assert(buf@ =~= src@);
        }
        match self {
            Repr::Inline(inl) => Repr::Inline(Inline { disc: inl.disc, data: buf }),
            Repr::Heap(h) => Repr::Heap(Heap { capacity: h.capacity, len: h.len, data: buf }),
        }
    }
}

impl Repr<u8> {
    /// The live bytes of a byte-typed value.
    pub fn bytes(&self) -> (r: &[u8])
        ensures
            r@ == self@,
    {
        self.as_slice()
    }

    /// The live bytes of a byte-typed value, mutably. Writing through the
    /// view changes bytes, never the length.
    pub fn bytes_mut(&mut self) -> (r: &mut [u8])
        ensures
            r@ == old(self)@,
            final(self)@ == final(r)@,
            final(self).spec_is_inline() == old(self).spec_is_inline(),
            final(self).spec_capacity() == old(self).spec_capacity(),
            old(self).wf() && final(r)@.len() == old(self)@.len() ==> final(self).wf(),
    {
        self.as_slice_mut()
    }
}

} // verus!
