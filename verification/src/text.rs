//! The UTF-8 text front end: a character buffer built on a byte-typed
//! [`Repr`].
//!
//! A [`Str`] holds the UTF-8 bytes of its characters; its view is that byte
//! sequence. Construction and appending keep the bytes valid UTF-8.
//! [`Str::pop`] removes exactly one trailing byte and reinterprets it as a
//! character, which is only the popped character (and only keeps the bytes
//! valid) when the trailing character is a single ASCII byte; the contracts
//! state validity conditionally for this reason, and [`Str::as_str`] asks for
//! validity back.

use vstd::prelude::*;
use vstd::utf8::{
    valid_utf8, encode_utf8, encode_scalar, decode_utf8, char_is_scalar, encode_utf8_valid_utf8,
    encode_utf8_decode_utf8, decode_utf8_encode_utf8, valid_utf8_concat,
    is_char_boundary_iff_not_is_continuation_byte, valid_utf8_split,
};
use vstd::string::StringSliceAdditionalSpecFns;
use crate::repr::Repr;
use crate::INLINE_SIZE;

verus! {

broadcast use vstd::layout::layout_of_primitives;

/// A UTF-8 text buffer with small-buffer optimization; its view is its byte
/// sequence.
pub struct Str {
    repr: Repr<u8>,
}

impl View for Str {
    type V = Seq<u8>;

    /// The live bytes, in order.
    closed spec fn view(&self) -> Seq<u8> {
        self.repr@
    }
}

impl Str {
    /// True while the bytes are stored inline.
    pub closed spec fn spec_is_inline(&self) -> bool {
        self.repr.spec_is_inline()
    }

    /// The reported capacity in bytes: the inline byte budget while inline,
    /// the allocated byte count once heap-backed.
    pub closed spec fn spec_capacity(&self) -> usize {
        self.repr.spec_capacity()
    }

    /// Well-formedness of the underlying representation.
    pub closed spec fn wf(&self) -> bool {
        self.repr.wf()
    }

    /// True when `n` bytes fit in the current storage arm without growing.
    pub open spec fn fits_in_place(&self, n: int) -> bool {
        if self.spec_is_inline() {
            n <= INLINE_SIZE as int
        } else {
            n <= self.spec_capacity() as int
        }
    }

    /// The capacity the growth policy picks for a request of at least
    /// `min_size` bytes.
    pub open spec fn grown_capacity(&self, min_size: int) -> int {
        if self.spec_capacity() == 0 {
            if min_size >= 1 {
                min_size
            } else {
                1
            }
        } else {
            if min_size >= 2 * self.spec_capacity() as int {
                min_size
            } else {
                2 * self.spec_capacity() as int
            }
        }
    }

    /// True when the buffer can be brought to hold `n` bytes within the
    /// platform's maximum object size. Exceeding that limit is fatal in this
    /// layer, so operations that may grow require this of their callers.
    pub open spec fn can_hold(&self, n: int) -> bool {
        &&& n <= usize::MAX as int
        &&& (self.fits_in_place(n) || self.grown_capacity(n) <= isize::MAX as int)
    }

    /// The spec-level counterpart of the underlying representation's fit
    /// test, which also carries the seven-bit length field bound; for bytes
    /// the two tests agree.
    proof fn lemma_model_agrees(&self, n: int)
        ensures
            self.fits_in_place(n) == self.repr.fits_in_place(n),
            self.grown_capacity(n) == self.repr.grown_capacity(n),
            self.can_hold(n) == self.repr.can_hold(n),
    {
        assert(size_of::<u8>() == 1);
    }

    /// An empty inline text value.
    pub fn new() -> (r: Self)
        ensures
            r@ == Seq::<u8>::empty(),
            valid_utf8(r@),
            r.spec_is_inline(),
            r.spec_capacity() == INLINE_SIZE,
            r.wf(),
    {
        Str { repr: Repr::<u8>::inline_empty() }
    }

    /// A text value holding the bytes of `string`: inline when they fit the
    /// inline budget, heap-backed otherwise. The byte length must fit the
    /// platform's maximum object size.
    pub fn from(string: &str) -> (r: Self)
        requires
            string.spec_bytes().len() <= isize::MAX as int,
        ensures
            r@ == string.spec_bytes(),
            valid_utf8(r@),
            r.wf(),
            r.spec_is_inline() == (string.spec_bytes().len() <= INLINE_SIZE as int),
            r.spec_is_inline() ==> r.spec_capacity() == INLINE_SIZE,
            !r.spec_is_inline() ==> r.spec_capacity() == string.spec_bytes().len(),
    {
        proof {
            encode_utf8_valid_utf8(string@);
        }
        let bytes = string.as_bytes();
        if bytes.len() <= INLINE_SIZE {
            Str { repr: Repr::<u8>::new_inline(bytes) }
        } else {
            Str { repr: Repr::<u8>::from_heap(bytes) }
        }
    }

    /// Append one character: its one to four UTF-8 bytes, in order. Valid
    /// contents stay valid.
    pub fn push(&mut self, ch: char)
        requires
            old(self).wf(),
            old(self).can_hold(old(self)@.len() as int + 4),
        ensures
            final(self).wf(),
            final(self)@ == old(self)@ + encode_scalar(ch as u32),
            valid_utf8(old(self)@) ==> valid_utf8(final(self)@),
            final(self).spec_capacity() >= old(self).spec_capacity(),
            !old(self).spec_is_inline() ==> !final(self).spec_is_inline(),
            final(self).spec_is_inline() == (old(self).spec_is_inline() && old(self).fits_in_place(
                old(self)@.len() as int + encode_scalar(ch as u32).len() as int,
            )),
            final(self).spec_capacity() as int == if old(self).fits_in_place(
                old(self)@.len() as int + encode_scalar(ch as u32).len() as int,
            ) {
                old(self).spec_capacity() as int
            } else {
                old(self).grown_capacity(
                    old(self)@.len() as int + encode_scalar(ch as u32).len() as int,
                )
            },
    {
        let buf = encode_char(ch);
        let ghost n = old(self)@.len() as int + buf@.len() as int;
        proof {
            old(self).lemma_model_agrees(n);
            old(self).lemma_model_agrees(old(self)@.len() as int + 4);
            assert(old(self).can_hold(n));
        }
        self.repr.extend_from_slice(buf.as_slice());
        proof {
            if valid_utf8(old(self)@) {
                char_is_scalar(ch);
                let one = seq![ch];
                assert(one.drop_first() =~= Seq::<char>::empty());
                assert(encode_utf8(Seq::<char>::empty()) =~= Seq::<u8>::empty());
                assert(encode_scalar(ch as u32) + Seq::<u8>::empty() =~= encode_scalar(
                    ch as u32,
                ));
                assert(encode_scalar(ch as u32) == encode_utf8(one));
                encode_utf8_valid_utf8(one);
                valid_utf8_concat(old(self)@, encode_scalar(ch as u32));
            }
        }
    }

    /// Append the validated bytes of `string`, in order. Valid contents stay
    /// valid.
    pub fn push_str(&mut self, string: &str)
        requires
            old(self).wf(),
            old(self).can_hold(old(self)@.len() as int + string.spec_bytes().len() as int),
        ensures
            final(self).wf(),
            final(self)@ == old(self)@ + string.spec_bytes(),
            valid_utf8(old(self)@) ==> valid_utf8(final(self)@),
            final(self).spec_capacity() >= old(self).spec_capacity(),
            !old(self).spec_is_inline() ==> !final(self).spec_is_inline(),
            final(self).spec_is_inline() == (old(self).spec_is_inline() && old(self).fits_in_place(
                old(self)@.len() as int + string.spec_bytes().len() as int,
            )),
            final(self).spec_capacity() as int == if old(self).fits_in_place(
                old(self)@.len() as int + string.spec_bytes().len() as int,
            ) {
                old(self).spec_capacity() as int
            } else {
                old(self).grown_capacity(
                    old(self)@.len() as int + string.spec_bytes().len() as int,
                )
            },
    {
        let ghost n = old(self)@.len() as int + string.spec_bytes().len() as int;
        proof {
            old(self).lemma_model_agrees(n);
        }
        let bytes = string.as_bytes();
        self.repr.extend_from_slice(bytes);
        proof {
            if valid_utf8(old(self)@) {
                encode_utf8_valid_utf8(string@);
                valid_utf8_concat(old(self)@, string.spec_bytes());
            }
        }
    }

    /// Remove exactly one trailing byte and reinterpret it as a character, or
    /// nothing when empty. This is the popped character only when the
    /// trailing character is a single ASCII byte, and only then do valid
    /// contents stay valid; either way exactly one byte is removed. The arm
    /// and the capacity are unchanged.
    pub fn pop(&mut self) -> (r: Option<char>)
        requires
            old(self).wf(),
        ensures
            final(self).wf(),
            final(self).spec_is_inline() == old(self).spec_is_inline(),
            final(self).spec_capacity() == old(self).spec_capacity(),
            old(self)@.len() == 0 ==> r is None && final(self)@ == old(self)@,
            old(self)@.len() > 0 ==> r == Some(old(self)@.last() as char) && final(self)@ == old(
                self,
            )@.drop_last(),
            valid_utf8(old(self)@) && old(self)@.len() > 0 && old(self)@.last() < 0x80
                ==> valid_utf8(final(self)@),
    {
        let r = match self.repr.pop() {
            Some(byte) => Some(byte as char),
            None => None,
        };
        proof {
            let pre = old(self)@;
            if valid_utf8(pre) && pre.len() > 0 && pre.last() < 0x80 {
                is_char_boundary_iff_not_is_continuation_byte(pre, pre.len() - 1);
                valid_utf8_split(pre, pre.len() - 1);
                assert(pre.subrange(0, pre.len() - 1) =~= pre.drop_last());
            }
        }
        r
    }

    /// Reset the length to zero; the arm and the capacity are retained.
    pub fn clear(&mut self)
        requires
            old(self).wf(),
        ensures
            final(self).wf(),
            final(self)@ == Seq::<u8>::empty(),
            valid_utf8(final(self)@),
            final(self).spec_is_inline() == old(self).spec_is_inline(),
            final(self).spec_capacity() == old(self).spec_capacity(),
    {
        self.repr.set_len(0);
        proof {
            assert(final(self)@ =~= Seq::<u8>::empty());
        }
    }

    /// The live bytes.
    pub fn as_bytes(&self) -> (r: &[u8])
        ensures
            r@ == self@,
    {
        self.repr.bytes()
    }

    /// The live bytes, mutably: the escape hatch for advanced callers.
    /// Writing through the view changes bytes, never the length; restoring
    /// UTF-8 validity before further text-level use is the caller's
    /// responsibility.
    pub fn as_bytes_mut(&mut self) -> (r: &mut [u8])
        ensures
            r@ == old(self)@,
            final(self)@ == final(r)@,
            final(self).spec_is_inline() == old(self).spec_is_inline(),
            final(self).spec_capacity() == old(self).spec_capacity(),
            old(self).wf() && final(r)@.len() == old(self)@.len() ==> final(self).wf(),
    {
        self.repr.bytes_mut()
    }

    /// The reported capacity in bytes.
    pub fn capacity(&self) -> (r: usize)
        ensures
            r == self.spec_capacity(),
    {
        self.repr.capacity()
    }

    /// The number of live bytes.
    pub fn len(&self) -> (r: usize)
        requires
            self.wf(),
        ensures
            r == self@.len(),
    {
        self.repr.len()
    }

    /// The contents as a string slice; the bytes must be valid UTF-8.
    pub fn as_str(&self) -> (r: &str)
        requires
            valid_utf8(self@),
        ensures
            r.spec_bytes() == self@,
            r@ == decode_utf8(self@),
    {
        let r = bytes_as_str(self.repr.bytes());
        proof {
            encode_utf8_decode_utf8(r@);
        }
        r
    }

    /// True while the bytes are stored inline.
    pub fn is_inline(&self) -> (r: bool)
        ensures
            r == self.spec_is_inline(),
    {
        self.repr.is_inline()
    }
}

impl Clone for Str {
    /// A deep, independent copy: same bytes, same arm, same capacity.
    fn clone(&self) -> (r: Self)
        ensures
            r@ == self@,
            r.spec_is_inline() == self.spec_is_inline(),
            r.spec_capacity() == self.spec_capacity(),
            self.wf() ==> r.wf(),
    {
        Str { repr: self.repr.duplicate() }
    }
}

/// Encode a character as its one to four UTF-8 bytes.
fn encode_char(ch: char) -> (r: Vec<u8>)
    ensures
        r@ == encode_scalar(ch as u32),
        1 <= r@.len() <= 4,
{
    proof {
        char_is_scalar(ch);
    }
    let u = ch as u32;
    let mut v: Vec<u8> = Vec::new();
    if u <= 0x7F {
        v.push((u & 0x7F) as u8);
    } else if u <= 0x7FF {
        v.push(0xC0 | ((u >> 6) & 0x1F) as u8);
        v.push(0x80 | (u & 0x3F) as u8);
    } else if u <= 0xFFFF {
        v.push(0xE0 | ((u >> 12) & 0x0F) as u8);
        v.push(0x80 | ((u >> 6) & 0x3F) as u8);
        v.push(0x80 | (u & 0x3F) as u8);
    } else {
        v.push(0xF0 | ((u >> 18) & 0x7) as u8);
        v.push(0x80 | ((u >> 12) & 0x3F) as u8);
        v.push(0x80 | ((u >> 6) & 0x3F) as u8);
        v.push(0x80 | (u & 0x3F) as u8);
    }
    proof {
        assert(v@ =~= encode_scalar(ch as u32));
    }
    v
}

/// Relies on core::str::from_utf8: on valid UTF-8 input it returns the
/// string slice whose bytes are exactly the input.
#[verifier::external_body]
fn bytes_as_str(v: &[u8]) -> (r: &str)
    requires
        valid_utf8(v@),
    ensures
        r.spec_bytes() == v@,
{
    core::str::from_utf8(v).unwrap()
}

/// Round trip: a text value holds exactly its source's bytes ([`Str::from`]
/// and [`Str::as_bytes`]), so building a text value from any valid UTF-8
/// byte sequence, through the string slice that decodes it, and reading the
/// bytes back yields the identical sequence: re-encoding the decoded
/// characters is the identity.
pub proof fn lemma_round_trip(bytes: Seq<u8>)
    requires
        valid_utf8(bytes),
    ensures
        encode_utf8(decode_utf8(bytes)) == bytes,
{
    decode_utf8_encode_utf8(bytes);
}

} // verus!
