//! A growable run of bits, kept in a `bitvec::vec::BitVec`, and what each of
//! its operations does to the bits it holds.

use bitvec::order::Lsb0;
use bitvec::vec::BitVec;
use vstd::prelude::*;

verus! {

/// A bit vector of the `bitvec` crate, bytes with the least significant bit
/// first. Nothing is seen of a value but through `bits_of`.
#[verifier::external_body]
#[derive(Debug, PartialEq, Eq)]
pub struct Bits {
    inner: BitVec<u8, Lsb0>,
}

/// The bits that a bit vector holds, first to last.
pub uninterp spec fn bits_of(v: Bits) -> Seq<bool>;

/// The most bits that a bit vector can hold: an eighth of the range of
/// `usize`, rounded down.
pub open spec fn max_bits() -> int {
    usize::MAX as int / 8
}

/// The most bits that a bit vector can hold.
pub fn bit_limit() -> (limit: usize)
    ensures
        limit == max_bits(),
{
    usize::MAX / 8
}

impl Bits {
    /// `BitVec::new`: a bit vector that holds nothing.
    #[verifier::external_body]
    pub(crate) fn new() -> (v: Bits)
        ensures
            bits_of(v) == Seq::<bool>::empty(),
    {
        Bits { inner: BitVec::new() }
    }

    /// `BitVec::len`: how many bits the vector holds, which is never more
    /// than the most it can hold.
    #[verifier::external_body]
    pub(crate) fn len(&self) -> (n: usize)
        ensures
            n == bits_of(*self).len(),
            n <= max_bits(),
    {
        self.inner.len()
    }

    /// `BitVec::push`: adds one bit at the end. It panics where the vector is
    /// full, which `requires` leaves out.
    #[verifier::external_body]
    pub(crate) fn push(&mut self, bit: bool)
        requires
            bits_of(*old(self)).len() < max_bits(),
        ensures
            bits_of(*final(self)) == bits_of(*old(self)).push(bit),
    {
        self.inner.push(bit)
    }

    /// `BitVec::with_capacity`: a bit vector that holds nothing and has room
    /// for `capacity` bits. It panics on a capacity beyond the most that a
    /// vector can hold, which `requires` leaves out.
    #[verifier::external_body]
    pub(crate) fn with_capacity(capacity: usize) -> (v: Bits)
        requires
            capacity <= max_bits(),
        ensures
            bits_of(v) == Seq::<bool>::empty(),
    {
        Bits { inner: BitVec::with_capacity(capacity) }
    }

    /// `BitVec::resize`: makes the vector `new_len` bits long, by adding
    /// copies of `value` at the end or by dropping bits from the end. It
    /// panics on a length beyond the most that a vector can hold, which
    /// `requires` leaves out.
    #[verifier::external_body]
    pub(crate) fn resize(&mut self, new_len: usize, value: bool)
        requires
            new_len <= max_bits(),
        ensures
            bits_of(*final(self)) == if new_len >= bits_of(*old(self)).len() {
                bits_of(*old(self)) + Seq::new(
                    (new_len - bits_of(*old(self)).len()) as nat,
                    |i: int| value,
                )
            } else {
                bits_of(*old(self)).take(new_len as int)
            },
    {
        self.inner.resize(new_len, value)
    }

    /// `BitVec::extend_from_bitslice`: adds the bits of `other` at the end.
    /// It panics where both together are more than a vector can hold, which
    /// `requires` leaves out.
    #[verifier::external_body]
    pub(crate) fn extend_from_bitslice(&mut self, other: &Bits)
        requires
            bits_of(*old(self)).len() + bits_of(*other).len() <= max_bits(),
        ensures
            bits_of(*final(self)) == bits_of(*old(self)) + bits_of(*other),
    {
        self.inner.extend_from_bitslice(other.inner.as_bitslice())
    }

    /// `BitSlice::to_bitvec` on the bits from `from` on: a bit vector of its
    /// own that holds them. The slicing panics where `from` lies beyond the
    /// end, which `requires` leaves out.
    #[verifier::external_body]
    pub(crate) fn tail(&self, from: usize) -> (v: Bits)
        requires
            from <= bits_of(*self).len(),
        ensures
            bits_of(v) == bits_of(*self).skip(from as int),
    {
        Bits { inner: self.inner[from..].to_bitvec() }
    }

    /// `BitSlice::to_bitvec` on the bits before `to`: a bit vector of its
    /// own that holds them. The slicing panics where `to` lies beyond the
    /// end, which `requires` leaves out.
    #[verifier::external_body]
    pub(crate) fn head(&self, to: usize) -> (v: Bits)
        requires
            to <= bits_of(*self).len(),
        ensures
            bits_of(v) == bits_of(*self).take(to as int),
    {
        Bits { inner: self.inner[..to].to_bitvec() }
    }

    /// `BitVec::clone`: a bit vector of its own that holds the same bits.
    #[verifier::external_body]
    pub(crate) fn copy(&self) -> (v: Bits)
        ensures
            bits_of(v) == bits_of(*self),
    {
        Bits { inner: self.inner.clone() }
    }

    /// Indexing of a `BitSlice`: the bit at `at`. It panics where `at` is
    /// no position of the vector, which `requires` leaves out.
    #[verifier::external_body]
    pub(crate) fn get(&self, at: usize) -> (bit: bool)
        requires
            at < bits_of(*self).len(),
        ensures
            bit == bits_of(*self)[at as int],
    {
        self.inner[at]
    }
}

} // verus!
