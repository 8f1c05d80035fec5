//! Bit masks over vCPU ids.
use vstd::prelude::*;

verus! {

/// A fixed-length vector of bits, one per vCPU id.
pub struct BitMask {
    bits: Vec<bool>,
}

impl View for BitMask {
    type V = Seq<bool>;

    closed spec fn view(&self) -> Seq<bool> {
        self.bits@
    }
}

/// Whether bit `i` of `bits` is set; bits past the end read as unset.
pub open spec fn bit_set(bits: Seq<bool>, i: int) -> bool {
    0 <= i < bits.len() && bits[i]
}

impl BitMask {
    /// A mask of `len` bits, all clear.
    pub fn new_zeroes(len: usize) -> (r: BitMask)
        ensures
            r@ == Seq::new(len as nat, |i: int| false),
    {
        let mut bits: Vec<bool> = Vec::new();
        let mut i: usize = 0;
        while i < len
            invariant
                i <= len,
                bits@ == Seq::new(i as nat, |j: int| false),
            decreases len - i,
        {
            bits.push(false);
            i = i + 1;
        }
        BitMask { bits }
    }

    /// A mask of `len` bits, all set.
    pub fn new_ones(len: usize) -> (r: BitMask)
        ensures
            r@ == Seq::new(len as nat, |i: int| true),
    {
        let mut bits: Vec<bool> = Vec::new();
        let mut i: usize = 0;
        while i < len
            invariant
                i <= len,
                bits@ == Seq::new(i as nat, |j: int| true),
            decreases len - i,
        {
            bits.push(true);
            i = i + 1;
        }
        BitMask { bits }
    }

    /// A mask that holds the given bits.
    pub fn from_bits(bits: Vec<bool>) -> (r: BitMask)
        ensures
            r@ == bits@,
    {
        BitMask { bits }
    }

    /// The number of bits.
    pub fn len(&self) -> (r: usize)
        ensures
            r == self@.len(),
    {
        self.bits.len()
    }

    /// Bit `i`; an index past the end reads as unset.
    pub fn get(&self, i: usize) -> (r: bool)
        ensures
            r == bit_set(self@, i as int),
    {
        i < self.bits.len() && self.bits[i]
    }

    /// Sets bit `i` to `value`; an index past the end leaves the mask unchanged.
    pub fn set(&mut self, i: usize, value: bool)
        ensures
            i < old(self)@.len() ==> final(self)@ == old(self)@.update(i as int, value),
            i >= old(self)@.len() ==> final(self)@ == old(self)@,
    {
        if i < self.bits.len() {
            self.bits.set(i, value);
        }
    }

    /// A copy of this mask.
    pub fn copy(&self) -> (r: BitMask)
        ensures
            r@ == self@,
    {
        let mut bits: Vec<bool> = Vec::new();
        let mut i: usize = 0;
        while i < self.bits.len()
            invariant
                i <= self.bits@.len(),
                bits@ == self.bits@.take(i as int),
            decreases self.bits@.len() - i,
        {
            bits.push(self.bits[i]);
            i = i + 1;
            assert(self.bits@.take(i as int) =~= self.bits@.take(i - 1).push(self.bits@[i - 1]));
        }
        assert(self.bits@.take(self.bits@.len() as int) =~= self.bits@);
        BitMask { bits }
    }
}

} // verus!
