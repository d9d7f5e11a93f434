use vstd::prelude::*;

use crate::bit_width::{word_bit, WORD_BITS};

verus! {

/// Locates the word that holds a bit position.
#[derive(Debug, Clone, Copy, PartialEq, Eq, PartialOrd, Ord, Hash)]
pub struct DigitPos;

/// The position of a bit inside one word.
#[derive(Debug, Clone, Copy, PartialEq, Eq, PartialOrd, Ord, Hash)]
pub struct BitPos(usize);

impl BitPos {
    /// The bit's offset inside its word.
    pub closed spec fn offset(self) -> nat {
        self.0 as nat
    }

    pub fn of_pos(pos: usize) -> (r: Self)
        ensures
            r.offset() == pos % 64,
    {
        BitPos(pos % WORD_BITS)
    }

    pub fn mask(self) -> (r: u64)
        requires
            self.offset() < 64,
        ensures
            r == 1u64 << (self.offset() as u64),
            forall|j: u64| j < 64 ==> (word_bit(r, j) <==> j == self.offset()),
    {
        let k = self.0 as u64;
        assert(forall|j: u64| j < 64 && k < 64 ==> (#[trigger] word_bit(1u64 << k, j) <==> j == k))
            by (bit_vector);
        1u64 << k
    }

    pub fn get(self, word: u64) -> (r: bool)
        requires
            self.offset() < 64,
        ensures
            r == word_bit(word, self.offset() as u64),
    {
        let k = self.0 as u64;
        assert(k < 64 ==> ((word & (1u64 << k) != 0) <==> word_bit(word, k))) by (bit_vector);
        word & self.mask() != 0
    }

    pub fn set(self, word: u64) -> (r: u64)
        requires
            self.offset() < 64,
        ensures
            r == word | (1u64 << (self.offset() as u64)),
            forall|j: u64| j < 64 ==> (word_bit(r, j) <==> (j == self.offset() || word_bit(word, j))),
    {
        let k = self.0 as u64;
        assert(forall|j: u64|
            j < 64 && k < 64 ==> (#[trigger] word_bit(word | (1u64 << k), j) <==> (j == k || word_bit(word, j))))
            by (bit_vector);
        word | self.mask()
    }

    pub fn unset(self, word: u64) -> (r: u64)
        requires
            self.offset() < 64,
        ensures
            r == word & !(1u64 << (self.offset() as u64)),
            forall|j: u64| j < 64 ==> (word_bit(r, j) <==> (j != self.offset() && word_bit(word, j))),
    {
        let k = self.0 as u64;
        assert(forall|j: u64|
            j < 64 && k < 64 ==> (#[trigger] word_bit(word & !(1u64 << k), j) <==> (j != k && word_bit(word, j))))
            by (bit_vector);
        word & !self.mask()
    }

    pub fn flip(self, word: u64) -> (r: u64)
        requires
            self.offset() < 64,
        ensures
            r == word ^ (1u64 << (self.offset() as u64)),
            forall|j: u64| j < 64 ==> (word_bit(r, j) <==> (word_bit(word, j) != (j == self.offset()))),
    {
        let k = self.0 as u64;
        assert(forall|j: u64|
            j < 64 && k < 64 ==> (#[trigger] word_bit(word ^ (1u64 << k), j) <==> (word_bit(word, j) != (j == k))))
            by (bit_vector);
        word ^ self.mask()
    }
}

impl DigitPos {
    /// Index of the word that holds bit `pos`.
    pub fn of_pos(pos: usize) -> (r: usize)
        ensures
            r == pos / 64,
    {
        pos / WORD_BITS
    }
}

} // verus!
