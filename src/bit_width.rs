use vstd::prelude::*;

verus! {

/// Number of bits in one storage word.
pub const WORD_BITS: usize = 64;

/// Number of bytes in one storage word.
pub const WORD_BYTES: usize = 8;

/// The number of bits of an arbitrary-precision integer.
#[derive(Debug, Clone, Copy, PartialEq, Eq, Hash, PartialOrd, Ord)]
pub struct BitWidth(pub usize);

/// How the words of an integer of a given width are stored.
#[derive(Debug, Clone, Copy, PartialEq, Eq, Hash, PartialOrd, Ord)]
pub enum Kind {
    Zero,
    Inline,
    Outline,
}

/// Number of words needed to hold `bits` bits.
pub open spec fn words_for(bits: nat) -> nat {
    (bits / 64 + if bits % 64 == 0 { 0nat } else { 1nat }) as nat
}

/// Number of meaningful bits in the last word of a `bits`-bit integer.
pub open spec fn excess_for(bits: nat) -> nat {
    if bits % 64 == 0 { 64 } else { bits % 64 }
}

impl BitWidth {
    pub open spec fn bits(self) -> nat {
        self.0 as nat
    }

    pub fn new(x: usize) -> (r: Self)
        ensures
            r.bits() == x,
    {
        BitWidth(x)
    }

    pub fn get(self) -> (r: usize)
        ensures
            r == self.bits(),
    {
        self.0
    }

    pub fn kind(self) -> (r: Kind)
        ensures
            r == (if self.bits() == 0 {
                Kind::Zero
            } else if self.bits() <= 64 {
                Kind::Inline
            } else {
                Kind::Outline
            }),
    {
        if self.0 == 0 {
            Kind::Zero
        } else if self.0 <= WORD_BITS {
            Kind::Inline
        } else {
            Kind::Outline
        }
    }

    pub fn words(self) -> (r: usize)
        ensures
            r == words_for(self.bits()),
    {
        self.0 / WORD_BITS + if self.0 % WORD_BITS != 0 { 1 } else { 0 }
    }

    pub fn excess_bits(self) -> (r: usize)
        ensures
            r == excess_for(self.bits()),
    {
        let x = self.0 % WORD_BITS;
        if x == 0 {
            WORD_BITS
        } else {
            x
        }
    }

    pub fn excess_bits_mask(self) -> (r: u64)
        ensures
            forall|j: u64| j < 64 ==> (word_bit(r, j) <==> j < excess_for(self.bits())),
            word_fits(r, excess_for(self.bits())),
    {
        let x = self.0 % WORD_BITS;
        if x == 0 {
            assert(forall|j: u64| j < 64 ==> #[trigger] word_bit(u64::MAX, j)) by (bit_vector);
            u64::MAX
        } else {
            let s = x as u64;
            assert(forall|j: u64| j < 64 && 0 < s < 64 ==> (#[trigger] word_bit(!(u64::MAX << s), j) <==> j < s))
                by (bit_vector);
            assert(0 < s < 64 ==> !(u64::MAX << s) >> s == 0) by (bit_vector);
            !(u64::MAX << s)
        }
    }

    pub fn sign_bit(self) -> (r: Option<usize>)
        ensures
            r == (if self.bits() == 0 { None } else { Some((self.bits() - 1) as usize) }),
    {
        self.0.checked_sub(1)
    }
}

/// `true` when bit `j` (counted from the least significant) of `w` is set.
pub open spec fn word_bit(w: u64, j: u64) -> bool {
    (w >> j) & 1u64 == 1u64
}

/// `true` when no bit of `w` at or above position `n` is set.
pub open spec fn word_fits(w: u64, n: nat) -> bool {
    n >= 64 || w >> (n as u64) == 0
}

} // verus!
