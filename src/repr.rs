use vstd::prelude::*;
use vstd::arithmetic::power2::*;
use vstd::bits::*;

mod arith;
mod ops;

pub use arith::{ordering_of, pow2_of};
pub use ops::{lemma_constant_words, lemma_split};

use crate::bit_width::{excess_for, word_bit, word_fits, words_for, BitWidth, Kind, WORD_BYTES};
use crate::words::{
    word_base,
    lemma_word_weight_step, lemma_words_value_bound, lemma_words_value_push, lemma_words_value_zero, word_weight,
    words_value,
};

verus! {

/// Raised by operations on two integers of different widths.
#[derive(Debug, PartialEq, Eq)]
pub struct MismatchedBitWidth {}

/// A fixed-width integer of any number of bits, stored as little-endian 64-bit words.
///
/// Bits at or above the width in the last word are always clear, so two integers of the
/// same width and value have the same words.
#[derive(Debug)]
pub struct ApInt {
    bit_width: BitWidth,
    words: Vec<u64>,
}

/// `w` is below 2^n exactly when no bit at or above `n` is set.
pub proof fn lemma_word_fits(w: u64, n: nat)
    ensures
        word_fits(w, n) <==> (n >= 64 || (w as nat) < pow2(n)),
{
    if n < 64 {
        lemma_u64_shr_is_div(w, n as u64);
        lemma_pow2_pos(n);
        if (w as nat) < pow2(n) {
            assert(w as nat / pow2(n) == 0) by (nonlinear_arith)
                requires
                    (w as nat) < pow2(n),
            ;
        } else {
            assert(w as nat / pow2(n) >= 1) by (nonlinear_arith)
                requires
                    (w as nat) >= pow2(n),
                    pow2(n) > 0,
            ;
        }
    }
}

/// Bit `p` lies in word `p / 64`, at offset `p % 64`; inside the word count when `p` is below the width.
pub proof fn lemma_position(p: nat, width: nat)
    requires
        p < width,
    ensures
        p / 64 < words_for(width),
        p / 64 == words_for(width) - 1 ==> p % 64 < excess_for(width),
        p / 64 < words_for(width) - 1 ==> p % 64 < 64,
{
}

impl ApInt {
    /// Number of bits.
    pub closed spec fn width(&self) -> nat {
        self.bit_width.bits()
    }

    /// The little-endian words.
    pub closed spec fn word_seq(&self) -> Seq<u64> {
        self.words@
    }

    /// One word per started 64 bits, and no bit at or above the width set.
    pub open spec fn wf(&self) -> bool {
        &&& self.word_seq().len() == words_for(self.width())
        &&& self.width() > 0 ==> word_fits(self.word_seq().last(), excess_for(self.width()))
    }

    /// Bit `i`, counted from the least significant.
    pub open spec fn bit(&self, i: nat) -> bool {
        word_bit(self.word_seq()[(i / 64) as int], (i % 64) as u64)
    }

    /// The value read as an unsigned number.
    pub open spec fn value(&self) -> nat {
        words_value(self.word_seq())
    }

    /// The value read as a two's-complement number.
    pub open spec fn signed_value(&self) -> int {
        if self.width() > 0 && self.value() >= pow2((self.width() - 1) as nat) {
            self.value() - pow2(self.width())
        } else {
            self.value() as int
        }
    }

    /// A well-formed integer holds a value below 2^width.
    pub proof fn lemma_value_bound(&self)
        requires
            self.wf(),
        ensures
            self.value() < pow2(self.width()),
    {
        let ws = self.word_seq();
        let w = self.width();
        if w == 0 {
            lemma2_to64();
        } else {
            let n = ws.len();
            let k = (n - 1) as nat;
            let e = excess_for(w);
            lemma_words_value_bound(ws.drop_last());
            lemma_word_fits(ws.last(), e);
            lemma_word_weight_step(k);
            assert(w == 64 * k + e);
            lemma_pow2_adds(64 * k, e);
            if e == 64 {
                lemma2_to64_rest();
            }
            let p = words_value(ws.drop_last()) as int;
            let l = ws.last() as int;
            let ww = word_weight(k) as int;
            let pe = pow2(e) as int;
            assert(p + l * ww < pe * ww) by (nonlinear_arith)
                requires
                    0 <= p < ww,
                    0 <= l < pe,
            ;
        }
    }

    fn new_inline(width: usize, x: u64) -> (r: Self)
        requires
            1 <= width <= 64,
            (x as nat) < pow2(width as nat),
        ensures
            r.wf(),
            r.width() == width,
            r.value() == x,
    {
        proof {
            lemma_word_fits(x, width as nat);
            lemma_word_weight_step(0);
            lemma_words_value_push(Seq::empty(), x);
        }
        let words = vec![x];
        assert(words@ =~= Seq::<u64>::empty().push(x));
        assert(words_value(Seq::<u64>::empty()) == 0);
        assert(word_weight(0) == 1);
        assert(words_value(Seq::<u64>::empty().push(x)) == x as nat * word_weight(0));
        assert(words_value(words@) == x);
        ApInt { bit_width: BitWidth::new(width), words }
    }

    fn new_two_words(lo: u64, hi: u64) -> (r: Self)
        ensures
            r.wf(),
            r.width() == 128,
            r.value() == lo + hi * word_base(),
    {
        let words = vec![lo, hi];
        proof {
            lemma_word_weight_step(0);
            lemma_word_weight_step(1);
            assert(words@.drop_last() =~= seq![lo]);
            assert(seq![lo].drop_last() =~= Seq::<u64>::empty());
            assert(words_value(Seq::<u64>::empty()) == 0);
            assert(words_value(seq![lo]) == lo);
            assert(words_value(words@) == lo + hi * word_base());
        }
        ApInt { bit_width: BitWidth::new(128), words }
    }

    pub fn from_bool(x: bool) -> (r: Self)
        ensures
            r.wf(),
            r.width() == 1,
            r.value() == (if x { 1nat } else { 0nat }),
    {
        proof {
            lemma2_to64();
        }
        Self::new_inline(1, if x { 1 } else { 0 })
    }

    pub fn from_u8(x: u8) -> (r: Self)
        ensures
            r.wf(),
            r.width() == 8,
            r.value() == x,
    {
        proof {
            lemma2_to64();
        }
        Self::new_inline(8, x as u64)
    }

    pub fn from_i8(x: i8) -> (r: Self)
        ensures
            r.wf(),
            r.width() == 8,
            r.value() == (x as int) % 0x100,
    {
        proof {
            lemma2_to64();
        }
        let v: u64 = if x < 0 { (x as i64 + 0x100) as u64 } else { x as u64 };
        Self::new_inline(8, v)
    }

    pub fn from_u16(x: u16) -> (r: Self)
        ensures
            r.wf(),
            r.width() == 16,
            r.value() == x,
    {
        proof {
            lemma2_to64();
        }
        Self::new_inline(16, x as u64)
    }

    /// A 16-bit integer holding `x` sign-extended.
    pub fn from_i16(x: i8) -> (r: Self)
        ensures
            r.wf(),
            r.width() == 16,
            r.value() == (x as int) % 0x1_0000,
    {
        proof {
            lemma2_to64();
        }
        let v: u64 = if x < 0 { (x as i64 + 0x1_0000) as u64 } else { x as u64 };
        Self::new_inline(16, v)
    }

    pub fn from_u32(x: u32) -> (r: Self)
        ensures
            r.wf(),
            r.width() == 32,
            r.value() == x,
    {
        proof {
            lemma2_to64();
        }
        Self::new_inline(32, x as u64)
    }

    pub fn from_i32(x: i32) -> (r: Self)
        ensures
            r.wf(),
            r.width() == 32,
            r.value() == (x as int) % 0x1_0000_0000,
    {
        proof {
            lemma2_to64();
        }
        let v: u64 = if x < 0 { (x as i64 + 0x1_0000_0000) as u64 } else { x as u64 };
        Self::new_inline(32, v)
    }

    pub fn from_u64(x: u64) -> (r: Self)
        ensures
            r.wf(),
            r.width() == 64,
            r.value() == x,
    {
        proof {
            lemma2_to64_rest();
        }
        Self::new_inline(64, x)
    }

    pub fn from_i64(x: i64) -> (r: Self)
        ensures
            r.wf(),
            r.width() == 64,
            r.value() == (x as int) % word_base() as int,
    {
        proof {
            lemma2_to64_rest();
        }
        let v: u64 = if x < 0 { (x as i128 + 0x1_0000_0000_0000_0000) as u64 } else { x as u64 };
        Self::new_inline(64, v)
    }

    pub fn from_u128(x: u128) -> (r: Self)
        ensures
            r.wf(),
            r.width() == 128,
            r.value() == x,
    {
        let lo = (x % 0x1_0000_0000_0000_0000) as u64;
        let hi = (x / 0x1_0000_0000_0000_0000) as u64;
        Self::new_two_words(lo, hi)
    }

    pub fn from_i128(x: i128) -> (r: Self)
        ensures
            r.wf(),
            r.width() == 128,
            r.value() == (x as int) % pow2(128) as int,
    {
        proof {
            lemma2_to64_rest();
            lemma_pow2_adds(64, 64);
        }
        let v: u128 = if x < 0 {
            ((x + i128::MAX + 1) as u128) + 0x8000_0000_0000_0000_0000_0000_0000_0000
        } else {
            x as u128
        };
        Self::from_u128(v)
    }

    pub fn from_usize(x: usize) -> (r: Self)
        ensures
            r.wf(),
            r.width() == usize::BITS,
            r.value() == x,
    {
        proof {
            lemma2_to64();
            lemma2_to64_rest();
        }
        Self::new_inline(usize::BITS as usize, x as u64)
    }

    pub fn from_isize(x: isize) -> (r: Self)
        ensures
            r.wf(),
            r.width() == usize::BITS,
            r.value() == (x as int) % pow2(usize::BITS as nat) as int,
    {
        proof {
            lemma2_to64();
            lemma2_to64_rest();
        }
        let v: usize = if x < 0 { (x as i128 + usize::MAX as i128 + 1) as usize } else { x as usize };
        Self::from_usize(v)
    }

    /// The words, least significant first.
    pub fn words(&self) -> (r: &[u64])
        ensures
            r@ == self.word_seq(),
    {
        self.words.as_slice()
    }

    pub fn bit_width(&self) -> (r: BitWidth)
        ensures
            r.bits() == self.width(),
    {
        self.bit_width
    }

    /// The integer of the given width with every bit clear.
    pub fn all_unset(bit_width: BitWidth) -> (r: Self)
        ensures
            r.wf(),
            r.width() == bit_width.bits(),
            r.value() == 0,
    {
        let n = bit_width.words();
        let mut words: Vec<u64> = Vec::new();
        let mut i: usize = 0;
        while i < n
            invariant
                i <= n,
                words@.len() == i,
                forall|j: int| 0 <= j < i ==> words@[j] == 0,
            decreases n - i,
        {
            words.push(0);
            i = i + 1;
        }
        assert(word_fits(0u64, excess_for(bit_width.bits()))) by {
            lemma_word_fits(0u64, excess_for(bit_width.bits()));
            lemma_pow2_pos(excess_for(bit_width.bits()));
        }
        proof {
            lemma_words_value_zero(words@);
        }
        ApInt { bit_width, words }
    }

    /// The integer of the given width with every bit set.
    pub fn all_set(bit_width: BitWidth) -> (r: Self)
        ensures
            r.wf(),
            r.width() == bit_width.bits(),
            forall|i: nat| i < r.width() ==> r.bit(i),
    {
        let mut r = Self::all_unset(bit_width);
        r.set_all();
        r
    }

    /// The integer of width zero.
    pub fn zero_sized() -> (r: Self)
        ensures
            r.wf(),
            r.width() == 0,
            r.value() == 0,
    {
        ApInt { bit_width: BitWidth::new(0), words: Vec::new() }
    }

    /// Sets every bit.
    pub fn set_all(&mut self)
        requires
            old(self).wf(),
        ensures
            final(self).wf(),
            final(self).width() == old(self).width(),
            forall|i: nat| i < final(self).width() ==> final(self).bit(i),
    {
        let n = self.words.len();
        let mask = self.bit_width.excess_bits_mask();
        assert(word_fits(mask, excess_for(self.width())));
        let ghost e = excess_for(self.width());
        let mut i: usize = 0;
        while i < n
            invariant
                i <= n,
                n == self.words@.len(),
                n == words_for(self.width()),
                self.bit_width == old(self).bit_width,
                forall|j: u64| j < 64 ==> (word_bit(mask, j) <==> j < e),
                e == excess_for(self.width()),
                forall|k: int| 0 <= k < i ==> self.words@[k] == (if k == n - 1 { mask } else { u64::MAX }),
            decreases n - i,
        {
            let v = if i == n - 1 { mask } else { u64::MAX };
            self.words.set(i, v);
            i = i + 1;
        }
        proof {
            let w = self.width();
            assert forall|p: nat| p < w implies self.bit(p) by {
                lemma_position(p, w);
                let k = (p / 64) as int;
                assert(forall|j: u64| j < 64 ==> #[trigger] word_bit(u64::MAX, j)) by (bit_vector);
            }
        }
    }
}

/// Bytes held at the alignment of a word, read back as little-endian words.
pub struct WordAlignedBytes<const N: usize> {
    bytes: [u8; N],
}

/// The little-endian word made of bytes `8 k .. 8 k + 8`.
pub open spec fn le_word(b: Seq<u8>, k: int) -> nat {
    b[8 * k] as nat + b[8 * k + 1] as nat * 0x100 + b[8 * k + 2] as nat * 0x1_0000 + b[8 * k + 3] as nat
        * 0x100_0000 + b[8 * k + 4] as nat * 0x1_0000_0000 + b[8 * k + 5] as nat * 0x100_0000_0000
        + b[8 * k + 6] as nat * 0x1_0000_0000_0000 + b[8 * k + 7] as nat * 0x100_0000_0000_0000
}

impl<const N: usize> WordAlignedBytes<N> {
    pub closed spec fn byte_seq(&self) -> Seq<u8> {
        self.bytes@
    }

    pub fn new(bytes: [u8; N]) -> (r: Self)
        ensures
            r.byte_seq() == bytes@,
    {
        WordAlignedBytes { bytes }
    }

    /// The bytes read as little-endian words.
    pub fn words(&self) -> (r: Vec<u64>)
        requires
            N % 8 == 0,
        ensures
            r@.len() == N / 8,
            forall|k: int| 0 <= k < N / 8 ==> r@[k] == le_word(self.byte_seq(), k),
    {
        let n = N / WORD_BYTES;
        let mut r: Vec<u64> = Vec::new();
        let mut k: usize = 0;
        while k < n
            invariant
                n == N / 8,
                N % 8 == 0,
                k <= n,
                self.bytes@.len() == N,
                r@.len() == k,
                forall|i: int| 0 <= i < k ==> r@[i] == le_word(self.bytes@, i),
            decreases n - k,
        {
            let b = 8 * k;
            assert(b + 7 < N) by (nonlinear_arith)
                requires
                    k < n,
                    n == N / 8,
                    N % 8 == 0,
                    b == 8 * k,
            ;
            let w: u64 = self.bytes[b] as u64 + self.bytes[b + 1] as u64 * 0x100 + self.bytes[b + 2] as u64
                * 0x1_0000 + self.bytes[b + 3] as u64 * 0x100_0000 + self.bytes[b + 4] as u64 * 0x1_0000_0000
                + self.bytes[b + 5] as u64 * 0x100_0000_0000 + self.bytes[b + 6] as u64 * 0x1_0000_0000_0000
                + self.bytes[b + 7] as u64 * 0x100_0000_0000_0000;
            r.push(w);
            k = k + 1;
        }
        r
    }
}

} // verus!
