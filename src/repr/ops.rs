use vstd::prelude::*;
use vstd::arithmetic::div_mod::lemma_fundamental_div_mod_converse;
use vstd::std_specs::bits::{
    axiom_u64_leading_ones, axiom_u64_leading_zeros, axiom_u64_trailing_ones, axiom_u64_trailing_zeros,
};

use crate::bit_width::{excess_for, word_bit, word_fits, words_for};
use crate::pos::{BitPos, DigitPos};
use super::{lemma_position, ApInt};

verus! {

/// Bit `j` of word `i` is bit `64 i + j` of the integer.
pub proof fn lemma_split(i: nat, j: nat)
    requires
        j < 64,
    ensures
        (64 * i + j) / 64 == i,
        (64 * i + j) % 64 == j,
{
    lemma_fundamental_div_mod_converse((64 * i + j) as int, 64, i as int, j as int);
}

/// Every bit of the zero word is clear and every bit of the all-ones word is set.
pub proof fn lemma_constant_words()
    ensures
        forall|j: u64| j < 64 ==> !#[trigger] word_bit(0u64, j),
        forall|j: u64| j < 64 ==> #[trigger] word_bit(u64::MAX, j),
{
    assert(forall|j: u64| j < 64 ==> !#[trigger] word_bit(0u64, j)) by (bit_vector);
    assert(forall|j: u64| j < 64 ==> #[trigger] word_bit(u64::MAX, j)) by (bit_vector);
}

impl ApInt {
    /// Number of set bits below position `n`.
    pub open spec fn ones_below(&self, n: nat) -> nat
        decreases n,
    {
        if n == 0 {
            0
        } else {
            self.ones_below((n - 1) as nat) + if self.bit((n - 1) as nat) { 1nat } else { 0nat }
        }
    }

    /// Clears every bit.
    pub fn unset_all(&mut self)
        requires
            old(self).wf(),
        ensures
            final(self).wf(),
            final(self).width() == old(self).width(),
            final(self).value() == 0,
    {
        *self = ApInt::all_unset(self.bit_width());
    }

    /// Whether every bit is clear.
    pub fn is_all_unset(&self) -> (r: bool)
        requires
            self.wf(),
        ensures
            r == (self.value() == 0),
    {
        let ws = self.words();
        let mut i: usize = 0;
        while i < ws.len()
            invariant
                ws@ == self.word_seq(),
                i <= ws@.len(),
                forall|k: int| 0 <= k < i ==> ws@[k] == 0,
            decreases ws@.len() - i,
        {
            if ws[i] != 0 {
                proof {
                    crate::words::lemma_words_value_zero(ws@);
                }
                return false;
            }
            i = i + 1;
        }
        proof {
            crate::words::lemma_words_value_zero(ws@);
        }
        true
    }

    /// Whether every bit below the width is set.
    pub fn is_all_set(&self) -> (r: bool)
        requires
            self.wf(),
        ensures
            r == (forall|i: nat| i < self.width() ==> self.bit(i)),
    {
        let ws = self.words();
        let n = ws.len();
        if n == 0 {
            return true;
        }
        let mask = self.bit_width().excess_bits_mask();
        let ghost w = self.width();
        let ghost e = excess_for(w);
        let mut i: usize = 0;
        while i < n - 1
            invariant
                ws@ == self.word_seq(),
                n == ws@.len(),
                n == words_for(w),
                w == self.width(),
                n > 0,
                i <= n - 1,
                forall|k: int| 0 <= k < i ==> ws@[k] == u64::MAX,
            decreases n - 1 - i,
        {
            if ws[i] != u64::MAX {
                proof {
                    let x = ws@[i as int];
                    axiom_u64_trailing_ones(x);
                    let t = vstd::std_specs::bits::u64_trailing_ones(x);
                    assert(t < 64);
                    assert(!word_bit(x, t as u64));
                    lemma_split(i as nat, t as nat);
                    assert(!self.bit((64 * i + t) as nat));
                    assert(64 * i + t < w);
                }
                return false;
            }
            i = i + 1;
        }
        let last = ws[n - 1];
        let probe = !last & mask;
        let full = probe == 0;
        proof {
            lemma_constant_words();
            assert(forall|l: u64, m: u64, j: u64|
                j < 64 ==> #[trigger] word_bit(!l & m, j) == (!word_bit(l, j) && word_bit(m, j))) by (bit_vector);
            if full {
                assert forall|p: nat| p < w implies self.bit(p) by {
                    lemma_position(p, w);
                    if p / 64 == n - 1 {
                        assert(!word_bit(probe, (p % 64) as u64));
                    }
                }
            } else {
                axiom_u64_trailing_zeros(probe);
                let t = vstd::std_specs::bits::u64_trailing_zeros(probe);
                assert(word_bit(probe, t as u64));
                lemma_split((n - 1) as nat, t as nat);
                assert(!self.bit((64 * (n - 1) + t) as nat));
            }
        }
        full
    }

    /// Inverts every bit below the width.
    pub fn flip_all(&mut self)
        requires
            old(self).wf(),
        ensures
            final(self).wf(),
            final(self).width() == old(self).width(),
            forall|i: nat| i < old(self).width() ==> final(self).bit(i) == !old(self).bit(i),
    {
        let n = self.words.len();
        if n == 0 {
            return;
        }
        let mask = self.bit_width.excess_bits_mask();
        let ghost e = excess_for(self.width());
        let ghost before = self.word_seq();
        let mut i: usize = 0;
        while i < n
            invariant
                i <= n,
                n == self.words@.len(),
                n == before.len(),
                n > 0,
                self.bit_width == old(self).bit_width,
                before == old(self).word_seq(),
                forall|k: int| i <= k < n ==> self.words@[k] == before[k],
                forall|k: int|
                    0 <= k < i ==> self.words@[k] == (if k == n - 1 {
                        before[k] ^ mask
                    } else {
                        before[k] ^ u64::MAX
                    }),
            decreases n - i,
        {
            let v = if i == n - 1 { self.words[i] ^ mask } else { self.words[i] ^ u64::MAX };
            self.words.set(i, v);
            i = i + 1;
        }
        proof {
            let w = self.width();
            let ee = e as u64;
            assert(forall|x: u64, j: u64| j < 64 ==> #[trigger] word_bit(x ^ u64::MAX, j) == !word_bit(x, j))
                by (bit_vector);
            assert(forall|x: u64, m: u64, j: u64|
                j < 64 ==> #[trigger] word_bit(x ^ m, j) == (word_bit(x, j) != word_bit(m, j))) by (bit_vector);
            let l = before[n - 1];
            assert(word_fits(l, e));
            assert(word_fits(mask, e));
            assert(ee < 64 && l >> ee == 0 && mask >> ee == 0 ==> (l ^ mask) >> ee == 0) by (bit_vector);
            assert(forall|j: u64| j < 64 ==> (word_bit(mask, j) <==> j < ee));
            assert forall|p: nat| p < w implies self.bit(p) == !old(self).bit(p) by {
                lemma_position(p, w);
            }
        }
    }

    /// Same as `flip_all`.
    pub fn bitnot(&mut self)
        requires
            old(self).wf(),
        ensures
            final(self).wf(),
            final(self).width() == old(self).width(),
            forall|i: nat| i < old(self).width() ==> final(self).bit(i) == !old(self).bit(i),
    {
        self.flip_all()
    }

    /// Bit `pos`.
    pub fn get(&self, pos: usize) -> (r: bool)
        requires
            self.wf(),
            pos < self.width(),
        ensures
            r == self.bit(pos as nat),
    {
        let digit = DigitPos::of_pos(pos);
        let bit = BitPos::of_pos(pos);
        proof {
            lemma_position(pos as nat, self.width());
        }
        bit.get(self.words()[digit])
    }

    /// Sets bit `pos`.
    pub fn set_bit_at(&mut self, pos: usize)
        requires
            old(self).wf(),
            pos < old(self).width(),
        ensures
            final(self).wf(),
            final(self).width() == old(self).width(),
            forall|i: nat| i < old(self).width() ==> final(self).bit(i) == (i == pos || old(self).bit(i)),
    {
        let digit = DigitPos::of_pos(pos);
        let bit = BitPos::of_pos(pos);
        proof {
            lemma_position(pos as nat, self.width());
        }
        let w = self.words[digit];
        let v = bit.set(w);
        self.words.set(digit, v);
        proof {
            let wd = self.width();
            let e = excess_for(wd) as u64;
            let k = (pos % 64) as u64;
            assert(e < 64 && k < e && w >> e == 0 ==> (w | (1u64 << k)) >> e == 0) by (bit_vector);
            assert forall|i: nat| i < wd implies self.bit(i) == (i == pos || old(self).bit(i)) by {
                lemma_position(i, wd);
            }
        }
    }

    /// Clears bit `pos`.
    pub fn unset_bit_at(&mut self, pos: usize)
        requires
            old(self).wf(),
            pos < old(self).width(),
        ensures
            final(self).wf(),
            final(self).width() == old(self).width(),
            forall|i: nat| i < old(self).width() ==> final(self).bit(i) == (i != pos && old(self).bit(i)),
    {
        let digit = DigitPos::of_pos(pos);
        let bit = BitPos::of_pos(pos);
        proof {
            lemma_position(pos as nat, self.width());
        }
        let w = self.words[digit];
        let v = bit.unset(w);
        self.words.set(digit, v);
        proof {
            let wd = self.width();
            let e = excess_for(wd) as u64;
            let k = (pos % 64) as u64;
            assert(e < 64 && k < 64 && w >> e == 0 ==> (w & !(1u64 << k)) >> e == 0) by (bit_vector);
            assert forall|i: nat| i < wd implies self.bit(i) == (i != pos && old(self).bit(i)) by {
                lemma_position(i, wd);
            }
        }
    }

    /// Inverts bit `pos`.
    pub fn flip_bit_at(&mut self, pos: usize)
        requires
            old(self).wf(),
            pos < old(self).width(),
        ensures
            final(self).wf(),
            final(self).width() == old(self).width(),
            forall|i: nat| i < old(self).width() ==> final(self).bit(i) == (old(self).bit(i) != (i == pos)),
    {
        let digit = DigitPos::of_pos(pos);
        let bit = BitPos::of_pos(pos);
        proof {
            lemma_position(pos as nat, self.width());
        }
        let w = self.words[digit];
        let v = bit.flip(w);
        self.words.set(digit, v);
        proof {
            let wd = self.width();
            let e = excess_for(wd) as u64;
            let k = (pos % 64) as u64;
            assert(e < 64 && k < e && w >> e == 0 ==> (w ^ (1u64 << k)) >> e == 0) by (bit_vector);
            assert forall|i: nat| i < wd implies self.bit(i) == (old(self).bit(i) != (i == pos)) by {
                lemma_position(i, wd);
            }
        }
    }

    /// The most significant bit; `false` for width zero.
    pub fn sign_bit(&self) -> (r: bool)
        requires
            self.wf(),
        ensures
            r == (self.width() > 0 && self.bit((self.width() - 1) as nat)),
    {
        match self.bit_width().sign_bit() {
            Some(s) => self.get(s),
            None => false,
        }
    }

    pub fn set_sign_bit(&mut self)
        requires
            old(self).wf(),
            old(self).width() > 0,
        ensures
            final(self).wf(),
            final(self).width() == old(self).width(),
            forall|i: nat|
                i < old(self).width() ==> final(self).bit(i) == (i == old(self).width() - 1 || old(self).bit(i)),
    {
        let s = self.bit_width().get() - 1;
        self.set_bit_at(s);
    }

    pub fn unset_sign_bit(&mut self)
        requires
            old(self).wf(),
            old(self).width() > 0,
        ensures
            final(self).wf(),
            final(self).width() == old(self).width(),
            forall|i: nat|
                i < old(self).width() ==> final(self).bit(i) == (i != old(self).width() - 1 && old(self).bit(i)),
    {
        let s = self.bit_width().get() - 1;
        self.unset_bit_at(s);
    }

    pub fn flip_sign_bit(&mut self)
        requires
            old(self).wf(),
            old(self).width() > 0,
        ensures
            final(self).wf(),
            final(self).width() == old(self).width(),
            forall|i: nat|
                i < old(self).width() ==> final(self).bit(i) == (old(self).bit(i) != (i == old(self).width() - 1)),
    {
        let s = self.bit_width().get() - 1;
        self.flip_bit_at(s);
    }

    /// Number of set bits.
    pub fn count_ones(&self) -> (r: usize)
        requires
            self.wf(),
        ensures
            r == self.ones_below(self.width()),
    {
        let w = self.bit_width().get();
        let mut c: usize = 0;
        let mut p: usize = 0;
        while p < w
            invariant
                self.wf(),
                w == self.width(),
                p <= w,
                c <= p,
                c == self.ones_below(p as nat),
            decreases w - p,
        {
            if self.get(p) {
                c = c + 1;
            }
            p = p + 1;
        }
        c
    }

    /// Number of clear bits below the width.
    pub fn count_zeros(&self) -> (r: usize)
        requires
            self.wf(),
        ensures
            r == self.width() - self.ones_below(self.width()),
    {
        let ones = self.count_ones();
        proof {
            self.lemma_ones_below_bound(self.width());
        }
        self.bit_width().get() - ones
    }

    /// Number of clear bits below the lowest set bit, or the width when none is set.
    pub fn trailing_zeros(&self) -> (r: usize)
        requires
            self.wf(),
        ensures
            r <= self.width(),
            forall|i: nat| i < r ==> !self.bit(i),
            r < self.width() ==> self.bit(r as nat),
    {
        let ws = self.words();
        let n = ws.len();
        if n == 0 {
            return 0;
        }
        let ghost w = self.width();
        assert(w == 64 * (n - 1) + excess_for(w));
        let mut i: usize = 0;
        while i < n - 1
            invariant
                ws@ == self.word_seq(),
                n == ws@.len(),
                n == words_for(w),
                w == self.width(),
                w == 64 * (n - 1) + excess_for(w),
                n > 0,
                i <= n - 1,
                forall|p: nat| p < 64 * i ==> !self.bit(p),
            decreases n - 1 - i,
        {
            let x = ws[i];
            if x != 0 {
                let t = x.trailing_zeros();
                proof {
                    axiom_u64_trailing_zeros(x);
                    assert forall|p: nat| p < 64 * i + t implies !self.bit(p) by {
                        if p >= 64 * i {
                            lemma_split(i as nat, (p - 64 * i) as nat);
                        }
                    }
                    lemma_split(i as nat, t as nat);
                }
                return i * 64 + t as usize;
            }
            proof {
                lemma_constant_words();
                assert forall|p: nat| p < 64 * (i + 1) implies !self.bit(p) by {
                    if p >= 64 * i {
                        lemma_split(i as nat, (p - 64 * i) as nat);
                    }
                }
            }
            i = i + 1;
        }
        let last = ws[n - 1];
        let t = last.trailing_zeros() as usize;
        let e = self.bit_width().excess_bits();
        let r = (n - 1) * 64 + if t < e { t } else { e };
        proof {
            axiom_u64_trailing_zeros(last);
            let k = (n - 1) as nat;
            assert forall|p: nat| p < r implies !self.bit(p) by {
                if p >= 64 * k {
                    lemma_split(k, (p - 64 * k) as nat);
                }
            }
            if r < w {
                lemma_split(k, t as nat);
            }
        }
        r
    }

    /// Number of set bits below the lowest clear bit, or the width when all are set.
    pub fn trailing_ones(&self) -> (r: usize)
        requires
            self.wf(),
        ensures
            r <= self.width(),
            forall|i: nat| i < r ==> self.bit(i),
            r < self.width() ==> !self.bit(r as nat),
    {
        let ws = self.words();
        let n = ws.len();
        if n == 0 {
            return 0;
        }
        let ghost w = self.width();
        assert(w == 64 * (n - 1) + excess_for(w));
        let mut i: usize = 0;
        while i < n - 1
            invariant
                ws@ == self.word_seq(),
                n == ws@.len(),
                n == words_for(w),
                w == self.width(),
                w == 64 * (n - 1) + excess_for(w),
                n > 0,
                i <= n - 1,
                forall|p: nat| p < 64 * i ==> self.bit(p),
            decreases n - 1 - i,
        {
            let x = ws[i];
            if x != u64::MAX {
                let t = x.trailing_ones();
                proof {
                    axiom_u64_trailing_ones(x);
                    assert forall|p: nat| p < 64 * i + t implies self.bit(p) by {
                        if p >= 64 * i {
                            lemma_split(i as nat, (p - 64 * i) as nat);
                        }
                    }
                    lemma_split(i as nat, t as nat);
                }
                return i * 64 + t as usize;
            }
            proof {
                lemma_constant_words();
                assert forall|p: nat| p < 64 * (i + 1) implies self.bit(p) by {
                    if p >= 64 * i {
                        lemma_split(i as nat, (p - 64 * i) as nat);
                    }
                }
            }
            i = i + 1;
        }
        let last = ws[n - 1];
        let t = last.trailing_ones() as usize;
        let e = self.bit_width().excess_bits();
        let r = (n - 1) * 64 + if t < e { t } else { e };
        proof {
            axiom_u64_trailing_ones(last);
            let k = (n - 1) as nat;
            assert forall|p: nat| p < r implies self.bit(p) by {
                if p >= 64 * k {
                    lemma_split(k, (p - 64 * k) as nat);
                }
            }
            if r < w {
                lemma_split(k, t as nat);
            }
        }
        r
    }

    /// Number of clear bits above the highest set bit, or the width when none is set.
    pub fn leading_zeros(&self) -> (r: usize)
        requires
            self.wf(),
        ensures
            r <= self.width(),
            forall|i: nat| self.width() - r <= i < self.width() ==> !self.bit(i),
            r < self.width() ==> self.bit((self.width() - 1 - r) as nat),
    {
        let ws = self.words();
        let n = ws.len();
        if n == 0 {
            return 0;
        }
        let ghost w = self.width();
        assert(w == 64 * (n - 1) + excess_for(w));
        let e = self.bit_width().excess_bits();
        let last = ws[n - 1];
        proof {
            let ee = e as u64;
            assert(word_fits(last, e as nat));
            assert(forall|j: u64| ee <= j < 64 && (ee == 64 || last >> ee == 0) ==> #[trigger] (last >> j) & 1u64 == 0u64)
                by (bit_vector);
        }
        if last != 0 {
            let lz = last.leading_zeros() as usize;
            proof {
                axiom_u64_leading_zeros(last);
                let j = (63 - lz) as u64;
                assert((last >> j) & 1u64 != 0u64);
                let k = (n - 1) as nat;
                assert forall|p: nat| w - (lz - (64 - e)) <= p < w implies !self.bit(p) by {
                    lemma_split(k, (p - 64 * k) as nat);
                }
                lemma_split(k, (63 - lz) as nat);
                assert(forall|y: u64| y & 1u64 != 0u64 ==> #[trigger] (y & 1u64) == 1u64) by (bit_vector);
            }
            return lz - (64 - e);
        }
        let mut k: usize = n - 1;
        while k > 0
            invariant
                ws@ == self.word_seq(),
                n == ws@.len(),
                n == words_for(w),
                w == self.width(),
                w == 64 * (n - 1) + e,
                e == excess_for(w),
                n > 0,
                k <= n - 1,
                forall|p: nat| 64 * k <= p < w ==> !self.bit(p),
            decreases k,
        {
            let x = ws[k - 1];
            if x != 0 {
                let lz = x.leading_zeros() as usize;
                proof {
                    axiom_u64_leading_zeros(x);
                    let c = (k - 1) as nat;
                    assert forall|p: nat| 64 * c + (64 - lz) <= p < w implies !self.bit(p) by {
                        if p < 64 * k {
                            lemma_split(c, (p - 64 * c) as nat);
                        }
                    }
                    lemma_split(c, (63 - lz) as nat);
                    assert(forall|y: u64| y & 1u64 != 0u64 ==> #[trigger] (y & 1u64) == 1u64) by (bit_vector);
                    assert(word_bit(x, (63 - lz) as u64));
                }
                return (n - 1 - k) * 64 + lz + e;
            }
            proof {
                lemma_constant_words();
                let c = (k - 1) as nat;
                assert forall|p: nat| 64 * c <= p < w implies !self.bit(p) by {
                    if p < 64 * k {
                        lemma_split(c, (p - 64 * c) as nat);
                    }
                }
            }
            k = k - 1;
        }
        self.bit_width().get()
    }

    /// Number of set bits above the highest clear bit, or the width when all are set.
    pub fn leading_ones(&self) -> (r: usize)
        requires
            self.wf(),
        ensures
            r <= self.width(),
            forall|i: nat| self.width() - r <= i < self.width() ==> self.bit(i),
            r < self.width() ==> !self.bit((self.width() - 1 - r) as nat),
    {
        let ws = self.words();
        let n = ws.len();
        if n == 0 {
            return 0;
        }
        let ghost w = self.width();
        assert(w == 64 * (n - 1) + excess_for(w));
        let e = self.bit_width().excess_bits();
        let mask = self.bit_width().excess_bits_mask();
        let last = !ws[n - 1] & mask;
        proof {
            let ee = e as u64;
            let l = ws@[n - 1];
            assert(word_fits(mask, e as nat));
            assert(forall|j: u64| j < 64 ==> (word_bit(mask, j) <==> j < ee));
            assert(forall|m: u64, j: u64| j < 64 ==> #[trigger] word_bit(!l & m, j) == (!word_bit(l, j) && word_bit(m, j)))
                by (bit_vector);
            assert(forall|j: u64| ee <= j < 64 && (ee == 64 || mask >> ee == 0) ==> #[trigger] ((!l & mask) >> j) & 1u64 == 0u64)
                by (bit_vector);
        }
        if last != 0 {
            let lz = last.leading_zeros() as usize;
            proof {
                axiom_u64_leading_zeros(last);
                let j = (63 - lz) as u64;
                assert((last >> j) & 1u64 != 0u64);
                let k = (n - 1) as nat;
                assert forall|p: nat| w - (lz - (64 - e)) <= p < w implies self.bit(p) by {
                    lemma_split(k, (p - 64 * k) as nat);
                    let q = (p - 64 * k) as u64;
                    assert((last >> q) & 1u64 == 0u64);
                    assert(!word_bit(last, q));
                }
                lemma_split(k, (63 - lz) as nat);
                assert(forall|y: u64| y & 1u64 != 0u64 ==> #[trigger] (y & 1u64) == 1u64) by (bit_vector);
                assert(word_bit(last, j));
            }
            return lz - (64 - e);
        }
        proof {
            let k = (n - 1) as nat;
            assert forall|p: nat| 64 * k <= p < w implies self.bit(p) by {
                lemma_split(k, (p - 64 * k) as nat);
                lemma_constant_words();
                let q = (p - 64 * k) as u64;
                assert(!word_bit(last, q));
            }
        }
        let mut k: usize = n - 1;
        while k > 0
            invariant
                ws@ == self.word_seq(),
                n == ws@.len(),
                n == words_for(w),
                w == self.width(),
                w == 64 * (n - 1) + e,
                e == excess_for(w),
                n > 0,
                k <= n - 1,
                forall|p: nat| 64 * k <= p < w ==> self.bit(p),
            decreases k,
        {
            let x = ws[k - 1];
            if x != u64::MAX {
                let lz = x.leading_ones() as usize;
                proof {
                    axiom_u64_leading_ones(x);
                    let c = (k - 1) as nat;
                    assert forall|p: nat| 64 * c + (64 - lz) <= p < w implies self.bit(p) by {
                        if p < 64 * k {
                            lemma_split(c, (p - 64 * c) as nat);
                        }
                    }
                    lemma_split(c, (63 - lz) as nat);
                    assert(forall|y: u64| y & 1u64 != 0u64 ==> #[trigger] (y & 1u64) == 1u64) by (bit_vector);
                    assert(!word_bit(x, (63 - lz) as u64));
                }
                return (n - 1 - k) * 64 + lz + e;
            }
            proof {
                lemma_constant_words();
                let c = (k - 1) as nat;
                assert forall|p: nat| 64 * c <= p < w implies self.bit(p) by {
                    if p < 64 * k {
                        lemma_split(c, (p - 64 * c) as nat);
                    }
                }
            }
            k = k - 1;
        }
        self.bit_width().get()
    }

    pub proof fn lemma_ones_below_bound(&self, n: nat)
        ensures
            self.ones_below(n) <= n,
        decreases n,
    {
        if n > 0 {
            self.lemma_ones_below_bound((n - 1) as nat);
        }
    }
}

} // verus!
