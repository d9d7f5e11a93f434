use core::cmp::Ordering;

use vstd::prelude::*;
use vstd::arithmetic::div_mod::{lemma_fundamental_div_mod_converse, lemma_mod_multiples_vanish};
use vstd::arithmetic::power2::{lemma2_to64, lemma2_to64_rest, lemma_pow2_adds, lemma_pow2_pos};
use vstd::bits::{lemma_u64_shl_is_mul, lemma_u64_shr_is_div};

use crate::bit_width::{excess_for, word_bit, words_for};
use crate::words::{
    lemma_word_weight_step, lemma_words_value_bound, lemma_words_value_order, lemma_words_value_take,
    lemma_words_value_update, word_weight, words_value,
};

use super::{lemma_word_fits, ApInt, MismatchedBitWidth};

verus! {

/// The ordering of two integers.
pub open spec fn ordering_of(a: int, b: int) -> Ordering {
    if a < b {
        Ordering::Less
    } else if a == b {
        Ordering::Equal
    } else {
        Ordering::Greater
    }
}

/// 2^width divides the weight of the word just above the last one.
pub proof fn lemma_width_divides(width: nat)
    ensures
        word_weight(words_for(width)) == pow2_of(width) * pow2_of((64 * words_for(width) - width) as nat),
        64 * words_for(width) >= width,
{
    let n = words_for(width);
    assert(64 * n >= width);
    lemma_pow2_adds(width, (64 * n - width) as nat);
}

/// Shorthand for vstd's power of two, used in the contracts below.
pub open spec fn pow2_of(e: nat) -> nat {
    vstd::arithmetic::power2::pow2(e)
}

/// One step of a carry chain: the new word and carry account for the sum exactly.
proof fn lemma_carry_step(v: nat, c: nat, lo: nat, c2: nat, t: nat, w: nat, a: nat, b: nat)
    requires
        t == lo + c2 * 0x1_0000_0000_0000_0000,
        t == a + b + c,
    ensures
        v + lo * w + c2 * (w * 0x1_0000_0000_0000_0000) == (v + c * w) + a * w + b * w,
{
    assert(v + lo * w + c2 * (w * 0x1_0000_0000_0000_0000) == v + (lo + c2 * 0x1_0000_0000_0000_0000) * w)
        by (nonlinear_arith);
    assert((a + b + c) * w == a * w + b * w + c * w) by (nonlinear_arith);
}

impl ApInt {
    /// The sign bit is set exactly when the unsigned value reaches 2^(width - 1).
    pub proof fn lemma_sign_bit(&self)
        requires
            self.wf(),
            self.width() > 0,
        ensures
            self.bit((self.width() - 1) as nat) <==> self.value() >= pow2_of((self.width() - 1) as nat),
    {
        let ws = self.word_seq();
        let w = self.width();
        let n = ws.len();
        let k = (n - 1) as nat;
        let e = excess_for(w);
        let l = ws.last();
        assert(w == 64 * k + e);
        assert((w - 1) as nat / 64 == k && (w - 1) as nat % 64 == e - 1) by {
            super::lemma_split(k, (e - 1) as nat);
        }
        lemma_word_fits(l, e);
        lemma_words_value_bound(ws.drop_last());
        lemma_word_weight_step(k);
        lemma_pow2_adds(64 * k, (e - 1) as nat);
        lemma_pow2_adds((e - 1) as nat, 1);
        lemma2_to64();
        lemma2_to64_rest();
        lemma_u64_shr_is_div(l, (e - 1) as u64);
        let h = pow2_of((e - 1) as nat);
        lemma_pow2_pos((e - 1) as nat);
        let q = l >> ((e - 1) as u64);
        assert(e == 64 ==> (l as nat) < 2 * h);
        assert((l as nat) < 2 * h);
        assert(q as nat == l as nat / h);
        assert(q <= 1) by (nonlinear_arith)
            requires
                q as nat == l as nat / h,
                (l as nat) < 2 * h,
                h > 0,
        ;
        assert(q <= 1 ==> ((q & 1u64 == 1u64) <==> q == 1)) by (bit_vector);
        assert((q == 1) <==> (l as nat >= h)) by (nonlinear_arith)
            requires
                q as nat == l as nat / h,
                (l as nat) < 2 * h,
                h > 0,
        ;
        let p = words_value(ws.drop_last()) as int;
        let ww = word_weight(k) as int;
        let li = l as int;
        let hi = h as int;
        assert(self.bit((w - 1) as nat) == word_bit(l, (e - 1) as u64));
        assert(word_bit(l, (e - 1) as u64) == (q & 1u64 == 1u64));
        assert(pow2_of((w - 1) as nat) == ww * hi);
        assert(self.value() == p + li * ww);
        assert((li >= hi) <==> (p + li * ww >= ww * hi)) by (nonlinear_arith)
            requires
                0 <= p < ww,
                li >= 0,
                hi > 0,
        ;
    }

    /// Masks the last word to the width; reports whether anything was cut.
    fn trim(&mut self) -> (r: bool)
        requires
            old(self).word_seq().len() == words_for(old(self).width()),
        ensures
            final(self).wf(),
            final(self).width() == old(self).width(),
            final(self).value() == old(self).value() % pow2_of(old(self).width()),
            r == (old(self).value() >= pow2_of(old(self).width())),
    {
        let n = self.words.len();
        let ghost w = self.width();
        let ghost v = self.value();
        if n == 0 {
            proof {
                lemma2_to64();
            }
            return false;
        }
        let e = self.bit_width.excess_bits();
        let ghost k = (n - 1) as nat;
        assert(w == 64 * k + e);
        let l = self.words[n - 1];
        proof {
            lemma_words_value_bound(self.word_seq().drop_last());
            lemma_word_weight_step(k);
            lemma_pow2_adds(64 * k, e as nat);
        }
        if e == 64 {
            proof {
                lemma2_to64_rest();
                lemma_words_value_bound(self.word_seq());
                vstd::arithmetic::div_mod::lemma_small_mod(v, pow2_of(w));
            }
            return false;
        }
        let m = 1u64 << (e as u64);
        proof {
            vstd::bits::lemma_u64_pow2_no_overflow(e as nat);
            lemma_u64_shl_is_mul(1, e as u64);
            lemma_u64_shr_is_div(l, e as u64);
        }
        let lo = l % m;
        let hi = l >> (e as u64);
        self.words.set(n - 1, lo);
        proof {
            let pe = pow2_of(e as nat);
            assert(m as nat == pe);
            assert(l as nat == hi as nat * pe + lo as nat) by (nonlinear_arith)
                requires
                    hi as nat == l as nat / pe,
                    lo as nat == l as nat % pe,
                    pe > 0,
            ;
            lemma_word_fits(lo, e as nat);
            let before = old(self).word_seq();
            lemma_words_value_update(before, k as int, lo);
            assert(self.word_seq() == before.update(k as int, lo));
            let ww = word_weight(k);
            let p = words_value(before.drop_last());
            assert(before.update(k as int, lo).drop_last() =~= before.drop_last());
            let nv = self.value();
            assert(nv == p + lo as nat * ww);
            assert(v == p + l as nat * ww);
            assert(v == nv + hi as nat * pow2_of(w)) by (nonlinear_arith)
                requires
                    v == p + l as nat * ww,
                    nv == p + lo as nat * ww,
                    l as nat == hi as nat * pe + lo as nat,
                    pow2_of(w) == ww * pe,
            ;
            assert(nv < pow2_of(w)) by (nonlinear_arith)
                requires
                    nv == p + lo as nat * ww,
                    p < ww,
                    (lo as nat) < pe,
                    pow2_of(w) == ww * pe,
            ;
            lemma_fundamental_div_mod_converse(v as int, pow2_of(w) as int, hi as int, nv as int);
            assert((v >= pow2_of(w)) == (hi != 0)) by (nonlinear_arith)
                requires
                    v == nv + hi as nat * pow2_of(w),
                    nv < pow2_of(w),
            ;
        }
        hi != 0
    }

    /// Compares two integers of the same width as unsigned numbers.
    pub fn unsigned_cmp(&self, other: &Self) -> (r: Result<Ordering, MismatchedBitWidth>)
        requires
            self.wf(),
            other.wf(),
        ensures
            self.width() != other.width() ==> r is Err,
            self.width() == other.width() ==> r == Ok::<Ordering, MismatchedBitWidth>(
                ordering_of(self.value() as int, other.value() as int),
            ),
    {
        if self.bit_width.get() != other.bit_width.get() {
            return Err(MismatchedBitWidth {  });
        }
        let a = self.words();
        let b = other.words();
        let mut i = a.len();
        while i > 0
            invariant
                a@ == self.word_seq(),
                b@ == other.word_seq(),
                a@.len() == b@.len(),
                self.width() == other.width(),
                i <= a@.len(),
                forall|j: int| i <= j < a@.len() ==> a@[j] == b@[j],
            decreases i,
        {
            let x = a[i - 1];
            let y = b[i - 1];
            if x < y {
                proof {
                    lemma_words_value_order(a@, b@, i - 1);
                }
                return Ok(Ordering::Less);
            }
            if x > y {
                proof {
                    lemma_words_value_order(b@, a@, i - 1);
                }
                return Ok(Ordering::Greater);
            }
            i = i - 1;
        }
        assert(a@ =~= b@);
        Ok(Ordering::Equal)
    }

    /// Compares two integers of the same width as two's-complement numbers.
    pub fn signed_cmp(&self, other: &Self) -> (r: Result<Ordering, MismatchedBitWidth>)
        requires
            self.wf(),
            other.wf(),
        ensures
            self.width() != other.width() ==> r is Err,
            self.width() == other.width() ==> r == Ok::<Ordering, MismatchedBitWidth>(
                ordering_of(self.signed_value(), other.signed_value()),
            ),
    {
        if self.bit_width.get() != other.bit_width.get() {
            return Err(MismatchedBitWidth {  });
        }
        let sa = self.sign_bit();
        let sb = other.sign_bit();
        proof {
            self.lemma_value_bound();
            other.lemma_value_bound();
            if self.width() > 0 {
                self.lemma_sign_bit();
                other.lemma_sign_bit();
            }
        }
        if sa && !sb {
            return Ok(Ordering::Less);
        }
        if !sa && sb {
            return Ok(Ordering::Greater);
        }
        self.unsigned_cmp(other)
    }

    /// Adds `other` in place, wrapping at the width; `Ok` holds whether the sum overflowed.
    pub fn add_assign(&mut self, other: &Self) -> (r: Result<bool, MismatchedBitWidth>)
        requires
            old(self).wf(),
            other.wf(),
        ensures
            final(self).wf(),
            final(self).width() == old(self).width(),
            old(self).width() != other.width() ==> r is Err && final(self).value() == old(self).value(),
            old(self).width() == other.width() ==> r == Ok::<bool, MismatchedBitWidth>(
                old(self).value() + other.value() >= pow2_of(old(self).width()),
            ) && final(self).value() == (old(self).value() + other.value()) % pow2_of(old(self).width()),
    {
        if self.bit_width.get() != other.bit_width.get() {
            return Err(MismatchedBitWidth {  });
        }
        let ghost sa = self.word_seq();
        let ghost sb = other.word_seq();
        let ghost w = self.width();
        let n = self.words.len();
        let b = other.words();
        let mut carry: u64 = 0;
        let mut i: usize = 0;
        proof {
            lemma_word_weight_step(0);
        }
        while i < n
            invariant
                n == self.words@.len(),
                n == sa.len(),
                n == sb.len(),
                b@ == sb,
                self.bit_width == old(self).bit_width,
                i <= n,
                carry <= 1,
                words_value(self.words@.take(i as int)) + carry as nat * word_weight(i as nat) == words_value(
                    sa.take(i as int),
                ) + words_value(sb.take(i as int)),
                forall|j: int| i <= j < n ==> self.words@[j] == sa[j],
            decreases n - i,
        {
            let x = self.words[i];
            let t: u128 = x as u128 + b[i] as u128 + carry as u128;
            let lo = (t % 0x1_0000_0000_0000_0000) as u64;
            let c2 = (t / 0x1_0000_0000_0000_0000) as u64;
            let ghost prev = self.words@;
            self.words.set(i, lo);
            proof {
                let ii = i as int;
                assert(self.words@.take(ii) =~= prev.take(ii));
                lemma_words_value_take(self.words@, ii);
                lemma_words_value_take(sa, ii);
                lemma_words_value_take(sb, ii);
                lemma_word_weight_step(i as nat);
                lemma_carry_step(
                    words_value(prev.take(ii)),
                    carry as nat,
                    lo as nat,
                    c2 as nat,
                    t as nat,
                    word_weight(i as nat),
                    x as nat,
                    b@[ii] as nat,
                );
            }
            carry = c2;
            i = i + 1;
        }
        proof {
            assert(self.words@.take(n as int) =~= self.words@);
            assert(sa.take(n as int) =~= sa);
            assert(sb.take(n as int) =~= sb);
        }
        let ghost v = self.value();
        let cut = self.trim();
        proof {
            lemma_width_divides(w);
            let q = pow2_of((64 * words_for(w) - w) as nat);
            lemma_pow2_pos(w);
            lemma_mod_multiples_vanish((carry * q) as int, v as int, pow2_of(w) as int);
            assert(pow2_of(w) * (carry * q) == carry as nat * word_weight(n as nat)) by (nonlinear_arith)
                requires
                    word_weight(words_for(w)) == pow2_of(w) * q,
                    n == words_for(w),
            ;
            lemma_pow2_pos((64 * words_for(w) - w) as nat);
            assert(carry == 1 ==> word_weight(n as nat) >= pow2_of(w)) by (nonlinear_arith)
                requires
                    word_weight(words_for(w)) == pow2_of(w) * q,
                    n == words_for(w),
                    q > 0,
            ;
        }
        Ok(cut || carry != 0)
    }

    /// Subtracts `other` in place, wrapping at the width; `Ok` holds whether it borrowed.
    pub fn sub_assign(&mut self, other: &Self) -> (r: Result<bool, MismatchedBitWidth>)
        requires
            old(self).wf(),
            other.wf(),
        ensures
            final(self).wf(),
            final(self).width() == old(self).width(),
            old(self).width() != other.width() ==> r is Err && final(self).value() == old(self).value(),
            old(self).width() == other.width() ==> r == Ok::<bool, MismatchedBitWidth>(
                old(self).value() < other.value(),
            ) && final(self).value() == (old(self).value() - other.value()) % (pow2_of(old(self).width()) as int),
    {
        if self.bit_width.get() != other.bit_width.get() {
            return Err(MismatchedBitWidth {  });
        }
        let ghost sa = self.word_seq();
        let ghost sb = other.word_seq();
        let ghost w = self.width();
        let n = self.words.len();
        let b = other.words();
        let mut borrow: u64 = 0;
        let mut i: usize = 0;
        proof {
            lemma_word_weight_step(0);
        }
        while i < n
            invariant
                n == self.words@.len(),
                n == sa.len(),
                n == sb.len(),
                b@ == sb,
                self.bit_width == old(self).bit_width,
                i <= n,
                borrow <= 1,
                words_value(self.words@.take(i as int)) - borrow as nat * word_weight(i as nat) == words_value(
                    sa.take(i as int),
                ) - words_value(sb.take(i as int)),
                forall|j: int| i <= j < n ==> self.words@[j] == sa[j],
            decreases n - i,
        {
            let x = self.words[i];
            let t: i128 = x as i128 - b[i] as i128 - borrow as i128;
            let lo: u64;
            let b2: u64;
            if t < 0 {
                lo = (t + 0x1_0000_0000_0000_0000) as u64;
                b2 = 1;
            } else {
                lo = t as u64;
                b2 = 0;
            }
            let ghost prev = self.words@;
            self.words.set(i, lo);
            proof {
                let ii = i as int;
                assert(self.words@.take(ii) =~= prev.take(ii));
                lemma_words_value_take(self.words@, ii);
                lemma_words_value_take(sa, ii);
                lemma_words_value_take(sb, ii);
                lemma_word_weight_step(i as nat);
                let ww = word_weight(i as nat) as int;
                let pv = words_value(prev.take(ii)) as int;
                assert(pv + lo * ww - b2 * (ww * 0x1_0000_0000_0000_0000) == (pv - borrow * ww) + x * ww - b@[ii] * ww)
                    by (nonlinear_arith)
                    requires
                        lo as int - b2 as int * 0x1_0000_0000_0000_0000 == t as int,
                        t as int == x as int - b@[ii] as int - borrow as int,
                ;
            }
            borrow = b2;
            i = i + 1;
        }
        proof {
            assert(self.words@.take(n as int) =~= self.words@);
            assert(sa.take(n as int) =~= sa);
            assert(sb.take(n as int) =~= sb);
            lemma_words_value_bound(self.words@);
        }
        let ghost v = self.value();
        self.trim();
        proof {
            lemma_width_divides(w);
            let q = pow2_of((64 * words_for(w) - w) as nat);
            lemma_pow2_pos(w);
            let d = words_value(sa) - words_value(sb);
            lemma_mod_multiples_vanish((borrow * q) as int, d, pow2_of(w) as int);
            assert(pow2_of(w) * (borrow * q) == borrow as nat * word_weight(n as nat)) by (nonlinear_arith)
                requires
                    word_weight(words_for(w)) == pow2_of(w) * q,
                    n == words_for(w),
            ;
        }
        Ok(borrow != 0)
    }

    /// Adds a single word in place, wrapping at the width.
    pub fn add_unsigned_word(&mut self, x: u64)
        requires
            old(self).wf(),
        ensures
            final(self).wf(),
            final(self).width() == old(self).width(),
            final(self).value() == (old(self).value() + x as nat) % pow2_of(old(self).width()),
    {
        let ghost sa = self.word_seq();
        let ghost w = self.width();
        let n = self.words.len();
        if n == 0 {
            proof {
                lemma2_to64();
            }
            return;
        }
        let mut carry: u64 = 0;
        let mut i: usize = 0;
        proof {
            lemma_word_weight_step(0);
        }
        while i < n
            invariant
                n == self.words@.len(),
                n == sa.len(),
                n > 0,
                self.bit_width == old(self).bit_width,
                i <= n,
                carry <= 1,
                words_value(self.words@.take(i as int)) + carry as nat * word_weight(i as nat) == words_value(
                    sa.take(i as int),
                ) + if i > 0 { x as nat } else { 0nat },
                forall|j: int| i <= j < n ==> self.words@[j] == sa[j],
            decreases n - i,
        {
            let a = self.words[i];
            let add = if i == 0 { x } else { 0 };
            let t: u128 = a as u128 + add as u128 + carry as u128;
            let lo = (t % 0x1_0000_0000_0000_0000) as u64;
            let c2 = (t / 0x1_0000_0000_0000_0000) as u64;
            let ghost prev = self.words@;
            self.words.set(i, lo);
            proof {
                let ii = i as int;
                assert(self.words@.take(ii) =~= prev.take(ii));
                lemma_words_value_take(self.words@, ii);
                lemma_words_value_take(sa, ii);
                lemma_word_weight_step(i as nat);
                lemma_carry_step(
                    words_value(prev.take(ii)),
                    carry as nat,
                    lo as nat,
                    c2 as nat,
                    t as nat,
                    word_weight(i as nat),
                    a as nat,
                    add as nat,
                );
            }
            carry = c2;
            i = i + 1;
        }
        proof {
            assert(self.words@.take(n as int) =~= self.words@);
            assert(sa.take(n as int) =~= sa);
        }
        let ghost v = self.value();
        self.trim();
        proof {
            lemma_width_divides(w);
            let q = pow2_of((64 * words_for(w) - w) as nat);
            lemma_pow2_pos(w);
            lemma_mod_multiples_vanish((carry * q) as int, v as int, pow2_of(w) as int);
            assert(pow2_of(w) * (carry * q) == carry as nat * word_weight(n as nat)) by (nonlinear_arith)
                requires
                    word_weight(words_for(w)) == pow2_of(w) * q,
                    n == words_for(w),
            ;
        }
    }

    /// Replaces the value by its two's-complement negation.
    pub fn negate(&mut self)
        requires
            old(self).wf(),
        ensures
            final(self).wf(),
            final(self).width() == old(self).width(),
            final(self).value() == (0 - old(self).value()) % (pow2_of(old(self).width()) as int),
    {
        let mut z = ApInt::all_unset(self.bit_width);
        let _ = z.sub_assign(self);
        *self = z;
    }

    /// The sum, wrapping at the width.
    pub fn into_add(self, other: &Self) -> (r: Result<Self, MismatchedBitWidth>)
        requires
            self.wf(),
            other.wf(),
        ensures
            self.width() != other.width() ==> r is Err,
            self.width() == other.width() ==> r is Ok && r->Ok_0.wf() && r->Ok_0.width() == self.width()
                && r->Ok_0.value() == (self.value() + other.value()) % pow2_of(self.width()),
    {
        let mut r = self;
        match r.add_assign(other) {
            Ok(_) => Ok(r),
            Err(e) => Err(e),
        }
    }

    /// The difference, wrapping at the width.
    pub fn into_sub(self, other: &Self) -> (r: Result<Self, MismatchedBitWidth>)
        requires
            self.wf(),
            other.wf(),
        ensures
            self.width() != other.width() ==> r is Err,
            self.width() == other.width() ==> r is Ok && r->Ok_0.wf() && r->Ok_0.width() == self.width()
                && r->Ok_0.value() == (self.value() - other.value()) % (pow2_of(self.width()) as int),
    {
        let mut r = self;
        match r.sub_assign(other) {
            Ok(_) => Ok(r),
            Err(e) => Err(e),
        }
    }
}

impl PartialEq for ApInt {
    fn eq(&self, other: &ApInt) -> (r: bool) {
        if self.bit_width.get() != other.bit_width.get() {
            return false;
        }
        let a = self.words();
        let b = other.words();
        if a.len() != b.len() {
            return false;
        }
        let mut i: usize = 0;
        while i < a.len()
            invariant
                a@ == self.word_seq(),
                b@ == other.word_seq(),
                a@.len() == b@.len(),
                self.width() == other.width(),
                i <= a@.len(),
                forall|j: int| 0 <= j < i ==> a@[j] == b@[j],
            decreases a@.len() - i,
        {
            if a[i] != b[i] {
                return false;
            }
            i = i + 1;
        }
        assert(a@ =~= b@);
        true
    }
}

impl vstd::std_specs::cmp::PartialEqSpecImpl for ApInt {
    open spec fn obeys_eq_spec() -> bool {
        true
    }

    open spec fn eq_spec(&self, other: &ApInt) -> bool {
        self.width() == other.width() && self.word_seq() == other.word_seq()
    }
}

impl Eq for ApInt {

}

/// Same as `into_add`, for operands of the same width.
impl<'a> core::ops::Add<&'a ApInt> for ApInt {
    type Output = ApInt;

    fn add(self, rhs: &'a ApInt) -> (r: ApInt) {
        self.into_add(rhs).unwrap()
    }
}

impl<'a> vstd::std_specs::ops::AddSpecImpl<&'a ApInt> for ApInt {
    open spec fn obeys_add_spec() -> bool {
        false
    }

    open spec fn add_req(self, rhs: &'a ApInt) -> bool {
        self.wf() && rhs.wf() && self.width() == rhs.width()
    }

    open spec fn add_spec(self, rhs: &'a ApInt) -> ApInt {
        self
    }
}

/// Same as `into_sub`, for operands of the same width.
impl<'a> core::ops::Sub<&'a ApInt> for ApInt {
    type Output = ApInt;

    fn sub(self, rhs: &'a ApInt) -> (r: ApInt) {
        self.into_sub(rhs).unwrap()
    }
}

impl<'a> vstd::std_specs::ops::SubSpecImpl<&'a ApInt> for ApInt {
    open spec fn obeys_sub_spec() -> bool {
        false
    }

    open spec fn sub_req(self, rhs: &'a ApInt) -> bool {
        self.wf() && rhs.wf() && self.width() == rhs.width()
    }

    open spec fn sub_spec(self, rhs: &'a ApInt) -> ApInt {
        self
    }
}

} // verus!
