use vstd::prelude::*;
use vstd::arithmetic::power2::{lemma2_to64, lemma2_to64_rest, lemma_pow2_adds, lemma_pow2_pos, pow2};
use vstd::bits::lemma_u64_shr_is_div;
use vstd::std_specs::bits::{axiom_u64_leading_zeros, u64_leading_zeros};

use crate::cache::InternKey;
use crate::words::{
    lemma_word_weight_step, lemma_words_value_bound, lemma_words_value_take, lemma_words_value_zero, word_weight,
    words_value,
};

verus! {

/// Words whose top words are all zero have the value of the words below them.
proof fn lemma_drop_zero_top(ws: Seq<u64>, k: int)
    requires
        0 <= k <= ws.len(),
        forall|j: int| k <= j < ws.len() ==> ws[j] == 0,
    ensures
        words_value(ws) == words_value(ws.take(k)),
    decreases ws.len(),
{
    if k < ws.len() {
        lemma_drop_zero_top(ws.drop_last(), k);
        assert(ws.drop_last().take(k) =~= ws.take(k));
    } else {
        assert(ws.take(k) =~= ws);
    }
}

/// Number of significant bits of the number that little-endian `ws` hold.
fn limbs_bits(ws: &[u64]) -> (r: u64)
    requires
        ws@.len() < 0x1_0000_0000,
    ensures
        words_value(ws@) < pow2(r as nat),
        r == 0 || words_value(ws@) >= pow2((r - 1) as nat),
        r <= 64 * ws@.len(),
{
    let mut k: usize = ws.len();
    while k > 0
        invariant
            k <= ws@.len(),
            ws@.len() < 0x1_0000_0000,
            forall|j: int| k <= j < ws@.len() ==> ws@[j] == 0,
        decreases k,
    {
        let w = ws[k - 1];
        if w != 0 {
            let lz = w.leading_zeros() as u64;
            let ghost c = (k - 1) as nat;
            proof {
                axiom_u64_leading_zeros(w);
            }
            let r = 64 * (k as u64 - 1) + 64 - lz;
            proof {
                lemma_drop_zero_top(ws@, k as int);
                lemma_words_value_take(ws@, c as int);
                assert(ws@.take(k as int).drop_last() =~= ws@.take(c as int));
                lemma_words_value_bound(ws@.take(c as int));
                lemma_word_weight_step(c);
                let lo = (63 - lz) as nat;
                lemma_u64_shr_is_div(w, lo as u64);
                lemma_pow2_pos(lo);
                assert(forall|x: u64| x & 1u64 != 0u64 ==> #[trigger] (x & 1u64) != 0u64 && x != 0u64) by (bit_vector);
                assert(w >> (lo as u64) != 0);
                assert(w as nat >= pow2(lo)) by (nonlinear_arith)
                    requires
                        (w as nat) / pow2(lo) != 0,
                        pow2(lo) > 0,
                ;
                if lz > 0 {
                    lemma_u64_shr_is_div(w, (64 - lz) as u64);
                    lemma_pow2_pos((64 - lz) as nat);
                    assert(w as nat / pow2((64 - lz) as nat) == 0);
                    assert((w as nat) < pow2((64 - lz) as nat)) by (nonlinear_arith)
                        requires
                            (w as nat) / pow2((64 - lz) as nat) == 0,
                            pow2((64 - lz) as nat) > 0,
                    ;
                } else {
                    lemma2_to64_rest();
                }
                let hi = (64 - lz) as nat;
                lemma_pow2_adds(64 * c, lo);
                lemma_pow2_adds(64 * c, hi);
                assert(r == 64 * c + hi);
                assert(r - 1 == 64 * c + lo);
                let p = words_value(ws@.take(c as int)) as int;
                let ww = word_weight(c) as int;
                let wi = w as int;
                let a = pow2(lo) as int;
                let b = pow2(hi) as int;
                assert(p + wi * ww < ww * b && p + wi * ww >= ww * a) by (nonlinear_arith)
                    requires
                        0 <= p < ww,
                        a <= wi < b,
                ;
            }
            return r;
        }
        k = k - 1;
    }
    proof {
        lemma_words_value_zero(ws@);
        lemma2_to64();
    }
    0
}

/// The number held by `ws`, less one.
fn minus_one(ws: &[u64]) -> (r: Vec<u64>)
    requires
        words_value(ws@) >= 1,
    ensures
        r@.len() == ws@.len(),
        words_value(r@) == words_value(ws@) - 1,
{
    let n = ws.len();
    let mut r: Vec<u64> = Vec::new();
    let mut borrow: u64 = 1;
    let mut i: usize = 0;
    proof {
        lemma_word_weight_step(0);
    }
    while i < n
        invariant
            n == ws@.len(),
            i <= n,
            r@.len() == i,
            borrow <= 1,
            words_value(r@) - borrow as int * word_weight(i as nat) == words_value(ws@.take(i as int)) - 1,
        decreases n - i,
    {
        let x = ws[i];
        let (lo, b2): (u64, u64) = if x < borrow {
            (u64::MAX, 1)
        } else {
            (x - borrow, 0)
        };
        proof {
            lemma_words_value_take(ws@, i as int);
            lemma_words_value_take(r@.push(lo), i as int);
            assert(r@.push(lo).take(i as int) =~= r@);
            assert(r@.push(lo).take(i + 1) =~= r@.push(lo));
            lemma_word_weight_step(i as nat);
            let ww = word_weight(i as nat) as int;
            assert(lo as int - b2 as int * 0x1_0000_0000_0000_0000 == x as int - borrow as int);
            assert(lo as int * ww - b2 as int * (ww * 0x1_0000_0000_0000_0000) == x as int * ww - borrow as int * ww)
                by (nonlinear_arith)
                requires
                    lo as int - b2 as int * 0x1_0000_0000_0000_0000 == x as int - borrow as int,
            ;
        }
        r.push(lo);
        borrow = b2;
        i = i + 1;
    }
    proof {
        assert(ws@.take(n as int) =~= ws@);
        lemma_words_value_bound(ws@);
        lemma_words_value_bound(r@);
        if borrow == 1 {
            lemma_word_weight_step(n as nat);
        }
    }
    r
}

/// An arbitrary-precision integer: a sign and the little-endian words of the magnitude.
///
/// The top word of the magnitude is never zero, and zero is not negative, so each number
/// has exactly one representation.
#[derive(Debug)]
pub struct BigInt {
    negative: bool,
    magnitude: Vec<u64>,
}

impl BigInt {
    pub closed spec fn spec_negative(&self) -> bool {
        self.negative
    }

    pub closed spec fn limbs(&self) -> Seq<u64> {
        self.magnitude@
    }

    pub open spec fn magnitude_value(&self) -> nat {
        words_value(self.limbs())
    }

    pub open spec fn value(&self) -> int {
        if self.spec_negative() {
            -self.magnitude_value()
        } else {
            self.magnitude_value() as int
        }
    }

    pub open spec fn wf(&self) -> bool {
        &&& self.limbs().len() == 0 || self.limbs().last() != 0
        &&& self.spec_negative() ==> self.limbs().len() > 0
        &&& self.limbs().len() < 0x1_0000_0000
    }

    /// A number has one well-formed representation.
    pub proof fn lemma_value_determines_key(&self, other: &Self)
        requires
            self.wf(),
            other.wf(),
            self.value() == other.value(),
        ensures
            self.key() == other.key(),
    {
        let a = self.limbs();
        let b = other.limbs();
        lemma_words_value_zero(a);
        lemma_words_value_zero(b);
        if a.len() > 0 {
            assert(a[a.len() - 1] != 0);
        }
        if b.len() > 0 {
            assert(b[b.len() - 1] != 0);
        }
        assert(words_value(a) == words_value(b));
        if a.len() < b.len() {
            crate::words::lemma_words_value_length(a, b);
        } else if b.len() < a.len() {
            crate::words::lemma_words_value_length(b, a);
        } else {
            crate::words::lemma_words_value_injective(a, b);
        }
    }

    /// Builds a number from a sign and little-endian magnitude words.
    pub fn from_limbs(negative: bool, limbs: Vec<u64>) -> (r: Self)
        requires
            limbs@.len() < 0x1_0000_0000,
        ensures
            r.wf(),
            r.value() == (if negative { -words_value(limbs@) } else { words_value(limbs@) as int }),
    {
        let mut m = limbs;
        let ghost orig = m@;
        while m.len() > 0 && m[m.len() - 1] == 0
            invariant
                m@.len() <= orig.len(),
                m@ == orig.take(m@.len() as int),
                forall|j: int| m@.len() <= j < orig.len() ==> orig[j] == 0,
            decreases m@.len(),
        {
            m.pop();
            assert(m@ =~= orig.take(m@.len() as int));
        }
        proof {
            lemma_drop_zero_top(orig, m@.len() as int);
            lemma_words_value_zero(m@);
        }
        let neg = negative && m.len() > 0;
        BigInt { negative: neg, magnitude: m }
    }

    pub fn zero() -> (r: Self)
        ensures
            r.wf(),
            r.value() == 0,
    {
        BigInt { negative: false, magnitude: Vec::new() }
    }

    pub fn from_u64(x: u64) -> (r: Self)
        ensures
            r.wf(),
            r.value() == x,
    {
        proof {
            lemma_word_weight_step(0);
            assert(words_value(Seq::<u64>::empty()) == 0);
            crate::words::lemma_words_value_push(Seq::<u64>::empty(), x);
            assert(Seq::<u64>::empty().push(x) =~= seq![x]);
            assert(words_value(seq![x]) == x);
        }
        let v = vec![x];
        assert(v@ =~= seq![x]);
        Self::from_limbs(false, v)
    }

    pub fn from_i64(x: i64) -> (r: Self)
        ensures
            r.wf(),
            r.value() == x,
    {
        let m: u64 = if x < 0 { (-(x as i128)) as u64 } else { x as u64 };
        proof {
            lemma_word_weight_step(0);
            assert(words_value(Seq::<u64>::empty()) == 0);
            crate::words::lemma_words_value_push(Seq::<u64>::empty(), m);
            assert(Seq::<u64>::empty().push(m) =~= seq![m]);
            assert(words_value(seq![m]) == m);
        }
        let v = vec![m];
        assert(v@ =~= seq![m]);
        Self::from_limbs(x < 0, v)
    }

    pub fn is_negative(&self) -> (r: bool)
        requires
            self.wf(),
        ensures
            r == (self.value() < 0),
    {
        proof {
            lemma_words_value_zero(self.limbs());
        }
        self.negative
    }

    /// Whether the number is 0.
    pub fn is_zero(&self) -> (r: bool)
        requires
            self.wf(),
        ensures
            r == (self.value() == 0),
    {
        proof {
            lemma_words_value_zero(self.limbs());
        }
        self.magnitude.len() == 0
    }

    /// Whether the number is 1.
    pub fn is_one(&self) -> (r: bool)
        requires
            self.wf(),
        ensures
            r == (self.value() == 1),
    {
        proof {
            let ws = self.limbs();
            if ws.len() > 0 {
                lemma_words_value_bound(ws.drop_last());
                lemma_word_weight_step((ws.len() - 1) as nat);
                lemma_word_weight_step(1);
                if ws.len() > 1 {
                    lemma_word_weight_step((ws.len() - 2) as nat);
                    let k = (ws.len() - 1) as nat;
                    assert(word_weight(k) >= word_weight(1)) by {
                        if k > 1 {
                            vstd::arithmetic::power2::lemma_pow2_strictly_increases(64, 64 * k);
                        }
                    }
                    let l = ws.last() as int;
                    let ww = word_weight(k) as int;
                    assert(l * ww >= ww) by (nonlinear_arith)
                        requires
                            l >= 1,
                            ww > 0,
                    ;
                }
                if ws.len() == 1 {
                    assert(ws.drop_last() =~= Seq::<u64>::empty());
                    assert(words_value(Seq::<u64>::empty()) == 0);
                    assert(words_value(ws) == ws[0]);
                }
            }
            lemma_words_value_zero(ws);
            if ws.len() > 0 {
                assert(ws[ws.len() - 1] != 0);
            }
        }
        !self.negative && self.magnitude.len() == 1 && self.magnitude[0] == 1
    }

    /// Number of bits of the absolute value.
    pub fn significant_bits(&self) -> (r: u64)
        requires
            self.wf(),
        ensures
            self.magnitude_value() < pow2(r as nat),
            r == 0 || self.magnitude_value() >= pow2((r - 1) as nat),
    {
        limbs_bits(self.magnitude.as_slice())
    }

    /// Number of bits of the two's-complement form.
    pub fn signed_bits(&self) -> (r: u64)
        requires
            self.wf(),
        ensures
            r >= 1,
            -pow2((r - 1) as nat) <= self.value() < pow2((r - 1) as nat),
            r == 1 || !(-pow2((r - 2) as nat) <= self.value() < pow2((r - 2) as nat)),
    {
        proof {
            lemma_words_value_zero(self.limbs());
        }
        let b = if self.negative {
            let m = minus_one(self.magnitude.as_slice());
            limbs_bits(m.as_slice())
        } else {
            limbs_bits(self.magnitude.as_slice())
        };
        proof {
            lemma_pow2_pos(b as nat);
            if b > 0 {
                lemma_pow2_pos((b - 1) as nat);
            }
        }
        b + 1
    }
}

impl InternKey for BigInt {
    type Key = (bool, Seq<u64>);

    open spec fn key(&self) -> (bool, Seq<u64>) {
        (self.spec_negative(), self.limbs())
    }

    open spec fn key_hash_words(k: (bool, Seq<u64>)) -> Seq<u64> {
        seq![if k.0 { 1u64 } else { 0u64 }] + k.1
    }

    fn hash_words(&self) -> (r: Vec<u64>) {
        let mut r: Vec<u64> = Vec::new();
        r.push(if self.negative { 1 } else { 0 });
        let mut i: usize = 0;
        while i < self.magnitude.len()
            invariant
                i <= self.magnitude@.len(),
                r@ == seq![if self.negative { 1u64 } else { 0u64 }] + self.magnitude@.take(i as int),
            decreases self.magnitude@.len() - i,
        {
            r.push(self.magnitude[i]);
            i = i + 1;
            assert(r@ =~= seq![if self.negative { 1u64 } else { 0u64 }] + self.magnitude@.take(i as int));
        }
        assert(self.magnitude@.take(i as int) =~= self.magnitude@);
        r
    }

    fn same_key(&self, other: &Self) -> (r: bool) {
        if self.negative != other.negative || self.magnitude.len() != other.magnitude.len() {
            return false;
        }
        let mut i: usize = 0;
        while i < self.magnitude.len()
            invariant
                self.magnitude@.len() == other.magnitude@.len(),
                i <= self.magnitude@.len(),
                forall|j: int| 0 <= j < i ==> self.magnitude@[j] == other.magnitude@[j],
            decreases self.magnitude@.len() - i,
        {
            if self.magnitude[i] != other.magnitude[i] {
                return false;
            }
            i = i + 1;
        }
        assert(self.magnitude@ =~= other.magnitude@);
        true
    }
}

} // verus!
