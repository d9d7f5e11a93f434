use vstd::prelude::*;
use vstd::arithmetic::power2::*;

verus! {

/// 2^64, the number of distinct values of one word.
pub open spec fn word_base() -> nat {
    0x1_0000_0000_0000_0000
}

/// Place value of the word at index `k`: 2^(64 k).
pub open spec fn word_weight(k: nat) -> nat {
    pow2(64 * k)
}

/// Unsigned value of a little-endian sequence of words.
pub open spec fn words_value(ws: Seq<u64>) -> nat
    decreases ws.len(),
{
    if ws.len() == 0 {
        0
    } else {
        words_value(ws.drop_last()) + ws.last() as nat * word_weight((ws.len() - 1) as nat)
    }
}

pub proof fn lemma_word_weight_step(k: nat)
    ensures
        word_weight(k + 1) == word_weight(k) * word_base(),
        word_weight(k) > 0,
        word_weight(0) == 1,
        word_weight(1) == word_base(),
{
    lemma_pow2_adds(64 * k, 64);
    assert(64 * (k + 1) == 64 * k + 64) by (nonlinear_arith);
    lemma2_to64();
    lemma2_to64_rest();
    lemma_pow2_pos(64 * k);
}

pub proof fn lemma_words_value_bound(ws: Seq<u64>)
    ensures
        words_value(ws) < word_weight(ws.len()),
    decreases ws.len(),
{
    lemma_word_weight_step(0);
    if ws.len() > 0 {
        let k = (ws.len() - 1) as nat;
        lemma_words_value_bound(ws.drop_last());
        lemma_word_weight_step(k);
        let p = words_value(ws.drop_last()) as int;
        let l = ws.last() as int;
        let w = word_weight(k) as int;
        assert(l * w <= 0xffff_ffff_ffff_ffff * w) by (nonlinear_arith)
            requires
                w > 0,
                0 <= l <= 0xffff_ffff_ffff_ffff,
        ;
    }
}

/// Adding one word at the top of a sequence adds its weighted value.
pub proof fn lemma_words_value_push(ws: Seq<u64>, x: u64)
    ensures
        words_value(ws.push(x)) == words_value(ws) + x as nat * word_weight(ws.len()),
{
    assert(ws.push(x).drop_last() =~= ws);
}

/// The value of the first `i + 1` words extends the value of the first `i`.
pub proof fn lemma_words_value_take(ws: Seq<u64>, i: int)
    requires
        0 <= i < ws.len(),
    ensures
        words_value(ws.take(i + 1)) == words_value(ws.take(i)) + ws[i] as nat * word_weight(i as nat),
{
    assert(ws.take(i + 1).drop_last() =~= ws.take(i));
}

/// Replacing one word changes the value by the weighted difference.
pub proof fn lemma_words_value_update(ws: Seq<u64>, i: int, x: u64)
    requires
        0 <= i < ws.len(),
    ensures
        words_value(ws.update(i, x)) + ws[i] as nat * word_weight(i as nat) == words_value(ws) + x as nat
            * word_weight(i as nat),
    decreases ws.len(),
{
    let u = ws.update(i, x);
    if i == ws.len() - 1 {
        assert(u.drop_last() =~= ws.drop_last());
    } else {
        assert(u.drop_last() =~= ws.drop_last().update(i, x));
        lemma_words_value_update(ws.drop_last(), i, x);
    }
}

/// Words that agree above index `i` and differ at `i` are ordered by that word.
pub proof fn lemma_words_value_order(a: Seq<u64>, b: Seq<u64>, i: int)
    requires
        a.len() == b.len(),
        0 <= i < a.len(),
        forall|j: int| i < j < a.len() ==> a[j] == b[j],
        a[i] < b[i],
    ensures
        words_value(a) < words_value(b),
    decreases a.len(),
{
    let k = (a.len() - 1) as nat;
    if i == a.len() - 1 {
        lemma_words_value_bound(a.drop_last());
        let p = words_value(a.drop_last()) as int;
        let q = words_value(b.drop_last()) as int;
        let w = word_weight(k) as int;
        let x = a.last() as int;
        let y = b.last() as int;
        assert(p + x * w < q + y * w) by (nonlinear_arith)
            requires
                0 <= p < w,
                0 <= q,
                x < y,
        ;
    } else {
        lemma_words_value_order(a.drop_last(), b.drop_last(), i);
    }
}

/// Words that are all zero have value zero, and only those.
pub proof fn lemma_words_value_zero(ws: Seq<u64>)
    ensures
        (words_value(ws) == 0) <==> (forall|j: int| 0 <= j < ws.len() ==> ws[j] == 0),
    decreases ws.len(),
{
    if ws.len() > 0 {
        let k = (ws.len() - 1) as nat;
        lemma_words_value_zero(ws.drop_last());
        lemma_word_weight_step(k);
        let w = word_weight(k) as int;
        let x = ws.last() as int;
        assert(x * w == 0 <==> x == 0) by (nonlinear_arith)
            requires
                w > 0,
                x >= 0,
        ;
        if words_value(ws) == 0 {
            assert forall|j: int| 0 <= j < ws.len() implies ws[j] == 0 by {
                if j < ws.len() - 1 {
                    assert(ws.drop_last()[j] == ws[j]);
                }
            }
        }
        if forall|j: int| 0 <= j < ws.len() ==> ws[j] == 0 {
            assert forall|j: int| 0 <= j < ws.drop_last().len() implies ws.drop_last()[j] == 0 by {
                assert(ws[j] == 0);
            }
        }
    }
}

} // verus!

verus! {

/// Two word sequences of one length with one value are the same sequence.
pub proof fn lemma_words_value_injective(a: Seq<u64>, b: Seq<u64>)
    requires
        a.len() == b.len(),
        words_value(a) == words_value(b),
    ensures
        a == b,
    decreases a.len(),
{
    if a.len() > 0 {
        let k = (a.len() - 1) as nat;
        lemma_words_value_bound(a.drop_last());
        lemma_words_value_bound(b.drop_last());
        lemma_word_weight_step(k);
        let w = word_weight(k) as int;
        vstd::arithmetic::div_mod::lemma_fundamental_div_mod_converse(
            words_value(a) as int,
            w,
            a.last() as int,
            words_value(a.drop_last()) as int,
        );
        vstd::arithmetic::div_mod::lemma_fundamental_div_mod_converse(
            words_value(b) as int,
            w,
            b.last() as int,
            words_value(b.drop_last()) as int,
        );
        lemma_words_value_injective(a.drop_last(), b.drop_last());
        assert(a =~= a.drop_last().push(a.last()));
        assert(b =~= b.drop_last().push(b.last()));
    } else {
        assert(a =~= b);
    }
}

/// Word sequences without a zero top word have different values when their lengths differ.
pub proof fn lemma_words_value_length(a: Seq<u64>, b: Seq<u64>)
    requires
        a.len() < b.len(),
        b.last() != 0,
    ensures
        words_value(a) < words_value(b),
{
    let k = (b.len() - 1) as nat;
    lemma_words_value_bound(a);
    lemma_word_weight_step(k);
    if a.len() < k {
        vstd::arithmetic::power2::lemma_pow2_strictly_increases(64 * a.len(), 64 * k);
    }
    let w = word_weight(k) as int;
    let l = b.last() as int;
    assert(l * w >= w) by (nonlinear_arith)
        requires
            l >= 1,
            w > 0,
    ;
}

} // verus!
