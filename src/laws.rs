use vstd::prelude::*;

use crate::cache::{InternKey, TypeCache};
use crate::ctx::Context;
use crate::types::{ArrayTy, IntegerTy, StructTy};
use crate::value::IntRef;

verus! {

/// In a cache, a logical key names at most one record: records with equal keys are one.
pub proof fn lemma_key_names_one_record<T: InternKey>(c: &TypeCache<T>, i: int, j: int)
    requires
        c.wf(),
        0 <= i < c.len(),
        0 <= j < c.len(),
        c.key_at(i) == c.key_at(j),
    ensures
        i == j,
{
    c.lemma_distinct();
}

/// Canonicalization in one cache: a record found in an earlier state and a record found now
/// under the same logical key are the same record, whatever was added in between.
pub proof fn lemma_requests_agree<T: InternKey>(before: &TypeCache<T>, now: &TypeCache<T>, i: int, j: int)
    requires
        now.wf(),
        now.extends(before),
        0 <= i < before.len(),
        0 <= j < now.len(),
        before.key_at(i) == now.key_at(j),
    ensures
        i == j,
{
    assert(now.items()[i] == before.items()[i]);
    lemma_key_names_one_record(now, i, j);
}

/// Canonicalization: requests for one array type give one handle, whatever came between.
///
/// `a` was returned in an earlier state `before`, `b` in the current state `now`, and both
/// name an array of the same item type and length: they are the same handle.
pub proof fn lemma_array_requests_agree<'ctx>(before: &Context<'ctx>, now: &Context<'ctx>, a: ArrayTy<'ctx>, b: ArrayTy<'ctx>)
    requires
        now.wf(),
        now.extends(before),
        a@ < before.types().arrays().len(),
        b@ < now.types().arrays().len(),
        before.types().arrays().key_at(a@ as int) == now.types().arrays().key_at(b@ as int),
    ensures
        a@ == b@,
{
    now.types().lemma_caches_wf();
    lemma_requests_agree(&before.types().arrays(), &now.types().arrays(), a@ as int, b@ as int);
}

/// Canonicalization for every shape: in a well-formed context no two type records of one
/// shape, and no two constant records of one shape, share a logical key.
pub proof fn lemma_context_canonical<'ctx>(ctx: &Context<'ctx>)
    requires
        ctx.wf(),
    ensures
        ctx.types().ints().distinct(),
        ctx.types().pointers().distinct(),
        ctx.types().functions().distinct(),
        ctx.types().arrays().distinct(),
        ctx.types().structs().distinct(),
        ctx.types().floats().distinct(),
        ctx.values().integers().distinct(),
        ctx.values().zero_values().distinct(),
        ctx.values().const_ints().distinct(),
{
    ctx.types().lemma_caches_wf();
    ctx.values().lemma_caches_wf(&ctx.types());
    ctx.types().ints().lemma_distinct();
    ctx.types().pointers().lemma_distinct();
    ctx.types().functions().lemma_distinct();
    ctx.types().arrays().lemma_distinct();
    ctx.types().structs().lemma_distinct();
    ctx.types().floats().lemma_distinct();
    ctx.values().integers().lemma_distinct();
    ctx.values().zero_values().lemma_distinct();
    ctx.values().const_ints().lemma_distinct();
}

/// Singleton stability: two integer types of one width are one handle, so `int_ty(8)` is the
/// pre-built `i8`.
pub proof fn lemma_integer_width_names_one_type<'ctx>(ctx: &Context<'ctx>, a: IntegerTy<'ctx>, b: IntegerTy<'ctx>)
    requires
        ctx.wf(),
        a@ < ctx.types().ints().len(),
        b@ < ctx.types().ints().len(),
        ctx.types().int_bits(a@) == ctx.types().int_bits(b@),
    ensures
        a@ == b@,
{
    ctx.types().lemma_caches_wf();
    lemma_key_names_one_record(&ctx.types().ints(), a@ as int, b@ as int);
}

/// Structural equality of struct types: two struct handles are equal exactly when their
/// names, flags and field types are.
pub proof fn lemma_struct_identity<'ctx>(ctx: &Context<'ctx>, a: StructTy<'ctx>, b: StructTy<'ctx>)
    requires
        ctx.wf(),
        a@ < ctx.types().structs().len(),
        b@ < ctx.types().structs().len(),
    ensures
        (a@ == b@) <==> (ctx.types().structs().key_at(a@ as int) == ctx.types().structs().key_at(b@ as int)),
{
    ctx.types().lemma_caches_wf();
    if ctx.types().structs().key_at(a@ as int) == ctx.types().structs().key_at(b@ as int) {
        lemma_key_names_one_record(&ctx.types().structs(), a@ as int, b@ as int);
    }
}

/// Interning by value: two integer references of a context that stand for the same number
/// are the same reference, so equal numbers share one table entry (and 0 and 1 none).
pub proof fn lemma_equal_numbers_share_storage<'ctx>(ctx: &Context<'ctx>, a: IntRef<'ctx>, b: IntRef<'ctx>)
    requires
        ctx.wf(),
        ctx.values().valid_ref(a),
        ctx.values().valid_ref(b),
        ctx.values().ref_value(a) == ctx.values().ref_value(b),
    ensures
        a@ == b@,
{
    ctx.values().lemma_caches_wf(&ctx.types());
    ctx.values().lemma_interned_numbers(&ctx.types());
    a.lemma_kinds();
    b.lemma_kinds();
    let ints = ctx.values().integers();
    if a@.0 == 2 && b@.0 == 2 {
        let x = ints.items()[a@.1 as int];
        let y = ints.items()[b@.1 as int];
        x.lemma_value_determines_key(&y);
        lemma_key_names_one_record(&ints, a@.1 as int, b@.1 as int);
    }
}

} // verus!
