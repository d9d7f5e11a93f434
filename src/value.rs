use vstd::prelude::*;
use vstd::arithmetic::power2::{lemma_pow2_pos, lemma_pow2_strictly_increases, pow2};

use crate::bigint::BigInt;
use crate::cache::{InternKey, TypeCache};
use crate::ctx::TypeContext;
use crate::types::{Brand, IntegerTy, Type, TypeTag};

verus! {

/// Which concrete shape a value handle points to.
#[derive(Clone, Copy, PartialEq, Eq, Hash, Debug, Structural)]
pub enum ValueTag {
    ConstAggrZero,
    ConstInt,
}

/// A constant value of any shape: its tag and the index of its record.
#[derive(Clone, Copy, Debug, Hash)]
pub struct Value<'ctx> {
    tag: ValueTag,
    index: usize,
    brand: Brand<'ctx>,
}

impl<'ctx> View for Value<'ctx> {
    type V = (ValueTag, nat);

    closed spec fn view(&self) -> (ValueTag, nat) {
        (self.tag, self.index as nat)
    }
}

impl<'ctx> Value<'ctx> {
    pub fn tag(&self) -> (r: ValueTag)
        ensures
            r == self@.0,
    {
        self.tag
    }

    /// The concrete handle behind this value, picked by its tag.
    pub fn unpack(self) -> (r: UnpackedValue<'ctx>)
        ensures
            r.erase_spec() == self@,
    {
        match self.tag {
            ValueTag::ConstAggrZero => UnpackedValue::ConstAggrZero(ConstAggrZero { index: self.index, brand: self.brand }),
            ValueTag::ConstInt => UnpackedValue::ConstInt(ConstInt { index: self.index, brand: self.brand }),
        }
    }
}

impl<'ctx> PartialEq for Value<'ctx> {
    fn eq(&self, other: &Value<'ctx>) -> (r: bool) {
        self.tag == other.tag && self.index == other.index
    }
}

impl<'ctx> vstd::std_specs::cmp::PartialEqSpecImpl for Value<'ctx> {
    open spec fn obeys_eq_spec() -> bool {
        true
    }

    open spec fn eq_spec(&self, other: &Value<'ctx>) -> bool {
        self@ == other@
    }
}

impl<'ctx> Eq for Value<'ctx> {

}

/// The all-zero value of a type.
#[derive(Clone, Copy, Debug, Hash)]
pub struct ConstAggrZero<'ctx> {
    index: usize,
    brand: Brand<'ctx>,
}

/// An integer constant of an integer type.
#[derive(Clone, Copy, Debug, Hash)]
pub struct ConstInt<'ctx> {
    index: usize,
    brand: Brand<'ctx>,
}

impl<'ctx> View for ConstAggrZero<'ctx> {
    type V = nat;

    closed spec fn view(&self) -> nat {
        self.index as nat
    }
}

impl<'ctx> View for ConstInt<'ctx> {
    type V = nat;

    closed spec fn view(&self) -> nat {
        self.index as nat
    }
}

impl<'ctx> ConstAggrZero<'ctx> {
    pub fn tag(self) -> (r: ValueTag)
        ensures
            r == ValueTag::ConstAggrZero,
    {
        ValueTag::ConstAggrZero
    }

    pub(crate) fn index(self) -> (r: usize)
        ensures
            r == self@,
    {
        self.index
    }

    pub fn erase(self) -> (r: Value<'ctx>)
        ensures
            r@ == (ValueTag::ConstAggrZero, self@),
    {
        Value { tag: ValueTag::ConstAggrZero, index: self.index, brand: self.brand }
    }
}

impl<'ctx> ConstInt<'ctx> {
    pub fn tag(self) -> (r: ValueTag)
        ensures
            r == ValueTag::ConstInt,
    {
        ValueTag::ConstInt
    }

    pub(crate) fn index(self) -> (r: usize)
        ensures
            r == self@,
    {
        self.index
    }

    pub fn erase(self) -> (r: Value<'ctx>)
        ensures
            r@ == (ValueTag::ConstInt, self@),
    {
        Value { tag: ValueTag::ConstInt, index: self.index, brand: self.brand }
    }
}

impl<'ctx> PartialEq for ConstInt<'ctx> {
    fn eq(&self, other: &ConstInt<'ctx>) -> (r: bool) {
        self.index == other.index
    }
}

impl<'ctx> vstd::std_specs::cmp::PartialEqSpecImpl for ConstInt<'ctx> {
    open spec fn obeys_eq_spec() -> bool {
        true
    }

    open spec fn eq_spec(&self, other: &ConstInt<'ctx>) -> bool {
        self@ == other@
    }
}

impl<'ctx> PartialEq for ConstAggrZero<'ctx> {
    fn eq(&self, other: &ConstAggrZero<'ctx>) -> (r: bool) {
        self.index == other.index
    }
}

impl<'ctx> vstd::std_specs::cmp::PartialEqSpecImpl for ConstAggrZero<'ctx> {
    open spec fn obeys_eq_spec() -> bool {
        true
    }

    open spec fn eq_spec(&self, other: &ConstAggrZero<'ctx>) -> bool {
        self@ == other@
    }
}

/// A concrete value handle: the one shape that its tag stands for.
pub trait ValueInfo<'ctx>: Sized {
    spec fn spec_tag() -> ValueTag;

    spec fn spec_index(self) -> nat;

    fn tag_of() -> (r: ValueTag)
        ensures
            r == Self::spec_tag(),
    ;

    fn from_index(index: usize, brand: Brand<'ctx>) -> (r: Self)
        ensures
            r.spec_index() == index,
    ;
}

impl<'ctx> ValueInfo<'ctx> for ConstAggrZero<'ctx> {
    open spec fn spec_tag() -> ValueTag {
        ValueTag::ConstAggrZero
    }

    open spec fn spec_index(self) -> nat {
        self@
    }

    fn tag_of() -> (r: ValueTag) {
        ValueTag::ConstAggrZero
    }

    fn from_index(index: usize, brand: Brand<'ctx>) -> (r: Self) {
        ConstAggrZero { index, brand }
    }
}

impl<'ctx> ValueInfo<'ctx> for ConstInt<'ctx> {
    open spec fn spec_tag() -> ValueTag {
        ValueTag::ConstInt
    }

    open spec fn spec_index(self) -> nat {
        self@
    }

    fn tag_of() -> (r: ValueTag) {
        ValueTag::ConstInt
    }

    fn from_index(index: usize, brand: Brand<'ctx>) -> (r: Self) {
        ConstInt { index, brand }
    }
}

impl<'ctx> Value<'ctx> {
    /// The concrete handle, when this value has the shape `T`.
    pub fn try_cast<T: ValueInfo<'ctx>>(self) -> (r: Option<T>)
        ensures
            r is Some <==> self@.0 == T::spec_tag(),
            r matches Some(t) ==> t.spec_index() == self@.1,
    {
        if self.tag == T::tag_of() {
            Some(T::from_index(self.index, self.brand))
        } else {
            None
        }
    }

    /// The concrete handle of shape `T`, which this value must have.
    pub fn cast<T: ValueInfo<'ctx>>(self) -> (r: T)
        requires
            self@.0 == T::spec_tag(),
        ensures
            r.spec_index() == self@.1,
    {
        T::from_index(self.index, self.brand)
    }

    pub(crate) fn index(self) -> (r: usize)
        ensures
            r == self@.1,
    {
        self.index
    }
}

/// A value handle opened up to its concrete shape.
#[derive(Clone, Copy, Debug)]
pub enum UnpackedValue<'ctx> {
    ConstAggrZero(ConstAggrZero<'ctx>),
    ConstInt(ConstInt<'ctx>),
}

impl<'ctx> UnpackedValue<'ctx> {
    pub open spec fn erase_spec(self) -> (ValueTag, nat) {
        match self {
            UnpackedValue::ConstAggrZero(v) => (ValueTag::ConstAggrZero, v@),
            UnpackedValue::ConstInt(v) => (ValueTag::ConstInt, v@),
        }
    }
}

/// Where an interned integer lives.
#[derive(Clone, Copy, Debug)]
enum IntSlot {
    Zero,
    One,
    Interned(usize),
}

/// An interned arbitrary-precision integer.
///
/// Zero and one are shared constants that no context stores; other values name an entry of
/// the context's integer table.
#[derive(Clone, Copy, Debug)]
pub struct IntRef<'ctx> {
    slot: IntSlot,
    brand: Brand<'ctx>,
}

impl<'ctx> View for IntRef<'ctx> {
    type V = (nat, nat);

    closed spec fn view(&self) -> (nat, nat) {
        match self.slot {
            IntSlot::Zero => (0, 0),
            IntSlot::One => (1, 0),
            IntSlot::Interned(i) => (2, i as nat),
        }
    }
}

impl<'ctx> IntRef<'ctx> {
    /// Whether this is the shared zero.
    pub fn is_zero(self) -> (r: bool)
        ensures
            r == (self@.0 == 0),
    {
        match self.slot {
            IntSlot::Zero => true,
            _ => false,
        }
    }

    /// Whether this is the shared one.
    pub fn is_one(self) -> (r: bool)
        ensures
            r == (self@.0 == 1),
    {
        match self.slot {
            IntSlot::One => true,
            _ => false,
        }
    }

    /// A reference is the shared zero, the shared one, or a table entry.
    pub proof fn lemma_kinds(self)
        ensures
            self@.0 == 0 || self@.0 == 1 || self@.0 == 2,
            self@.0 != 2 ==> self@.1 == 0,
    {
    }
}

impl<'ctx> PartialEq for IntRef<'ctx> {
    fn eq(&self, other: &IntRef<'ctx>) -> (r: bool) {
        let (a, b) = ref_words(*self);
        let (c, d) = ref_words(*other);
        a == c && b == d
    }
}

impl<'ctx> vstd::std_specs::cmp::PartialEqSpecImpl for IntRef<'ctx> {
    open spec fn obeys_eq_spec() -> bool {
        true
    }

    open spec fn eq_spec(&self, other: &IntRef<'ctx>) -> bool {
        self@ == other@
    }
}

/// The record of a zero value: its type.
pub struct ConstAggrZeroInfo<'ctx> {
    pub ty: Type<'ctx>,
}

impl<'ctx> InternKey for ConstAggrZeroInfo<'ctx> {
    type Key = (TypeTag, nat);

    open spec fn key(&self) -> (TypeTag, nat) {
        self.ty@
    }

    open spec fn key_hash_words(k: (TypeTag, nat)) -> Seq<u64> {
        seq![k.0.spec_code(), k.1 as u64]
    }

    fn hash_words(&self) -> (r: Vec<u64>) {
        vec![self.ty.tag().code(), self.ty.index() as u64]
    }

    fn same_key(&self, other: &Self) -> (r: bool) {
        self.ty.tag() == other.ty.tag() && self.ty.index() == other.ty.index()
    }
}

/// The record of an integer constant: its type, signedness and value.
pub struct ConstIntInfo<'ctx> {
    pub ty: IntegerTy<'ctx>,
    pub signed: bool,
    pub value: IntRef<'ctx>,
}

fn ref_words(r: IntRef) -> (w: (u64, u64))
    ensures
        w == (r@.0 as u64, r@.1 as u64),
        w.0 == r@.0 && w.1 == r@.1,
{
    match r.slot {
        IntSlot::Zero => (0, 0),
        IntSlot::One => (1, 0),
        IntSlot::Interned(i) => (2, i as u64),
    }
}

impl<'ctx> InternKey for ConstIntInfo<'ctx> {
    type Key = (nat, bool, (nat, nat));

    open spec fn key(&self) -> (nat, bool, (nat, nat)) {
        (self.ty@, self.signed, self.value@)
    }

    open spec fn key_hash_words(k: (nat, bool, (nat, nat))) -> Seq<u64> {
        seq![k.0 as u64, if k.1 { 1u64 } else { 0u64 }, k.2.0 as u64, k.2.1 as u64]
    }

    fn hash_words(&self) -> (r: Vec<u64>) {
        let (a, b) = ref_words(self.value);
        vec![self.ty.index() as u64, if self.signed { 1 } else { 0 }, a, b]
    }

    fn same_key(&self, other: &Self) -> (r: bool) {
        let (a, b) = ref_words(self.value);
        let (c, d) = ref_words(other.value);
        self.ty.index() == other.ty.index() && self.signed == other.signed && a == c && b == d
    }
}

/// `pow2` does not decrease.
pub proof fn lemma_pow2_mono(a: nat, b: nat)
    requires
        a <= b,
    ensures
        pow2(a) <= pow2(b),
{
    if a < b {
        lemma_pow2_strictly_increases(a, b);
    }
}

/// Whether `v` fits an integer type of `bits` bits, read as signed or as unsigned.
pub open spec fn fits(v: int, bits: nat, signed: bool) -> bool {
    if signed {
        -pow2((bits - 1) as nat) <= v < pow2((bits - 1) as nat)
    } else {
        0 <= v < pow2(bits)
    }
}

/// The constant values of one context.
pub struct ValueContext<'ctx> {
    brand: Brand<'ctx>,
    zero: BigInt,
    one: BigInt,
    int_table: TypeCache<BigInt>,
    zeros: TypeCache<ConstAggrZeroInfo<'ctx>>,
    const_integers: TypeCache<ConstIntInfo<'ctx>>,
}

impl<'ctx> ValueContext<'ctx> {
    pub closed spec fn integers(&self) -> TypeCache<BigInt> {
        self.int_table
    }

    pub closed spec fn zero_values(&self) -> TypeCache<ConstAggrZeroInfo<'ctx>> {
        self.zeros
    }

    pub closed spec fn const_ints(&self) -> TypeCache<ConstIntInfo<'ctx>> {
        self.const_integers
    }

    /// Whether an integer reference names a value of this context.
    pub open spec fn valid_ref(&self, r: IntRef<'ctx>) -> bool {
        r@.0 == 2 ==> r@.1 < self.integers().len()
    }

    /// The number an integer reference stands for.
    pub open spec fn ref_value(&self, r: IntRef<'ctx>) -> int {
        if r@.0 == 0 {
            0
        } else if r@.0 == 1 {
            1
        } else {
            self.integers().items()[r@.1 as int].value()
        }
    }

    /// The shared zero and one.
    pub closed spec fn constants(&self) -> (BigInt, BigInt) {
        (self.zero, self.one)
    }

    /// The shared constants and the integer table hold well-formed numbers.
    pub closed spec fn integers_wf(&self) -> bool {
        &&& self.zero.wf() && self.zero.value() == 0
        &&& self.one.wf() && self.one.value() == 1
        &&& self.int_table.wf()
        &&& forall|i: int|
            0 <= i < self.integers().len() ==> (#[trigger] self.integers().items()[i]).wf()
                && self.integers().items()[i].value() != 0 && self.integers().items()[i].value() != 1
    }

    pub closed spec fn wf(&self, types: &TypeContext<'ctx>) -> bool {
        &&& self.integers_wf()
        &&& self.zeros.wf()
        &&& self.const_integers.wf()
        &&& forall|i: int| 0 <= i < self.zero_values().len() ==> types.valid(#[trigger] self.zero_values().key_at(i))
        &&& forall|i: int|
            #![trigger self.const_ints().items()[i]]
            0 <= i < self.const_ints().len() ==> self.valid_ref(self.const_ints().items()[i].value)
                && self.const_ints().items()[i].ty@ < types.ints().len()
    }

    pub open spec fn extends(&self, old: &Self) -> bool {
        &&& self.integers().extends(&old.integers())
        &&& self.zero_values().extends(&old.zero_values())
        &&& self.const_ints().extends(&old.const_ints())
    }

    pub(crate) fn new(brand: Brand<'ctx>) -> (r: Self)
        ensures
            forall|types: &TypeContext<'ctx>| #[trigger] r.wf(types),
            r.integers().len() == 0,
    {
        ValueContext {
            brand,
            zero: BigInt::zero(),
            one: BigInt::from_u64(1),
            int_table: TypeCache::new(),
            zeros: TypeCache::new(),
            const_integers: TypeCache::new(),
        }
    }

    /// Growing the value tables, or the type tables, keeps the invariant.
    pub(crate) proof fn lemma_keep_wf(&self, old: &Self, types: &TypeContext<'ctx>, old_types: &TypeContext<'ctx>)
        requires
            old.wf(old_types),
            types.extends(old_types),
            self.extends(old),
            self.constants() == old.constants(),
            self.integers().wf() && self.zero_values().wf() && self.const_ints().wf(),
            forall|i: int|
                old.integers().len() <= i < self.integers().len() ==> (#[trigger] self.integers().items()[i]).wf()
                    && self.integers().items()[i].value() != 0 && self.integers().items()[i].value() != 1,
            forall|i: int|
                old.zero_values().len() <= i < self.zero_values().len() ==> types.valid(
                    #[trigger] self.zero_values().key_at(i),
                ),
            forall|i: int|
                #![trigger self.const_ints().items()[i]]
                old.const_ints().len() <= i < self.const_ints().len() ==> self.valid_ref(
                    self.const_ints().items()[i].value,
                ) && self.const_ints().items()[i].ty@ < types.ints().len(),
        ensures
            self.wf(types),
    {
        assert forall|i: int| 0 <= i < self.integers().len() implies (#[trigger] self.integers().items()[i]).wf()
            && self.integers().items()[i].value() != 0 && self.integers().items()[i].value() != 1 by {
            if i < old.integers().len() {
                assert(old.integers().items()[i] == self.integers().items()[i]);
            }
        }
        assert forall|i: int| 0 <= i < self.zero_values().len() implies types.valid(
            #[trigger] self.zero_values().key_at(i),
        ) by {
            if i < old.zero_values().len() {
                assert(old.zero_values().items()[i] == self.zero_values().items()[i]);
                assert(old_types.valid(old.zero_values().key_at(i)));
            }
        }
        assert forall|i: int| 0 <= i < self.const_ints().len() implies self.valid_ref(
            #[trigger] self.const_ints().items()[i].value,
        ) && self.const_ints().items()[i].ty@ < types.ints().len() by {
            if i < old.const_ints().len() {
                assert(old.const_ints().items()[i] == self.const_ints().items()[i]);
            }
        }
    }

    /// Growing the type tables keeps the value tables well formed.
    pub proof fn lemma_types_grew(&self, types: &TypeContext<'ctx>, old_types: &TypeContext<'ctx>)
        requires
            self.wf(old_types),
            types.extends(old_types),
        ensures
            self.wf(types),
    {
        self.lemma_keep_wf(self, types, old_types);
    }

    pub proof fn lemma_caches_wf(&self, types: &TypeContext<'ctx>)
        requires
            self.wf(types),
        ensures
            self.integers().wf(),
            self.zero_values().wf(),
            self.const_ints().wf(),
    {
    }

    /// Table entries are well formed and are neither 0 nor 1; references are of three kinds.
    pub proof fn lemma_interned_numbers(&self, types: &TypeContext<'ctx>)
        requires
            self.wf(types),
        ensures
            forall|i: int|
                0 <= i < self.integers().len() ==> (#[trigger] self.integers().items()[i]).wf()
                    && self.integers().items()[i].value() != 0 && self.integers().items()[i].value() != 1,
    {
    }

    pub proof fn lemma_integers_wf(&self, types: &TypeContext<'ctx>)
        requires
            self.wf(types),
        ensures
            self.integers_wf(),
    {
    }

    /// The zero value of a type; there is one per type.
    pub fn const_aggr_zero(&mut self, types: &TypeContext<'ctx>, ty: Type<'ctx>) -> (r: ConstAggrZero<'ctx>)
        requires
            old(self).wf(types),
            types.valid(ty@),
        ensures
            final(self).wf(types),
            final(self).extends(old(self)),
            r@ < final(self).zero_values().len(),
            final(self).zero_values().key_at(r@ as int) == ty@,
            old(self).zero_values().has_key(ty@) ==> *final(self) == *old(self),
    {
        let i = self.zeros.get_or_create(ConstAggrZeroInfo { ty });
        proof {
            crate::ctx::lemma_extends_refl(types);
            self.lemma_keep_wf(old(self), types, types);
        }
        ConstAggrZero { index: i, brand: self.brand }
    }

    /// The integer constant `value` of type `ty`, read as signed or unsigned; `None` when the
    /// value does not fit the type's width.
    pub fn const_int(&mut self, types: &TypeContext<'ctx>, ty: IntegerTy<'ctx>, value: IntRef<'ctx>, signed: bool) -> (r:
        Option<ConstInt<'ctx>>)
        requires
            old(self).wf(types),
            types.wf(),
            ty@ < types.ints().len(),
            old(self).valid_ref(value),
        ensures
            final(self).wf(types),
            final(self).extends(old(self)),
            r is Some <==> fits(old(self).ref_value(value), types.int_bits(ty@) as nat, signed),
            r is None ==> *final(self) == *old(self),
            r matches Some(c) ==> c@ < final(self).const_ints().len() && final(self).const_ints().key_at(c@ as int)
                == (ty@, signed, value@),
            old(self).const_ints().has_key((ty@, signed, value@)) ==> *final(self) == *old(self),
    {
        let v = self.integer(value);
        let ghost vv = v.value();
        let b = types.integer_bits(ty) as u64;
        proof {
            types.lemma_bits_positive(ty@);
        }
        if !signed && v.is_negative() {
            return None;
        }
        let bits = if signed { v.signed_bits() } else { v.significant_bits() };
        proof {
            let bn = b as nat;
            let s = bits as nat;
            if signed {
                lemma_pow2_pos((bn - 1) as nat);
                if s <= bn {
                    lemma_pow2_mono((s - 1) as nat, (bn - 1) as nat);
                } else {
                    lemma_pow2_mono((bn - 1) as nat, (s - 2) as nat);
                }
            } else {
                if s <= bn {
                    lemma_pow2_mono(s, bn);
                } else {
                    lemma_pow2_mono(bn, (s - 1) as nat);
                }
            }
        }
        if bits > b {
            return None;
        }
        let i = self.const_integers.get_or_create(ConstIntInfo { ty, signed, value });
        proof {
            crate::ctx::lemma_extends_refl(types);
            self.lemma_keep_wf(old(self), types, types);
        }
        Some(ConstInt { index: i, brand: self.brand })
    }

    pub(crate) fn const_int_record(&self, i: usize) -> (r: &ConstIntInfo<'ctx>)
        requires
            i < self.const_ints().len(),
        ensures
            *r == self.const_ints().items()[i as int],
    {
        self.const_integers.get(i)
    }

    pub(crate) fn zero_record(&self, i: usize) -> (r: &ConstAggrZeroInfo<'ctx>)
        requires
            i < self.zero_values().len(),
        ensures
            *r == self.zero_values().items()[i as int],
    {
        self.zeros.get(i)
    }

    /// The shared zero.
    pub fn zero_value(&self) -> (r: IntRef<'ctx>)
        ensures
            r@ == (0nat, 0nat),
    {
        IntRef { slot: IntSlot::Zero, brand: self.brand }
    }

    /// The shared one.
    pub fn one_value(&self) -> (r: IntRef<'ctx>)
        ensures
            r@ == (1nat, 0nat),
    {
        IntRef { slot: IntSlot::One, brand: self.brand }
    }

    /// The number behind an integer reference.
    pub fn integer(&self, r: IntRef<'ctx>) -> (v: &BigInt)
        requires
            self.valid_ref(r),
            self.integers_wf(),
        ensures
            v.wf(),
            v.value() == self.ref_value(r),
    {
        match r.slot {
            IntSlot::Zero => &self.zero,
            IntSlot::One => &self.one,
            IntSlot::Interned(i) => self.int_table.get(i),
        }
    }

    /// Interns a number: 0 and 1 give the shared constants without touching the table; any
    /// other number gives the one table entry that holds it.
    pub fn intern_integer_value(&mut self, x: BigInt, types: &TypeContext<'ctx>) -> (r: IntRef<'ctx>)
        requires
            old(self).wf(types),
            x.wf(),
        ensures
            final(self).wf(types),
            final(self).extends(old(self)),
            final(self).valid_ref(r),
            final(self).ref_value(r) == x.value(),
            x.value() == 0 ==> r@ == (0nat, 0nat) && *final(self) == *old(self),
            x.value() == 1 ==> r@ == (1nat, 0nat) && *final(self) == *old(self),
            x.value() != 0 && x.value() != 1 ==> r@.0 == 2 && final(self).integers().key_at(r@.1 as int) == x.key(),
            old(self).integers().has_key(x.key()) ==> *final(self) == *old(self),
    {
        if x.is_zero() {
            return IntRef { slot: IntSlot::Zero, brand: self.brand };
        }
        if x.is_one() {
            return IntRef { slot: IntSlot::One, brand: self.brand };
        }
        let ghost xv = x.value();
        let ghost xk = x.key();
        let ghost xx = x;
        proof {
            if old(self).integers().has_key(x.key()) {
                let i = choose|i: int| 0 <= i < old(self).integers().len() && #[trigger] old(self).integers().key_at(i) == xk;
                assert(old(self).integers().items()[i].wf());
            }
        }
        let i = self.int_table.get_or_create(x);
        proof {
            if old(self).integers().has_key(xk) {
            } else {
                assert(self.integers().items()[i as int] == xx);
            }
            self.lemma_keep_wf(old(self), types, types);
            crate::ctx::lemma_extends_refl(types);
            if !old(self).integers().has_key(xk) {
                assert(self.integers().items()[i as int].value() == xv);
            } else {
                let j = choose|j: int| 0 <= j < old(self).integers().len() && #[trigger] old(self).integers().key_at(j) == xk;
                assert(old(self).integers().items()[j].wf());
                old(self).int_table.lemma_distinct();
                self.int_table.lemma_distinct();
                assert(self.integers().key_at(i as int) == self.integers().key_at(j));
                assert(i as int == j);
            }
        }
        IntRef { slot: IntSlot::Interned(i), brand: self.brand }
    }

    pub fn intern_u32(&mut self, x: u32, types: &TypeContext<'ctx>) -> (r: IntRef<'ctx>)
        requires
            old(self).wf(types),
        ensures
            final(self).wf(types),
            final(self).extends(old(self)),
            final(self).valid_ref(r),
            final(self).ref_value(r) == x,
            x == 0 ==> r@ == (0nat, 0nat),
            x == 1 ==> r@ == (1nat, 0nat),
    {
        self.intern_integer_value(BigInt::from_u64(x as u64), types)
    }

    pub fn intern_i32(&mut self, x: i32, types: &TypeContext<'ctx>) -> (r: IntRef<'ctx>)
        requires
            old(self).wf(types),
        ensures
            final(self).wf(types),
            final(self).extends(old(self)),
            final(self).valid_ref(r),
            final(self).ref_value(r) == x,
            x == 0 ==> r@ == (0nat, 0nat),
            x == 1 ==> r@ == (1nat, 0nat),
    {
        self.intern_integer_value(BigInt::from_i64(x as i64), types)
    }
}

} // verus!
