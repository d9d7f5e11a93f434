use vstd::prelude::*;

use crate::bigint::BigInt;
use crate::cache::{InternKey, TypeCache};
use crate::value::{fits, ConstAggrZero, ConstInt, IntRef, Value, ValueContext, ValueTag};
use crate::types::{
    views, AddressSpace, ArrayInfo, ArrayTy, Brand, FloatInfo, FloatKind, FloatTy, FunctionInfo, FunctionTy,
    IntegerInfo, IntegerTy, PointerInfo, PointerTy, StructFlags, StructInfo, StructTy, Type, TypeTag, UnitTy,
};

verus! {

/// A pointer width, in bits.
#[derive(Clone, Copy, PartialEq, Eq, PartialOrd, Ord, Hash, Debug, Structural)]
pub enum PtrBits {
    _8,
    _16,
    _32,
    _64,
    _128,
}

impl PtrBits {
    pub open spec fn spec_bits(self) -> u16 {
        match self {
            PtrBits::_8 => 8,
            PtrBits::_16 => 16,
            PtrBits::_32 => 32,
            PtrBits::_64 => 64,
            PtrBits::_128 => 128,
        }
    }

    pub fn bits(self) -> (r: u16)
        ensures
            r == self.spec_bits(),
    {
        match self {
            PtrBits::_8 => 8,
            PtrBits::_16 => 16,
            PtrBits::_32 => 32,
            PtrBits::_64 => 64,
            PtrBits::_128 => 128,
        }
    }
}

/// What the context needs to know of the target machine.
#[derive(Clone, Copy, Debug)]
pub struct Target {
    /// Width of a pointer difference: the integer type behind `isize`.
    pub ptr_diff_bits: PtrBits,
    /// Width of a pointer: the integer type behind `iptr`.
    pub ptr_size_bits: PtrBits,
}

/// The text of an optional borrowed name.
pub open spec fn str_view(n: Option<&str>) -> Option<Seq<char>> {
    match n {
        Some(s) => Some(s@),
        None => None,
    }
}

/// A fresh vector holding the same handles.
fn copy_types<'ctx>(ts: &[Type<'ctx>]) -> (r: Vec<Type<'ctx>>)
    ensures
        r@ == ts@,
{
    let mut r: Vec<Type<'ctx>> = Vec::new();
    let mut i: usize = 0;
    while i < ts.len()
        invariant
            i <= ts@.len(),
            r@ == ts@.take(i as int),
        decreases ts@.len() - i,
    {
        r.push(ts[i]);
        i = i + 1;
        assert(r@ =~= ts@.take(i as int));
    }
    assert(ts@.take(ts@.len() as int) =~= ts@);
    r
}

/// Whether a width has a pre-built integer type.
pub open spec fn is_fixed_width(bits: u16) -> bool {
    bits == 1 || bits == 8 || bits == 16 || bits == 32 || bits == 64 || bits == 128
}

/// The types of one context: pre-built singletons, and one cache per parametric shape.
pub struct TypeContext<'ctx> {
    brand: Brand<'ctx>,
    target: Target,
    unit: UnitTy<'ctx>,
    i1: IntegerTy<'ctx>,
    i8: IntegerTy<'ctx>,
    i16: IntegerTy<'ctx>,
    i32: IntegerTy<'ctx>,
    i64: IntegerTy<'ctx>,
    i128: IntegerTy<'ctx>,
    isize: IntegerTy<'ctx>,
    iptr: IntegerTy<'ctx>,
    float16: FloatTy<'ctx>,
    float32: FloatTy<'ctx>,
    float64: FloatTy<'ctx>,
    ptr_ty: PointerTy<'ctx>,
    int_cache: TypeCache<IntegerInfo>,
    ptr_cache: TypeCache<PointerInfo>,
    function_cache: TypeCache<FunctionInfo<'ctx>>,
    struct_cache: TypeCache<StructInfo<'ctx>>,
    array_cache: TypeCache<ArrayInfo<'ctx>>,
    float_cache: TypeCache<FloatInfo>,
}

impl<'ctx> TypeContext<'ctx> {
    pub closed spec fn ints(&self) -> TypeCache<IntegerInfo> {
        self.int_cache
    }

    pub closed spec fn pointers(&self) -> TypeCache<PointerInfo> {
        self.ptr_cache
    }

    pub closed spec fn functions(&self) -> TypeCache<FunctionInfo<'ctx>> {
        self.function_cache
    }

    pub closed spec fn structs(&self) -> TypeCache<StructInfo<'ctx>> {
        self.struct_cache
    }

    pub closed spec fn arrays(&self) -> TypeCache<ArrayInfo<'ctx>> {
        self.array_cache
    }

    pub closed spec fn floats(&self) -> TypeCache<FloatInfo> {
        self.float_cache
    }

    pub closed spec fn spec_target(&self) -> Target {
        self.target
    }

    /// Whether a handle, given by tag and index, names a record of this context.
    pub open spec fn valid(&self, t: (TypeTag, nat)) -> bool {
        match t.0 {
            TypeTag::Unit => t.1 == 0,
            TypeTag::Integer => t.1 < self.ints().len(),
            TypeTag::Pointer => t.1 < self.pointers().len(),
            TypeTag::Function => t.1 < self.functions().len(),
            TypeTag::Array => t.1 < self.arrays().len(),
            TypeTag::Struct => t.1 < self.structs().len(),
            TypeTag::Float => t.1 < self.floats().len(),
        }
    }

    pub open spec fn all_valid(&self, ts: Seq<(TypeTag, nat)>) -> bool {
        forall|j: int| 0 <= j < ts.len() ==> #[trigger] self.valid(ts[j])
    }

    /// Bits of the integer type at index `i`.
    pub open spec fn int_bits(&self, i: nat) -> u16 {
        self.ints().key_at(i as int)
    }

    /// Whether every pre-built integer singleton sits at the index the getters return.
    pub closed spec fn singletons_placed(&self) -> bool {
        &&& self.i1@ < self.int_cache.len() && self.int_bits(self.i1@) == 1
        &&& self.i8@ < self.int_cache.len() && self.int_bits(self.i8@) == 8
        &&& self.i16@ < self.int_cache.len() && self.int_bits(self.i16@) == 16
        &&& self.i32@ < self.int_cache.len() && self.int_bits(self.i32@) == 32
        &&& self.i64@ < self.int_cache.len() && self.int_bits(self.i64@) == 64
        &&& self.i128@ < self.int_cache.len() && self.int_bits(self.i128@) == 128
        &&& self.isize@ < self.int_cache.len() && self.int_bits(self.isize@) == self.target.ptr_diff_bits.spec_bits()
        &&& self.iptr@ < self.int_cache.len() && self.int_bits(self.iptr@) == self.target.ptr_size_bits.spec_bits()
        &&& self.float16@ < self.float_cache.len() && self.float_cache.key_at(self.float16@ as int) == FloatKind::Ieee16Bit
        &&& self.float32@ < self.float_cache.len() && self.float_cache.key_at(self.float32@ as int) == FloatKind::Ieee32Bit
        &&& self.float64@ < self.float_cache.len() && self.float_cache.key_at(self.float64@ as int) == FloatKind::Ieee64Bit
        &&& self.ptr_ty@ < self.ptr_cache.len() && self.ptr_cache.key_at(self.ptr_ty@ as int) == 0
    }

    pub closed spec fn wf(&self) -> bool {
        &&& self.int_cache.wf()
        &&& self.ptr_cache.wf()
        &&& self.function_cache.wf()
        &&& self.struct_cache.wf()
        &&& self.array_cache.wf()
        &&& self.float_cache.wf()
        &&& self.singletons_placed()
        &&& forall|i: int| 0 <= i < self.ints().len() ==> #[trigger] self.ints().key_at(i) > 0
        &&& forall|i: int|
            #![trigger self.functions().key_at(i)]
            0 <= i < self.functions().len() ==> self.valid(self.functions().key_at(i).0) && self.all_valid(
                self.functions().key_at(i).1,
            )
        &&& forall|i: int| 0 <= i < self.arrays().len() ==> self.valid(#[trigger] self.arrays().key_at(i).0)
        &&& forall|i: int| 0 <= i < self.structs().len() ==> self.all_valid(#[trigger] self.structs().key_at(i).2)
    }

    /// Every record of `old` is still here, at the same index, and the target is the same.
    pub open spec fn extends(&self, old: &Self) -> bool {
        &&& self.ints().extends(&old.ints())
        &&& self.pointers().extends(&old.pointers())
        &&& self.functions().extends(&old.functions())
        &&& self.structs().extends(&old.structs())
        &&& self.arrays().extends(&old.arrays())
        &&& self.floats().extends(&old.floats())
        &&& self.spec_target() == old.spec_target()
    }

    pub proof fn lemma_caches_wf(&self)
        requires
            self.wf(),
        ensures
            self.ints().wf(),
            self.pointers().wf(),
            self.functions().wf(),
            self.structs().wf(),
            self.arrays().wf(),
            self.floats().wf(),
    {
    }

    pub fn i1(&self) -> (r: IntegerTy<'ctx>)
        requires
            self.wf(),
        ensures
            r@ < self.ints().len(),
            self.int_bits(r@) == 1,
    {
        self.i1
    }

    pub fn i8(&self) -> (r: IntegerTy<'ctx>)
        requires
            self.wf(),
        ensures
            r@ < self.ints().len(),
            self.int_bits(r@) == 8,
    {
        self.i8
    }

    pub fn i16(&self) -> (r: IntegerTy<'ctx>)
        requires
            self.wf(),
        ensures
            r@ < self.ints().len(),
            self.int_bits(r@) == 16,
    {
        self.i16
    }

    pub fn i32(&self) -> (r: IntegerTy<'ctx>)
        requires
            self.wf(),
        ensures
            r@ < self.ints().len(),
            self.int_bits(r@) == 32,
    {
        self.i32
    }

    pub fn i64(&self) -> (r: IntegerTy<'ctx>)
        requires
            self.wf(),
        ensures
            r@ < self.ints().len(),
            self.int_bits(r@) == 64,
    {
        self.i64
    }

    pub fn i128(&self) -> (r: IntegerTy<'ctx>)
        requires
            self.wf(),
        ensures
            r@ < self.ints().len(),
            self.int_bits(r@) == 128,
    {
        self.i128
    }

    pub fn isize(&self) -> (r: IntegerTy<'ctx>)
        requires
            self.wf(),
        ensures
            r@ < self.ints().len(),
            self.int_bits(r@) == self.spec_target().ptr_diff_bits.spec_bits(),
    {
        self.isize
    }

    pub fn iptr(&self) -> (r: IntegerTy<'ctx>)
        requires
            self.wf(),
        ensures
            r@ < self.ints().len(),
            self.int_bits(r@) == self.spec_target().ptr_size_bits.spec_bits(),
    {
        self.iptr
    }

    pub fn float16(&self) -> (r: FloatTy<'ctx>)
        requires
            self.wf(),
        ensures
            r@ < self.floats().len(),
            self.floats().key_at(r@ as int) == FloatKind::Ieee16Bit,
    {
        self.float16
    }

    pub fn float32(&self) -> (r: FloatTy<'ctx>)
        requires
            self.wf(),
        ensures
            r@ < self.floats().len(),
            self.floats().key_at(r@ as int) == FloatKind::Ieee32Bit,
    {
        self.float32
    }

    pub fn float64(&self) -> (r: FloatTy<'ctx>)
        requires
            self.wf(),
        ensures
            r@ < self.floats().len(),
            self.floats().key_at(r@ as int) == FloatKind::Ieee64Bit,
    {
        self.float64
    }

    pub fn unit(&self) -> (r: UnitTy<'ctx>) {
        self.unit
    }

    /// The pointer type of the default address space.
    pub fn ptr_ty(&self) -> (r: PointerTy<'ctx>)
        requires
            self.wf(),
        ensures
            r@ < self.pointers().len(),
            self.pointers().key_at(r@ as int) == 0,
    {
        self.ptr_ty
    }

    /// Bits of an integer type of this context.
    pub fn integer_bits(&self, ty: IntegerTy<'ctx>) -> (r: u16)
        requires
            ty@ < self.ints().len(),
        ensures
            r == self.int_bits(ty@),
    {
        self.int_cache.get(ty.index()).bits
    }

    pub proof fn lemma_bits_positive(&self, i: nat)
        requires
            self.wf(),
            i < self.ints().len(),
        ensures
            self.int_bits(i) > 0,
    {
        assert(self.ints().key_at(i as int) > 0);
    }

    /// The integer type of `bits` bits; the fixed widths come from the pre-built singletons.
    pub fn integer(&mut self, bits: u16) -> (r: IntegerTy<'ctx>)
        requires
            old(self).wf(),
            bits > 0,
        ensures
            final(self).wf(),
            final(self).extends(old(self)),
            r@ < final(self).ints().len(),
            final(self).int_bits(r@) == bits,
            old(self).ints().has_key(bits) ==> *final(self) == *old(self),
            is_fixed_width(bits) ==> *final(self) == *old(self),
    {
        match bits {
            1 => { return self.i1; },
            8 => { return self.i8; },
            16 => { return self.i16; },
            32 => { return self.i32; },
            64 => { return self.i64; },
            128 => { return self.i128; },
            _ => {},
        }
        let i = self.int_cache.get_or_create(IntegerInfo { bits });
        proof {
            assert forall|k: int| 0 <= k < self.ints().len() implies #[trigger] self.ints().key_at(k) > 0 by {
                if k < old(self).ints().len() {
                    assert(self.ints().items()[k] == old(self).ints().items()[k]);
                    assert(old(self).ints().key_at(k) > 0);
                } else {
                    assert(k == i);
                }
            }
            self.lemma_keep_wf(old(self));
        }
        IntegerTy::new(i, self.brand)
    }

    /// The pointer type of an address space; the default space comes from the pre-built singleton.
    pub fn ptr_at(&mut self, address_space: AddressSpace) -> (r: PointerTy<'ctx>)
        requires
            old(self).wf(),
        ensures
            final(self).wf(),
            final(self).extends(old(self)),
            r@ < final(self).pointers().len(),
            final(self).pointers().key_at(r@ as int) == address_space@,
            old(self).pointers().has_key(address_space@) ==> *final(self) == *old(self),
            address_space@ == 0 ==> *final(self) == *old(self),
    {
        if address_space.is_default() {
            return self.ptr_ty;
        }
        let i = self.ptr_cache.get_or_create(PointerInfo { address_space });
        proof {
            self.lemma_keep_wf(old(self));
        }
        PointerTy::new(i, self.brand)
    }

    /// The function type with the given output and argument types.
    pub fn function(&mut self, output_ty: Type<'ctx>, arguments: &[Type<'ctx>]) -> (r: FunctionTy<'ctx>)
        requires
            old(self).wf(),
            old(self).valid(output_ty@),
            old(self).all_valid(views(arguments@)),
        ensures
            final(self).wf(),
            final(self).extends(old(self)),
            r@ < final(self).functions().len(),
            final(self).functions().key_at(r@ as int) == (output_ty@, views(arguments@)),
            old(self).functions().has_key((output_ty@, views(arguments@))) ==> *final(self) == *old(self),
    {
        let arguments_tys = copy_types(arguments);
        let i = self.function_cache.get_or_create(FunctionInfo { output_ty, arguments_tys });
        proof {
            self.lemma_keep_wf(old(self));
        }
        FunctionTy::new(i, self.brand)
    }

    /// The array type of `len` items of `item_ty`.
    pub fn array(&mut self, len: u64, item_ty: Type<'ctx>) -> (r: ArrayTy<'ctx>)
        requires
            old(self).wf(),
            old(self).valid(item_ty@),
        ensures
            final(self).wf(),
            final(self).extends(old(self)),
            r@ < final(self).arrays().len(),
            final(self).arrays().key_at(r@ as int) == (item_ty@, len),
            old(self).arrays().has_key((item_ty@, len)) ==> *final(self) == *old(self),
    {
        let i = self.array_cache.get_or_create(ArrayInfo { item_ty, len });
        proof {
            self.lemma_keep_wf(old(self));
        }
        ArrayTy::new(i, self.brand)
    }

    /// The struct type with the given name, flags and field types.
    pub fn struct_ty(&mut self, name: Option<&str>, flags: StructFlags, field_tys: &[Type<'ctx>]) -> (r: StructTy<
        'ctx,
    >)
        requires
            old(self).wf(),
            old(self).all_valid(views(field_tys@)),
        ensures
            final(self).wf(),
            final(self).extends(old(self)),
            r@ < final(self).structs().len(),
            final(self).structs().key_at(r@ as int) == (flags@, str_view(name), views(field_tys@)),
            old(self).structs().has_key((flags@, str_view(name), views(field_tys@))) ==> *final(self)
                == *old(self),
    {
        let name: Option<String> = match name {
            Some(s) => Some(s.to_owned()),
            None => None,
        };
        let fields = copy_types(field_tys);
        let i = self.struct_cache.get_or_create(StructInfo { flags, name, field_tys: fields });
        proof {
            self.lemma_keep_wf(old(self));
        }
        StructTy::new(i, self.brand)
    }

    /// Growing one cache keeps the invariants that tie the caches together.
    proof fn lemma_keep_wf(&self, old: &Self)
        requires
            old.wf(),
            self.extends(old),
            self.int_cache.wf(),
            self.ptr_cache.wf(),
            self.function_cache.wf(),
            self.struct_cache.wf(),
            self.array_cache.wf(),
            self.float_cache.wf(),
            self.i1 == old.i1 && self.i8 == old.i8 && self.i16 == old.i16 && self.i32 == old.i32,
            self.i64 == old.i64 && self.i128 == old.i128 && self.isize == old.isize && self.iptr == old.iptr,
            self.float16 == old.float16 && self.float32 == old.float32 && self.float64 == old.float64,
            self.ptr_ty == old.ptr_ty && self.target == old.target,
            forall|i: int| 0 <= i < self.ints().len() ==> #[trigger] self.ints().key_at(i) > 0,
            forall|i: int|
                old.functions().len() <= i < self.functions().len() ==> old.valid(#[trigger] self.functions().key_at(i).0)
                    && old.all_valid(self.functions().key_at(i).1),
            forall|i: int| old.arrays().len() <= i < self.arrays().len() ==> old.valid(#[trigger] self.arrays().key_at(i).0),
            forall|i: int| old.structs().len() <= i < self.structs().len() ==> old.all_valid(#[trigger] self.structs().key_at(i).2),
        ensures
            self.wf(),
    {
        assert(self.int_cache.items()[self.i1@ as int] == old.int_cache.items()[self.i1@ as int]);
        assert(self.int_cache.items()[self.i8@ as int] == old.int_cache.items()[self.i8@ as int]);
        assert(self.int_cache.items()[self.i16@ as int] == old.int_cache.items()[self.i16@ as int]);
        assert(self.int_cache.items()[self.i32@ as int] == old.int_cache.items()[self.i32@ as int]);
        assert(self.int_cache.items()[self.i64@ as int] == old.int_cache.items()[self.i64@ as int]);
        assert(self.int_cache.items()[self.i128@ as int] == old.int_cache.items()[self.i128@ as int]);
        assert(self.int_cache.items()[self.isize@ as int] == old.int_cache.items()[self.isize@ as int]);
        assert(self.int_cache.items()[self.iptr@ as int] == old.int_cache.items()[self.iptr@ as int]);
        assert(self.float_cache.items()[self.float16@ as int] == old.float_cache.items()[self.float16@ as int]);
        assert(self.float_cache.items()[self.float32@ as int] == old.float_cache.items()[self.float32@ as int]);
        assert(self.float_cache.items()[self.float64@ as int] == old.float_cache.items()[self.float64@ as int]);
        assert(self.ptr_cache.items()[self.ptr_ty@ as int] == old.ptr_cache.items()[self.ptr_ty@ as int]);
        assert forall|t: (TypeTag, nat)| old.valid(t) implies self.valid(t) by {}
        assert forall|i: int| 0 <= i < self.functions().len() implies self.valid(
            #[trigger] self.functions().key_at(i).0,
        ) && self.all_valid(self.functions().key_at(i).1) by {
            let k = self.functions().key_at(i);
            if i < old.functions().len() {
                assert(self.functions().items()[i] == old.functions().items()[i]);
                assert(old.valid(old.functions().key_at(i).0) && old.all_valid(old.functions().key_at(i).1));
            }
            assert(old.valid(k.0) && old.all_valid(k.1));
            assert forall|j: int| 0 <= j < k.1.len() implies #[trigger] self.valid(k.1[j]) by {
                assert(old.valid(k.1[j]));
            }
        }
        assert forall|i: int| 0 <= i < self.arrays().len() implies self.valid(#[trigger] self.arrays().key_at(i).0) by {
            if i < old.arrays().len() {
                assert(self.arrays().items()[i] == old.arrays().items()[i]);
                assert(old.valid(old.arrays().key_at(i).0));
            }
        }
        assert forall|i: int| 0 <= i < self.structs().len() implies self.all_valid(#[trigger] self.structs().key_at(i).2) by {
            let k = self.structs().key_at(i);
            if i < old.structs().len() {
                assert(self.structs().items()[i] == old.structs().items()[i]);
                assert(old.all_valid(old.structs().key_at(i).2));
            }
            assert(old.all_valid(k.2));
            assert forall|j: int| 0 <= j < k.2.len() implies #[trigger] self.valid(k.2[j]) by {
                assert(old.valid(k.2[j]));
            }
        }
    }

    pub(crate) fn new(brand: Brand<'ctx>, target: Target) -> (r: Self)
        ensures
            r.wf(),
            r.spec_target() == target,
    {
        let mut int_cache: TypeCache<IntegerInfo> = TypeCache::new();
        let i1 = IntegerTy::new(int_cache.get_or_create(IntegerInfo { bits: 1 }), brand);
        let i8 = IntegerTy::new(int_cache.get_or_create(IntegerInfo { bits: 8 }), brand);
        let i16 = IntegerTy::new(int_cache.get_or_create(IntegerInfo { bits: 16 }), brand);
        let i32 = IntegerTy::new(int_cache.get_or_create(IntegerInfo { bits: 32 }), brand);
        let i64 = IntegerTy::new(int_cache.get_or_create(IntegerInfo { bits: 64 }), brand);
        let i128 = IntegerTy::new(int_cache.get_or_create(IntegerInfo { bits: 128 }), brand);
        let isize = IntegerTy::new(int_cache.get_or_create(IntegerInfo { bits: target.ptr_diff_bits.bits() }), brand);
        let iptr = IntegerTy::new(int_cache.get_or_create(IntegerInfo { bits: target.ptr_size_bits.bits() }), brand);
        let mut float_cache: TypeCache<FloatInfo> = TypeCache::new();
        let float16 = FloatTy::new(float_cache.get_or_create(FloatInfo { kind: FloatKind::Ieee16Bit }), brand);
        let float32 = FloatTy::new(float_cache.get_or_create(FloatInfo { kind: FloatKind::Ieee32Bit }), brand);
        let float64 = FloatTy::new(float_cache.get_or_create(FloatInfo { kind: FloatKind::Ieee64Bit }), brand);
        let mut ptr_cache: TypeCache<PointerInfo> = TypeCache::new();
        let ptr_ty = PointerTy::new(
            ptr_cache.get_or_create(PointerInfo { address_space: AddressSpace::default_space() }),
            brand,
        );
        let r = TypeContext {
            brand,
            target,
            unit: UnitTy::new(brand),
            i1,
            i8,
            i16,
            i32,
            i64,
            i128,
            isize,
            iptr,
            float16,
            float32,
            float64,
            ptr_ty,
            int_cache,
            ptr_cache,
            function_cache: TypeCache::new(),
            struct_cache: TypeCache::new(),
            array_cache: TypeCache::new(),
            float_cache,
        };
        assert(forall|i: int| 0 <= i < r.ints().len() ==> #[trigger] r.ints().key_at(i) > 0);
        r
    }
}

} // verus!

verus! {

pub proof fn lemma_extends_refl<'ctx>(t: &TypeContext<'ctx>)
    ensures
        t.extends(t),
{
}

} // verus!

verus! {

/// The root of one compilation's types and constants.
///
/// A context exists only inside the closure given to `Context::with`; everything it hands
/// out carries its brand, so it can neither meet handles of another context nor outlive
/// this one. Its storage is released in one step when the closure returns.
pub struct Context<'ctx> {
    ty: TypeContext<'ctx>,
    value: ValueContext<'ctx>,
}

impl<'ctx> Context<'ctx> {
    pub closed spec fn types(&self) -> TypeContext<'ctx> {
        self.ty
    }

    pub closed spec fn values(&self) -> ValueContext<'ctx> {
        self.value
    }

    pub open spec fn wf(&self) -> bool {
        self.types().wf() && self.values().wf(&self.types())
    }

    /// Every record of `old` is still here, at the same index.
    pub open spec fn extends(&self, old: &Self) -> bool {
        self.types().extends(&old.types()) && self.values().extends(&old.values())
    }

    /// Runs `f` with a new context for `target`, and drops the context when `f` returns.
    pub fn with<R, F: for<'id> FnOnce(Context<'id>) -> R>(target: Target, f: F) -> (r: R)
        requires
            forall|c: Context| c.wf() && c.types().spec_target() == target ==> #[trigger] f.requires((c,)),
        ensures
            exists|c: Context| c.wf() && c.types().spec_target() == target && #[trigger] f.ensures((c,), r),
    {
        let brand = Brand::new();
        let ty = TypeContext::new(brand, target);
        let value = ValueContext::new(brand);
        let c = Context { ty, value };
        assert(c.values().wf(&c.types()));
        f(c)
    }

    pub fn ty(&self) -> (r: &TypeContext<'ctx>)
        ensures
            *r == self.types(),
    {
        &self.ty
    }

    pub fn value(&self) -> (r: &ValueContext<'ctx>)
        ensures
            *r == self.values(),
    {
        &self.value
    }

    proof fn lemma_types_grew(&self, old: &Self)
        requires
            old.wf(),
            self.types().wf(),
            self.types().extends(&old.types()),
            self.values() == old.values(),
        ensures
            self.wf(),
            self.extends(old),
    {
        self.value.lemma_types_grew(&self.ty, &old.ty);
    }

    pub fn i1(&self) -> (r: IntegerTy<'ctx>)
        requires
            self.wf(),
        ensures
            r@ < self.types().ints().len(),
            self.types().int_bits(r@) == 1,
    {
        self.ty.i1()
    }

    pub fn i8(&self) -> (r: IntegerTy<'ctx>)
        requires
            self.wf(),
        ensures
            r@ < self.types().ints().len(),
            self.types().int_bits(r@) == 8,
    {
        self.ty.i8()
    }

    pub fn i16(&self) -> (r: IntegerTy<'ctx>)
        requires
            self.wf(),
        ensures
            r@ < self.types().ints().len(),
            self.types().int_bits(r@) == 16,
    {
        self.ty.i16()
    }

    pub fn i32(&self) -> (r: IntegerTy<'ctx>)
        requires
            self.wf(),
        ensures
            r@ < self.types().ints().len(),
            self.types().int_bits(r@) == 32,
    {
        self.ty.i32()
    }

    pub fn i64(&self) -> (r: IntegerTy<'ctx>)
        requires
            self.wf(),
        ensures
            r@ < self.types().ints().len(),
            self.types().int_bits(r@) == 64,
    {
        self.ty.i64()
    }

    pub fn i128(&self) -> (r: IntegerTy<'ctx>)
        requires
            self.wf(),
        ensures
            r@ < self.types().ints().len(),
            self.types().int_bits(r@) == 128,
    {
        self.ty.i128()
    }

    pub fn isize(&self) -> (r: IntegerTy<'ctx>)
        requires
            self.wf(),
        ensures
            r@ < self.types().ints().len(),
            self.types().int_bits(r@) == self.types().spec_target().ptr_diff_bits.spec_bits(),
    {
        self.ty.isize()
    }

    pub fn iptr(&self) -> (r: IntegerTy<'ctx>)
        requires
            self.wf(),
        ensures
            r@ < self.types().ints().len(),
            self.types().int_bits(r@) == self.types().spec_target().ptr_size_bits.spec_bits(),
    {
        self.ty.iptr()
    }

    pub fn float16(&self) -> (r: FloatTy<'ctx>)
        requires
            self.wf(),
        ensures
            r@ < self.types().floats().len(),
            self.types().floats().key_at(r@ as int) == FloatKind::Ieee16Bit,
    {
        self.ty.float16()
    }

    pub fn float32(&self) -> (r: FloatTy<'ctx>)
        requires
            self.wf(),
        ensures
            r@ < self.types().floats().len(),
            self.types().floats().key_at(r@ as int) == FloatKind::Ieee32Bit,
    {
        self.ty.float32()
    }

    pub fn float64(&self) -> (r: FloatTy<'ctx>)
        requires
            self.wf(),
        ensures
            r@ < self.types().floats().len(),
            self.types().floats().key_at(r@ as int) == FloatKind::Ieee64Bit,
    {
        self.ty.float64()
    }

    pub fn unit(&self) -> (r: UnitTy<'ctx>) {
        self.ty.unit()
    }

    pub fn ptr_ty(&self) -> (r: PointerTy<'ctx>)
        requires
            self.wf(),
        ensures
            r@ < self.types().pointers().len(),
            self.types().pointers().key_at(r@ as int) == 0,
    {
        self.ty.ptr_ty()
    }

    /// The integer type of `bits` bits.
    pub fn int_ty(&mut self, bits: u16) -> (r: IntegerTy<'ctx>)
        requires
            old(self).wf(),
            bits > 0,
        ensures
            final(self).wf(),
            final(self).extends(old(self)),
            r@ < final(self).types().ints().len(),
            final(self).types().int_bits(r@) == bits,
            old(self).types().ints().has_key(bits) ==> *final(self) == *old(self),
            is_fixed_width(bits) ==> *final(self) == *old(self),
    {
        let r = self.ty.integer(bits);
        proof {
            self.lemma_types_grew(old(self));
        }
        r
    }

    /// Same as `int_ty`, for a width written as a literal.
    pub fn int_ty_lit(&mut self, bits: u16) -> (r: IntegerTy<'ctx>)
        requires
            old(self).wf(),
            bits > 0,
        ensures
            final(self).wf(),
            final(self).extends(old(self)),
            r@ < final(self).types().ints().len(),
            final(self).types().int_bits(r@) == bits,
            old(self).types().ints().has_key(bits) ==> *final(self) == *old(self),
    {
        self.int_ty(bits)
    }

    /// The pointer type of an address space.
    pub fn ptr_ty_at(&mut self, address_space: AddressSpace) -> (r: PointerTy<'ctx>)
        requires
            old(self).wf(),
        ensures
            final(self).wf(),
            final(self).extends(old(self)),
            r@ < final(self).types().pointers().len(),
            final(self).types().pointers().key_at(r@ as int) == address_space@,
            old(self).types().pointers().has_key(address_space@) ==> *final(self) == *old(self),
    {
        let r = self.ty.ptr_at(address_space);
        proof {
            self.lemma_types_grew(old(self));
        }
        r
    }

    /// The function type with the given output and argument types.
    pub fn function_ty(&mut self, output_ty: Type<'ctx>, arguments: &[Type<'ctx>]) -> (r: FunctionTy<'ctx>)
        requires
            old(self).wf(),
            old(self).types().valid(output_ty@),
            old(self).types().all_valid(views(arguments@)),
        ensures
            final(self).wf(),
            final(self).extends(old(self)),
            r@ < final(self).types().functions().len(),
            final(self).types().functions().key_at(r@ as int) == (output_ty@, views(arguments@)),
            old(self).types().functions().has_key((output_ty@, views(arguments@))) ==> *final(self) == *old(self),
    {
        let r = self.ty.function(output_ty, arguments);
        proof {
            self.lemma_types_grew(old(self));
        }
        r
    }

    /// The array type of `len` items of `item_ty`.
    pub fn array_ty(&mut self, len: u64, item_ty: Type<'ctx>) -> (r: ArrayTy<'ctx>)
        requires
            old(self).wf(),
            old(self).types().valid(item_ty@),
        ensures
            final(self).wf(),
            final(self).extends(old(self)),
            r@ < final(self).types().arrays().len(),
            final(self).types().arrays().key_at(r@ as int) == (item_ty@, len),
            old(self).types().arrays().has_key((item_ty@, len)) ==> *final(self) == *old(self),
    {
        let r = self.ty.array(len, item_ty);
        proof {
            self.lemma_types_grew(old(self));
        }
        r
    }

    /// The struct type with the given name, flags and field types.
    pub fn struct_ty(&mut self, name: Option<&str>, flags: StructFlags, field_tys: &[Type<'ctx>]) -> (r: StructTy<
        'ctx,
    >)
        requires
            old(self).wf(),
            old(self).types().all_valid(views(field_tys@)),
        ensures
            final(self).wf(),
            final(self).extends(old(self)),
            r@ < final(self).types().structs().len(),
            final(self).types().structs().key_at(r@ as int) == (flags@, str_view(name), views(field_tys@)),
            old(self).types().structs().has_key((flags@, str_view(name), views(field_tys@))) ==> *final(self)
                == *old(self),
    {
        let r = self.ty.struct_ty(name, flags, field_tys);
        proof {
            self.lemma_types_grew(old(self));
        }
        r
    }

    /// The shared zero.
    pub fn zero_value(&self) -> (r: IntRef<'ctx>)
        ensures
            r@ == (0nat, 0nat),
    {
        self.value.zero_value()
    }

    /// The shared one.
    pub fn one_value(&self) -> (r: IntRef<'ctx>)
        ensures
            r@ == (1nat, 0nat),
    {
        self.value.one_value()
    }

    /// The number behind an integer reference of this context.
    pub fn integer(&self, r: IntRef<'ctx>) -> (v: &BigInt)
        requires
            self.wf(),
            self.values().valid_ref(r),
        ensures
            v.wf(),
            v.value() == self.values().ref_value(r),
    {
        proof {
            self.value.lemma_integers_wf(&self.ty);
        }
        self.value.integer(r)
    }

    /// Interns a number; see `ValueContext::intern_integer_value`.
    pub fn intern_integer_value(&mut self, x: BigInt) -> (r: IntRef<'ctx>)
        requires
            old(self).wf(),
            x.wf(),
        ensures
            final(self).wf(),
            final(self).extends(old(self)),
            final(self).values().valid_ref(r),
            final(self).values().ref_value(r) == x.value(),
            x.value() == 0 ==> r@ == (0nat, 0nat) && *final(self) == *old(self),
            x.value() == 1 ==> r@ == (1nat, 0nat) && *final(self) == *old(self),
            x.value() != 0 && x.value() != 1 ==> r@.0 == 2 && final(self).values().integers().key_at(r@.1 as int)
                == x.key(),
            old(self).values().integers().has_key(x.key()) ==> *final(self) == *old(self),
    {
        let r = self.value.intern_integer_value(x, &self.ty);
        proof {
            lemma_extends_refl(&self.ty);
        }
        r
    }

    pub fn intern_u32(&mut self, x: u32) -> (r: IntRef<'ctx>)
        requires
            old(self).wf(),
        ensures
            final(self).wf(),
            final(self).extends(old(self)),
            final(self).values().valid_ref(r),
            final(self).values().ref_value(r) == x,
            x == 0 ==> r@ == (0nat, 0nat),
            x == 1 ==> r@ == (1nat, 0nat),
    {
        let r = self.value.intern_u32(x, &self.ty);
        proof {
            lemma_extends_refl(&self.ty);
        }
        r
    }

    pub fn intern_i32(&mut self, x: i32) -> (r: IntRef<'ctx>)
        requires
            old(self).wf(),
        ensures
            final(self).wf(),
            final(self).extends(old(self)),
            final(self).values().valid_ref(r),
            final(self).values().ref_value(r) == x,
            x == 0 ==> r@ == (0nat, 0nat),
            x == 1 ==> r@ == (1nat, 0nat),
    {
        let r = self.value.intern_i32(x, &self.ty);
        proof {
            lemma_extends_refl(&self.ty);
        }
        r
    }

    /// The zero value of a type.
    pub fn const_aggr_zero(&mut self, ty: Type<'ctx>) -> (r: ConstAggrZero<'ctx>)
        requires
            old(self).wf(),
            old(self).types().valid(ty@),
        ensures
            final(self).wf(),
            final(self).extends(old(self)),
            r@ < final(self).values().zero_values().len(),
            final(self).values().zero_values().key_at(r@ as int) == ty@,
            old(self).values().zero_values().has_key(ty@) ==> *final(self) == *old(self),
    {
        let r = self.value.const_aggr_zero(&self.ty, ty);
        proof {
            lemma_extends_refl(&self.ty);
        }
        r
    }

    /// The integer constant `value` of type `ty`; `None` when it does not fit the width.
    pub fn const_int(&mut self, ty: IntegerTy<'ctx>, value: IntRef<'ctx>, signed: bool) -> (r: Option<ConstInt<'ctx>>)
        requires
            old(self).wf(),
            ty@ < old(self).types().ints().len(),
            old(self).values().valid_ref(value),
        ensures
            final(self).wf(),
            final(self).extends(old(self)),
            r is Some <==> fits(old(self).values().ref_value(value), old(self).types().int_bits(ty@) as nat, signed),
            r is None ==> *final(self) == *old(self),
            r matches Some(c) ==> c@ < final(self).values().const_ints().len() && final(self).values().const_ints().key_at(
                c@ as int,
            ) == (ty@, signed, value@),
            old(self).values().const_ints().has_key((ty@, signed, value@)) ==> *final(self) == *old(self),
    {
        let r = self.value.const_int(&self.ty, ty, value, signed);
        proof {
            lemma_extends_refl(&self.ty);
        }
        r
    }
}

impl<'ctx> IntegerTy<'ctx> {
    pub fn bits(self, ctx: &Context<'ctx>) -> (r: u16)
        requires
            self@ < ctx.types().ints().len(),
        ensures
            r == ctx.types().int_bits(self@),
    {
        ctx.ty.integer_bits(self)
    }
}

impl<'ctx> PointerTy<'ctx> {
    pub fn address_space(self, ctx: &Context<'ctx>) -> (r: AddressSpace)
        requires
            self@ < ctx.types().pointers().len(),
        ensures
            r@ == ctx.types().pointers().key_at(self@ as int),
    {
        ctx.ty.ptr_cache.get(self.index()).address_space
    }
}

impl<'ctx> FloatTy<'ctx> {
    pub fn kind(self, ctx: &Context<'ctx>) -> (r: FloatKind)
        requires
            self@ < ctx.types().floats().len(),
        ensures
            r == ctx.types().floats().key_at(self@ as int),
    {
        ctx.ty.float_cache.get(self.index()).kind
    }
}

impl<'ctx> FunctionTy<'ctx> {
    pub fn output_ty(self, ctx: &Context<'ctx>) -> (r: Type<'ctx>)
        requires
            self@ < ctx.types().functions().len(),
        ensures
            r@ == ctx.types().functions().key_at(self@ as int).0,
    {
        ctx.ty.function_cache.get(self.index()).output_ty
    }

    pub fn arguments_tys<'a>(self, ctx: &'a Context<'ctx>) -> (r: &'a [Type<'ctx>])
        requires
            self@ < ctx.types().functions().len(),
        ensures
            views(r@) == ctx.types().functions().key_at(self@ as int).1,
    {
        ctx.ty.function_cache.get(self.index()).arguments_tys.as_slice()
    }
}

impl<'ctx> ArrayTy<'ctx> {
    pub fn item_ty(self, ctx: &Context<'ctx>) -> (r: Type<'ctx>)
        requires
            self@ < ctx.types().arrays().len(),
        ensures
            r@ == ctx.types().arrays().key_at(self@ as int).0,
    {
        ctx.ty.array_cache.get(self.index()).item_ty
    }

    pub fn len(self, ctx: &Context<'ctx>) -> (r: u64)
        requires
            self@ < ctx.types().arrays().len(),
        ensures
            r == ctx.types().arrays().key_at(self@ as int).1,
    {
        ctx.ty.array_cache.get(self.index()).len
    }
}

impl<'ctx> StructTy<'ctx> {
    pub fn name<'a>(self, ctx: &'a Context<'ctx>) -> (r: Option<&'a str>)
        requires
            self@ < ctx.types().structs().len(),
        ensures
            str_view(r) == ctx.types().structs().key_at(self@ as int).1,
    {
        match &ctx.ty.struct_cache.get(self.index()).name {
            Some(s) => Some(s.as_str()),
            None => None,
        }
    }

    pub fn flags(self, ctx: &Context<'ctx>) -> (r: StructFlags)
        requires
            self@ < ctx.types().structs().len(),
        ensures
            r@ == ctx.types().structs().key_at(self@ as int).0,
    {
        ctx.ty.struct_cache.get(self.index()).flags
    }

    pub fn field_tys<'a>(self, ctx: &'a Context<'ctx>) -> (r: &'a [Type<'ctx>])
        requires
            self@ < ctx.types().structs().len(),
        ensures
            views(r@) == ctx.types().structs().key_at(self@ as int).2,
    {
        ctx.ty.struct_cache.get(self.index()).field_tys.as_slice()
    }
}

impl<'ctx> ConstInt<'ctx> {
    /// The integer type of the constant.
    pub fn ty(self, ctx: &Context<'ctx>) -> (r: IntegerTy<'ctx>)
        requires
            self@ < ctx.values().const_ints().len(),
        ensures
            r@ == ctx.values().const_ints().key_at(self@ as int).0,
    {
        ctx.value.const_int_record(self.index()).ty
    }

    pub fn is_signed(self, ctx: &Context<'ctx>) -> (r: bool)
        requires
            self@ < ctx.values().const_ints().len(),
        ensures
            r == ctx.values().const_ints().key_at(self@ as int).1,
    {
        ctx.value.const_int_record(self.index()).signed
    }

    pub fn value(self, ctx: &Context<'ctx>) -> (r: IntRef<'ctx>)
        requires
            self@ < ctx.values().const_ints().len(),
        ensures
            r@ == ctx.values().const_ints().key_at(self@ as int).2,
    {
        ctx.value.const_int_record(self.index()).value
    }
}

impl<'ctx> Value<'ctx> {
    /// The type of the value.
    pub fn ty(self, ctx: &Context<'ctx>) -> (r: Type<'ctx>)
        requires
            self@.0 == ValueTag::ConstAggrZero ==> self@.1 < ctx.values().zero_values().len(),
            self@.0 == ValueTag::ConstInt ==> self@.1 < ctx.values().const_ints().len(),
        ensures
            self@.0 == ValueTag::ConstAggrZero ==> r@ == ctx.values().zero_values().key_at(self@.1 as int),
            self@.0 == ValueTag::ConstInt ==> r@ == (TypeTag::Integer, ctx.values().const_ints().key_at(
                self@.1 as int,
            ).0),
    {
        match self.tag() {
            ValueTag::ConstAggrZero => ctx.value.zero_record(self.index()).ty,
            ValueTag::ConstInt => ctx.value.const_int_record(self.index()).ty.erase(),
        }
    }
}

impl<'ctx> ConstAggrZero<'ctx> {
    /// The type whose zero value this is.
    pub fn ty(self, ctx: &Context<'ctx>) -> (r: Type<'ctx>)
        requires
            self@ < ctx.values().zero_values().len(),
        ensures
            r@ == ctx.values().zero_values().key_at(self@ as int),
    {
        ctx.value.zero_record(self.index()).ty
    }
}

} // verus!
