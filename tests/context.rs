use context::{
    AddressSpace, ArrayTy, ConstAggrZero, ConstInt, IntegerTy, UnitTy, BigInt, Context, FloatKind, PtrBits, StructFlags, Target, TypeTag, UnpackedType, UnpackedValue,
    STRUCT_PACKED, STRUCT_SIZED,
};

fn target32() -> Target {
    Target { ptr_diff_bits: PtrBits::_32, ptr_size_bits: PtrBits::_32 }
}

#[test]
fn context_basics() {
    Context::with(target32(), |mut ctx| {
        let _ = ctx.ty().unit();
        assert_eq!(ctx.ptr_ty(), ctx.ptr_ty());
        assert_eq!(ctx.int_ty_lit(9), ctx.int_ty_lit(9));
        assert_ne!(ctx.int_ty_lit(9), ctx.int_ty_lit(10));

        let unit = ctx.unit().erase();
        let a = ctx.function_ty(ctx.iptr().erase(), &[unit]);
        let b = ctx.function_ty(ctx.i32().erase(), &[unit]);
        assert_eq!(a, b);

        let four = ctx.intern_i32(4);
        let i3 = ctx.int_ty_lit(3);
        assert!(ctx.const_int(i3, four, true).is_none());
        let i4 = ctx.int_ty_lit(4);
        assert!(ctx.const_int(i4, four, false).is_some());
    });
}

#[test]
fn array_requests_are_canonical() {
    Context::with(target32(), |mut ctx| {
        let i32 = ctx.i32().erase();
        let first = ctx.array_ty(4, i32);
        let _ = ctx.int_ty(77);
        let _ = ctx.array_ty(9, i32);
        let _ = ctx.struct_ty(Some("Other"), StructFlags::new(0), &[i32]);
        let second = ctx.array_ty(4, i32);
        assert_eq!(first, second);
        assert_ne!(first, ctx.array_ty(5, i32));
        assert_eq!(first.len(&ctx), 4);
        assert_eq!(first.item_ty(&ctx), i32);
    });
}

#[test]
fn singletons_are_stable() {
    Context::with(target32(), |mut ctx| {
        assert_eq!(ctx.unit(), ctx.unit());
        assert_eq!(ctx.ty().unit(), ctx.unit());
        let i8 = ctx.i8();
        assert_eq!(ctx.int_ty(8), i8);
        assert_eq!(ctx.int_ty(1), ctx.i1());
        assert_eq!(ctx.int_ty(16), ctx.i16());
        assert_eq!(ctx.int_ty(64), ctx.i64());
        assert_eq!(ctx.int_ty(128), ctx.i128());
        assert_eq!(i8.bits(&ctx), 8);
        assert_eq!(ctx.isize(), ctx.i32());
        assert_eq!(ctx.float64().kind(&ctx), FloatKind::Ieee64Bit);
        assert_eq!(ctx.float16().kind(&ctx), FloatKind::Ieee16Bit);
        assert_ne!(ctx.float32(), ctx.float64());
    });
}

#[test]
fn target_selects_pointer_sized_integers() {
    let target = Target { ptr_diff_bits: PtrBits::_16, ptr_size_bits: PtrBits::_64 };
    Context::with(target, |ctx| {
        assert_eq!(ctx.isize(), ctx.i16());
        assert_eq!(ctx.iptr(), ctx.i64());
    });
}

#[test]
fn contexts_are_independent() {
    let outer_bits = Context::with(target32(), |outer| {
        let inner_bits = Context::with(target32(), |inner| inner.i32().bits(&inner));
        assert_eq!(inner_bits, 32);
        outer.i32().bits(&outer)
    });
    assert_eq!(outer_bits, 32);
}

#[test]
fn structs_compare_structurally() {
    Context::with(target32(), |mut ctx| {
        let i32 = ctx.i32().erase();
        let i64 = ctx.i64().erase();
        let flags = StructFlags::new(STRUCT_PACKED);
        let a = ctx.struct_ty(Some("Point"), flags, &[i32, i32]);
        let b = ctx.struct_ty(Some("Point"), flags, &[i32, i32]);
        assert_eq!(a, b);
        let c = ctx.struct_ty(Some("Point"), flags, &[i32, i64]);
        assert_ne!(a, c);
        let unnamed = ctx.struct_ty(None, flags, &[i32, i32]);
        assert_ne!(a, unnamed);
        let other_flags = ctx.struct_ty(Some("Point"), StructFlags::new(0), &[i32, i32]);
        assert_ne!(a, other_flags);
        assert_eq!(a.name(&ctx), Some("Point"));
        assert_eq!(unnamed.name(&ctx), None);
        assert_eq!(a.field_tys(&ctx), &[i32, i32]);
        assert!(a.flags(&ctx).packed());
        let empty = ctx.struct_ty(None, StructFlags::new(0), &[]);
        assert_eq!(empty.field_tys(&ctx).len(), 0);
        assert_eq!(empty, ctx.struct_ty(None, StructFlags::new(0), &[]));
    });
}

#[test]
fn const_int_respects_width() {
    Context::with(target32(), |mut ctx| {
        let i8 = ctx.i8();
        let v300 = ctx.intern_i32(300);
        assert!(ctx.const_int(i8, v300, false).is_none());
        let v127 = ctx.intern_i32(127);
        assert!(ctx.const_int(i8, v127, true).is_some());
        let minus_one = ctx.intern_i32(-1);
        assert!(ctx.const_int(i8, minus_one, false).is_none());
        assert!(ctx.const_int(i8, minus_one, true).is_some());
        let v128 = ctx.intern_i32(128);
        assert!(ctx.const_int(i8, v128, true).is_none());
        assert!(ctx.const_int(i8, v128, false).is_some());
        let v255 = ctx.intern_u32(255);
        assert!(ctx.const_int(i8, v255, false).is_some());
        let v256 = ctx.intern_u32(256);
        assert!(ctx.const_int(i8, v256, false).is_none());
        let m128 = ctx.intern_i32(-128);
        assert!(ctx.const_int(i8, m128, true).is_some());
        let m129 = ctx.intern_i32(-129);
        assert!(ctx.const_int(i8, m129, true).is_none());
    });
}

#[test]
fn const_ints_are_interned() {
    Context::with(target32(), |mut ctx| {
        let i16 = ctx.i16();
        let v = ctx.intern_i32(-7);
        let a = ctx.const_int(i16, v, true).unwrap();
        let b = ctx.const_int(i16, v, true).unwrap();
        assert_eq!(a, b);
        let c = ctx.const_int(i16, v, false);
        assert!(c.is_none());
        assert!(a.is_signed(&ctx));
        assert_eq!(a.ty(&ctx), i16);
        assert_eq!(a.value(&ctx), v);
        assert_eq!(a.erase().tag(), context::ValueTag::ConstInt);
        match a.erase().unpack() {
            UnpackedValue::ConstInt(x) => assert_eq!(x, a),
            UnpackedValue::ConstAggrZero(_) => panic!("wrong shape"),
        }
    });
}

#[test]
fn zero_and_one_are_shared() {
    Context::with(target32(), |mut ctx| {
        let zero = ctx.intern_i32(0);
        assert_eq!(zero, ctx.zero_value());
        let one = ctx.intern_u32(1);
        assert_eq!(one, ctx.one_value());
        assert_eq!(ctx.intern_integer_value(BigInt::zero()), ctx.zero_value());
        assert_eq!(ctx.integer(zero).is_zero(), true);
        assert_eq!(ctx.integer(one).is_one(), true);
        let big = ctx.intern_i32(123_456);
        let again = ctx.intern_u32(123_456);
        assert_eq!(big, again);
        assert_ne!(big, ctx.intern_i32(-123_456));
    });
}

#[test]
fn zero_values_are_one_per_type() {
    Context::with(target32(), |mut ctx| {
        let i32 = ctx.i32().erase();
        let a = ctx.const_aggr_zero(i32);
        let b = ctx.const_aggr_zero(i32);
        assert_eq!(a, b);
        assert_eq!(a.ty(&ctx), i32);
        let unit = ctx.unit().erase();
        assert_ne!(a, ctx.const_aggr_zero(unit));
    });
}

#[test]
fn erased_types_unpack_to_their_shape() {
    Context::with(target32(), |mut ctx| {
        let i32 = ctx.i32();
        let ty = i32.erase();
        assert_eq!(ty.tag(), TypeTag::Integer);
        assert_eq!(ty.unpack(), UnpackedType::Integer(i32));
        let f = ctx.function_ty(ctx.unit().erase(), &[ty, ty]);
        assert_eq!(f.erase().unpack(), UnpackedType::Function(f));
        assert_eq!(f.output_ty(&ctx), ctx.unit().erase());
        assert_eq!(f.arguments_tys(&ctx), &[ty, ty]);
        let g = ctx.function_ty(ty, &[]);
        assert_eq!(g.arguments_tys(&ctx).len(), 0);
        assert_ne!(f.erase(), g.erase());
        assert_eq!(ctx.unit().erase().unpack(), UnpackedType::Unit(ctx.unit()));
        assert_eq!(ctx.float32().erase().tag(), TypeTag::Float);
        let p = ctx.ptr_ty();
        assert_eq!(p.erase().unpack(), UnpackedType::Pointer(p));
    });
}

#[test]
fn pointers_by_address_space() {
    Context::with(target32(), |mut ctx| {
        assert_eq!(ctx.ptr_ty_at(AddressSpace::default_space()), ctx.ptr_ty());
        let p5 = ctx.ptr_ty_at(AddressSpace::new(5));
        assert_eq!(p5, ctx.ptr_ty_at(AddressSpace::new(5)));
        assert_ne!(p5, ctx.ptr_ty());
        assert_eq!(p5.address_space(&ctx).get(), 5);
        let far = ctx.ptr_ty_at(AddressSpace::new(0xab_cdef));
        assert_eq!(far.address_space(&ctx).get(), 0xab_cdef);
        assert!(ctx.ptr_ty().address_space(&ctx).is_default());
    });
}

#[test]
fn big_integer_bit_counts() {
    let cases: [(i64, u64, u64); 10] = [
        (0, 0, 1),
        (1, 1, 2),
        (2, 2, 3),
        (3, 2, 3),
        (4, 3, 4),
        (7, 3, 4),
        (-1, 1, 1),
        (-2, 2, 2),
        (-4, 3, 3),
        (-5, 3, 4),
    ];
    for (v, sig, signed) in cases {
        let x = BigInt::from_i64(v);
        assert_eq!(x.significant_bits(), sig, "significant bits of {}", v);
        assert_eq!(x.signed_bits(), signed, "signed bits of {}", v);
    }
    let big = BigInt::from_limbs(false, vec![0, 1, 0, 0]);
    assert_eq!(big.significant_bits(), 65);
    assert_eq!(big.signed_bits(), 66);
    let neg = BigInt::from_limbs(true, vec![0, 1]);
    assert!(neg.is_negative());
    assert_eq!(neg.signed_bits(), 65);
    assert!(BigInt::from_limbs(true, vec![0, 0]).is_zero());
    assert!(!BigInt::from_limbs(true, vec![0, 0]).is_negative());
}

#[test]
fn struct_flags_bits() {
    let f = StructFlags::new(STRUCT_PACKED).union(StructFlags::new(STRUCT_SIZED));
    assert!(f.packed());
    assert!(f.sized());
    assert!(!f.opaque());
    assert!(!f.literal());
    assert!(f.any());
    assert!(!StructFlags::new(0).any());
    assert_eq!(f.intersection(StructFlags::new(STRUCT_SIZED)).bits(), STRUCT_SIZED);
}

#[test]
fn casts_follow_the_tag() {
    Context::with(target32(), |mut ctx| {
        let i32 = ctx.i32();
        let ty = i32.erase();
        assert_eq!(ty.try_cast::<IntegerTy>(), Some(i32));
        assert!(ty.try_cast::<ArrayTy>().is_none());
        assert_eq!(ty.cast::<IntegerTy>(), i32);
        assert_eq!(ctx.unit().erase().try_cast::<UnitTy>(), Some(ctx.unit()));
        let arr = ctx.array_ty(2, ty);
        assert_eq!(arr.erase().cast::<ArrayTy>(), arr);

        let v = ctx.intern_i32(5);
        let c = ctx.const_int(ctx.i8(), v, true).unwrap();
        let erased = c.erase();
        assert_eq!(erased.try_cast::<ConstInt>(), Some(c));
        assert!(erased.try_cast::<ConstAggrZero>().is_none());
        assert_eq!(erased.ty(&ctx), ctx.i8().erase());
        let z = ctx.const_aggr_zero(arr.erase());
        assert_eq!(z.erase().cast::<ConstAggrZero>(), z);
        assert_eq!(z.erase().ty(&ctx), arr.erase());
    });
}

#[test]
fn integer_references_report_their_kind() {
    Context::with(target32(), |mut ctx| {
        assert!(ctx.zero_value().is_zero());
        assert!(ctx.one_value().is_one());
        let seven = ctx.intern_i32(7);
        assert!(!seven.is_zero() && !seven.is_one());
        assert_eq!(ctx.integer(seven).significant_bits(), 3);
        let big = BigInt::from_limbs(true, vec![5, 9]);
        let r = ctx.intern_integer_value(big);
        let again = ctx.intern_integer_value(BigInt::from_limbs(true, vec![5, 9, 0]));
        assert_eq!(r, again);
        assert!(ctx.integer(r).is_negative());
    });
}
