use core::marker::PhantomData;

use vstd::prelude::*;

use crate::cache::InternKey;

verus! {

/// Ties a handle to the one context that made it.
///
/// The lifetime is invariant and is chosen afresh for each context, so the compiler rejects
/// any attempt to mix handles of two contexts or to keep one after its context is gone.
#[derive(Clone, Copy, Debug, Hash)]
pub struct Brand<'ctx>(PhantomData<&'ctx mut &'ctx ()>);

impl<'ctx> Brand<'ctx> {
    pub(crate) fn new() -> Self {
        Brand(PhantomData)
    }
}

/// Which concrete shape a type handle points to. Each shape has exactly one tag.
#[derive(Clone, Copy, PartialEq, Eq, Hash, Debug, Structural)]
pub enum TypeTag {
    Unit,
    Integer,
    Pointer,
    Function,
    Array,
    Struct,
    Float,
}

impl TypeTag {
    /// A word that identifies the tag, for hashing.
    pub open spec fn spec_code(self) -> u64 {
        match self {
            TypeTag::Unit => 0,
            TypeTag::Integer => 1,
            TypeTag::Pointer => 2,
            TypeTag::Function => 3,
            TypeTag::Array => 4,
            TypeTag::Struct => 5,
            TypeTag::Float => 6,
        }
    }

    pub fn code(self) -> (r: u64)
        ensures
            r == self.spec_code(),
    {
        match self {
            TypeTag::Unit => 0,
            TypeTag::Integer => 1,
            TypeTag::Pointer => 2,
            TypeTag::Function => 3,
            TypeTag::Array => 4,
            TypeTag::Struct => 5,
            TypeTag::Float => 6,
        }
    }
}

/// A type of any shape: its tag and the index of its record in that shape's arena.
///
/// Two handles of one context are equal exactly when they name the same record.
#[derive(Clone, Copy, Debug, Hash)]
pub struct Type<'ctx> {
    tag: TypeTag,
    index: usize,
    brand: Brand<'ctx>,
}

impl<'ctx> View for Type<'ctx> {
    type V = (TypeTag, nat);

    closed spec fn view(&self) -> (TypeTag, nat) {
        (self.tag, self.index as nat)
    }
}

impl<'ctx> Type<'ctx> {
    pub(crate) fn from_parts(tag: TypeTag, index: usize, brand: Brand<'ctx>) -> (r: Self)
        ensures
            r@ == (tag, index as nat),
    {
        Type { tag, index, brand }
    }

    pub fn tag(&self) -> (r: TypeTag)
        ensures
            r == self@.0,
    {
        self.tag
    }

    pub(crate) fn index(&self) -> (r: usize)
        ensures
            r == self@.1,
    {
        self.index
    }

    /// The concrete handle behind this type, picked by its tag.
    pub fn unpack(self) -> (r: UnpackedType<'ctx>)
        ensures
            r.erase_spec().0 == self@.0,
            self@.0 != TypeTag::Unit ==> r.erase_spec() == self@,
    {
        match self.tag {
            TypeTag::Unit => UnpackedType::Unit(UnitTy { brand: self.brand }),
            TypeTag::Integer => UnpackedType::Integer(IntegerTy { index: self.index, brand: self.brand }),
            TypeTag::Pointer => UnpackedType::Pointer(PointerTy { index: self.index, brand: self.brand }),
            TypeTag::Function => UnpackedType::Function(FunctionTy { index: self.index, brand: self.brand }),
            TypeTag::Array => UnpackedType::Array(ArrayTy { index: self.index, brand: self.brand }),
            TypeTag::Struct => UnpackedType::Struct(StructTy { index: self.index, brand: self.brand }),
            TypeTag::Float => UnpackedType::Float(FloatTy { index: self.index, brand: self.brand }),
        }
    }

    /// Whether two sequences of handles name the same records, in order.
    pub fn same_seq(a: &[Type<'ctx>], b: &[Type<'ctx>]) -> (r: bool)
        ensures
            r == (views(a@) == views(b@)),
    {
        if a.len() != b.len() {
            assert(views(a@).len() != views(b@).len());
            return false;
        }
        let mut i: usize = 0;
        while i < a.len()
            invariant
                a@.len() == b@.len(),
                i <= a@.len(),
                forall|j: int| 0 <= j < i ==> a@[j]@ == b@[j]@,
            decreases a@.len() - i,
        {
            if a[i].tag != b[i].tag || a[i].index != b[i].index {
                assert(views(a@)[i as int] != views(b@)[i as int]);
                return false;
            }
            i = i + 1;
        }
        assert(views(a@) =~= views(b@));
        true
    }

    /// Appends the tag and index of each handle to `out`.
    pub(crate) fn push_words(out: &mut Vec<u64>, ts: &[Type<'ctx>])
        ensures
            final(out)@ == old(out)@ + handle_words(views(ts@)),
    {
        let mut i: usize = 0;
        while i < ts.len()
            invariant
                i <= ts@.len(),
                out@ == old(out)@ + handle_words(views(ts@).take(i as int)),
            decreases ts@.len() - i,
        {
            let t = ts[i];
            out.push(t.tag.code());
            out.push(t.index as u64);
            proof {
                let vs = views(ts@);
                assert(vs.take(i + 1).drop_last() =~= vs.take(i as int));
                assert(vs.take(i + 1).last() == vs[i as int]);
            }
            i = i + 1;
        }
        assert(views(ts@).take(ts@.len() as int) =~= views(ts@));
    }
}

impl<'ctx> PartialEq for Type<'ctx> {
    fn eq(&self, other: &Type<'ctx>) -> (r: bool) {
        self.tag == other.tag && self.index == other.index
    }
}

impl<'ctx> vstd::std_specs::cmp::PartialEqSpecImpl for Type<'ctx> {
    open spec fn obeys_eq_spec() -> bool {
        true
    }

    open spec fn eq_spec(&self, other: &Type<'ctx>) -> bool {
        self@ == other@
    }
}

impl<'ctx> Eq for Type<'ctx> {

}

/// The tag and index of each handle.
pub open spec fn views<'ctx>(ts: Seq<Type<'ctx>>) -> Seq<(TypeTag, nat)> {
    ts.map_values(|t: Type<'ctx>| t@)
}

/// Two words per handle: its tag's code and its index.
pub open spec fn handle_words(vs: Seq<(TypeTag, nat)>) -> Seq<u64>
    decreases vs.len(),
{
    if vs.len() == 0 {
        Seq::empty()
    } else {
        handle_words(vs.drop_last()) + seq![vs.last().0.spec_code(), vs.last().1 as u64]
    }
}

/// The unit type. There is one per context, and all unit handles compare equal.
#[derive(Clone, Copy, Debug, Hash)]
pub struct UnitTy<'ctx> {
    brand: Brand<'ctx>,
}

impl<'ctx> UnitTy<'ctx> {
    pub(crate) fn new(brand: Brand<'ctx>) -> Self {
        UnitTy { brand }
    }

    pub fn erase(self) -> (r: Type<'ctx>)
        ensures
            r@ == (TypeTag::Unit, 0nat),
    {
        Type { tag: TypeTag::Unit, index: 0, brand: self.brand }
    }

    pub fn tag(self) -> (r: TypeTag)
        ensures
            r == TypeTag::Unit,
    {
        TypeTag::Unit
    }
}

impl<'ctx> PartialEq for UnitTy<'ctx> {
    fn eq(&self, other: &UnitTy<'ctx>) -> (r: bool) {
        true
    }
}

impl<'ctx> vstd::std_specs::cmp::PartialEqSpecImpl for UnitTy<'ctx> {
    open spec fn obeys_eq_spec() -> bool {
        true
    }

    open spec fn eq_spec(&self, other: &UnitTy<'ctx>) -> bool {
        true
    }
}

impl<'ctx> Eq for UnitTy<'ctx> {

}

/// An integer type of a given number of bits.
#[derive(Clone, Copy, Debug, Hash)]
pub struct IntegerTy<'ctx> {
    index: usize,
    brand: Brand<'ctx>,
}

/// A pointer type in a given address space.
#[derive(Clone, Copy, Debug, Hash)]
pub struct PointerTy<'ctx> {
    index: usize,
    brand: Brand<'ctx>,
}

/// A function type: output and argument types.
#[derive(Clone, Copy, Debug, Hash)]
pub struct FunctionTy<'ctx> {
    index: usize,
    brand: Brand<'ctx>,
}

/// An array type: item type and length.
#[derive(Clone, Copy, Debug, Hash)]
pub struct ArrayTy<'ctx> {
    index: usize,
    brand: Brand<'ctx>,
}

/// A struct type: optional name, flags and field types.
#[derive(Clone, Copy, Debug, Hash)]
pub struct StructTy<'ctx> {
    index: usize,
    brand: Brand<'ctx>,
}

/// An IEEE floating-point type.
#[derive(Clone, Copy, Debug, Hash)]
pub struct FloatTy<'ctx> {
    index: usize,
    brand: Brand<'ctx>,
}

impl<'ctx> View for IntegerTy<'ctx> {
    type V = nat;

    closed spec fn view(&self) -> nat {
        self.index as nat
    }
}

impl<'ctx> IntegerTy<'ctx> {
    pub(crate) fn new(index: usize, brand: Brand<'ctx>) -> (r: Self)
        ensures
            r@ == index,
    {
        IntegerTy { index, brand }
    }

    pub(crate) fn index(self) -> (r: usize)
        ensures
            r == self@,
    {
        self.index
    }

    pub fn erase(self) -> (r: Type<'ctx>)
        ensures
            r@ == (TypeTag::Integer, self@),
    {
        Type { tag: TypeTag::Integer, index: self.index, brand: self.brand }
    }

    pub fn tag(self) -> (r: TypeTag)
        ensures
            r == TypeTag::Integer,
    {
        TypeTag::Integer
    }
}

impl<'ctx> PartialEq for IntegerTy<'ctx> {
    fn eq(&self, other: &IntegerTy<'ctx>) -> (r: bool) {
        self.index == other.index
    }
}

impl<'ctx> vstd::std_specs::cmp::PartialEqSpecImpl for IntegerTy<'ctx> {
    open spec fn obeys_eq_spec() -> bool {
        true
    }

    open spec fn eq_spec(&self, other: &IntegerTy<'ctx>) -> bool {
        self@ == other@
    }
}

impl<'ctx> Eq for IntegerTy<'ctx> {

}

impl<'ctx> View for PointerTy<'ctx> {
    type V = nat;

    closed spec fn view(&self) -> nat {
        self.index as nat
    }
}

impl<'ctx> PointerTy<'ctx> {
    pub(crate) fn new(index: usize, brand: Brand<'ctx>) -> (r: Self)
        ensures
            r@ == index,
    {
        PointerTy { index, brand }
    }

    pub(crate) fn index(self) -> (r: usize)
        ensures
            r == self@,
    {
        self.index
    }

    pub fn erase(self) -> (r: Type<'ctx>)
        ensures
            r@ == (TypeTag::Pointer, self@),
    {
        Type { tag: TypeTag::Pointer, index: self.index, brand: self.brand }
    }

    pub fn tag(self) -> (r: TypeTag)
        ensures
            r == TypeTag::Pointer,
    {
        TypeTag::Pointer
    }
}

impl<'ctx> PartialEq for PointerTy<'ctx> {
    fn eq(&self, other: &PointerTy<'ctx>) -> (r: bool) {
        self.index == other.index
    }
}

impl<'ctx> vstd::std_specs::cmp::PartialEqSpecImpl for PointerTy<'ctx> {
    open spec fn obeys_eq_spec() -> bool {
        true
    }

    open spec fn eq_spec(&self, other: &PointerTy<'ctx>) -> bool {
        self@ == other@
    }
}

impl<'ctx> Eq for PointerTy<'ctx> {

}

impl<'ctx> View for FunctionTy<'ctx> {
    type V = nat;

    closed spec fn view(&self) -> nat {
        self.index as nat
    }
}

impl<'ctx> FunctionTy<'ctx> {
    pub(crate) fn new(index: usize, brand: Brand<'ctx>) -> (r: Self)
        ensures
            r@ == index,
    {
        FunctionTy { index, brand }
    }

    pub(crate) fn index(self) -> (r: usize)
        ensures
            r == self@,
    {
        self.index
    }

    pub fn erase(self) -> (r: Type<'ctx>)
        ensures
            r@ == (TypeTag::Function, self@),
    {
        Type { tag: TypeTag::Function, index: self.index, brand: self.brand }
    }

    pub fn tag(self) -> (r: TypeTag)
        ensures
            r == TypeTag::Function,
    {
        TypeTag::Function
    }
}

impl<'ctx> PartialEq for FunctionTy<'ctx> {
    fn eq(&self, other: &FunctionTy<'ctx>) -> (r: bool) {
        self.index == other.index
    }
}

impl<'ctx> vstd::std_specs::cmp::PartialEqSpecImpl for FunctionTy<'ctx> {
    open spec fn obeys_eq_spec() -> bool {
        true
    }

    open spec fn eq_spec(&self, other: &FunctionTy<'ctx>) -> bool {
        self@ == other@
    }
}

impl<'ctx> Eq for FunctionTy<'ctx> {

}

impl<'ctx> View for ArrayTy<'ctx> {
    type V = nat;

    closed spec fn view(&self) -> nat {
        self.index as nat
    }
}

impl<'ctx> ArrayTy<'ctx> {
    pub(crate) fn new(index: usize, brand: Brand<'ctx>) -> (r: Self)
        ensures
            r@ == index,
    {
        ArrayTy { index, brand }
    }

    pub(crate) fn index(self) -> (r: usize)
        ensures
            r == self@,
    {
        self.index
    }

    pub fn erase(self) -> (r: Type<'ctx>)
        ensures
            r@ == (TypeTag::Array, self@),
    {
        Type { tag: TypeTag::Array, index: self.index, brand: self.brand }
    }

    pub fn tag(self) -> (r: TypeTag)
        ensures
            r == TypeTag::Array,
    {
        TypeTag::Array
    }
}

impl<'ctx> PartialEq for ArrayTy<'ctx> {
    fn eq(&self, other: &ArrayTy<'ctx>) -> (r: bool) {
        self.index == other.index
    }
}

impl<'ctx> vstd::std_specs::cmp::PartialEqSpecImpl for ArrayTy<'ctx> {
    open spec fn obeys_eq_spec() -> bool {
        true
    }

    open spec fn eq_spec(&self, other: &ArrayTy<'ctx>) -> bool {
        self@ == other@
    }
}

impl<'ctx> Eq for ArrayTy<'ctx> {

}

impl<'ctx> View for StructTy<'ctx> {
    type V = nat;

    closed spec fn view(&self) -> nat {
        self.index as nat
    }
}

impl<'ctx> StructTy<'ctx> {
    pub(crate) fn new(index: usize, brand: Brand<'ctx>) -> (r: Self)
        ensures
            r@ == index,
    {
        StructTy { index, brand }
    }

    pub(crate) fn index(self) -> (r: usize)
        ensures
            r == self@,
    {
        self.index
    }

    pub fn erase(self) -> (r: Type<'ctx>)
        ensures
            r@ == (TypeTag::Struct, self@),
    {
        Type { tag: TypeTag::Struct, index: self.index, brand: self.brand }
    }

    pub fn tag(self) -> (r: TypeTag)
        ensures
            r == TypeTag::Struct,
    {
        TypeTag::Struct
    }
}

impl<'ctx> PartialEq for StructTy<'ctx> {
    fn eq(&self, other: &StructTy<'ctx>) -> (r: bool) {
        self.index == other.index
    }
}

impl<'ctx> vstd::std_specs::cmp::PartialEqSpecImpl for StructTy<'ctx> {
    open spec fn obeys_eq_spec() -> bool {
        true
    }

    open spec fn eq_spec(&self, other: &StructTy<'ctx>) -> bool {
        self@ == other@
    }
}

impl<'ctx> Eq for StructTy<'ctx> {

}

impl<'ctx> View for FloatTy<'ctx> {
    type V = nat;

    closed spec fn view(&self) -> nat {
        self.index as nat
    }
}

impl<'ctx> FloatTy<'ctx> {
    pub(crate) fn new(index: usize, brand: Brand<'ctx>) -> (r: Self)
        ensures
            r@ == index,
    {
        FloatTy { index, brand }
    }

    pub(crate) fn index(self) -> (r: usize)
        ensures
            r == self@,
    {
        self.index
    }

    pub fn erase(self) -> (r: Type<'ctx>)
        ensures
            r@ == (TypeTag::Float, self@),
    {
        Type { tag: TypeTag::Float, index: self.index, brand: self.brand }
    }

    pub fn tag(self) -> (r: TypeTag)
        ensures
            r == TypeTag::Float,
    {
        TypeTag::Float
    }
}

impl<'ctx> PartialEq for FloatTy<'ctx> {
    fn eq(&self, other: &FloatTy<'ctx>) -> (r: bool) {
        self.index == other.index
    }
}

impl<'ctx> vstd::std_specs::cmp::PartialEqSpecImpl for FloatTy<'ctx> {
    open spec fn obeys_eq_spec() -> bool {
        true
    }

    open spec fn eq_spec(&self, other: &FloatTy<'ctx>) -> bool {
        self@ == other@
    }
}

impl<'ctx> Eq for FloatTy<'ctx> {

}

/// A concrete type handle: the one shape that its tag stands for.
pub trait TypeInfo<'ctx>: Sized {
    spec fn spec_tag() -> TypeTag;

    /// The index of the record the handle names.
    spec fn spec_index(self) -> nat;

    fn tag_of() -> (r: TypeTag)
        ensures
            r == Self::spec_tag(),
    ;

    /// The handle of this shape for the record at `index`.
    fn from_index(index: usize, brand: Brand<'ctx>) -> (r: Self)
        ensures
            Self::spec_tag() != TypeTag::Unit ==> r.spec_index() == index,
    ;
}

impl<'ctx> Type<'ctx> {
    /// The concrete handle, when this type has the shape `T`.
    pub fn try_cast<T: TypeInfo<'ctx>>(self) -> (r: Option<T>)
        ensures
            r is Some <==> self@.0 == T::spec_tag(),
            r matches Some(t) ==> (T::spec_tag() != TypeTag::Unit ==> t.spec_index() == self@.1),
    {
        if self.tag == T::tag_of() {
            Some(T::from_index(self.index, self.brand))
        } else {
            None
        }
    }

    /// The concrete handle of shape `T`, which this type must have.
    pub fn cast<T: TypeInfo<'ctx>>(self) -> (r: T)
        requires
            self@.0 == T::spec_tag(),
        ensures
            T::spec_tag() != TypeTag::Unit ==> r.spec_index() == self@.1,
    {
        T::from_index(self.index, self.brand)
    }
}

impl<'ctx> TypeInfo<'ctx> for UnitTy<'ctx> {
    open spec fn spec_tag() -> TypeTag {
        TypeTag::Unit
    }

    open spec fn spec_index(self) -> nat {
        0nat
    }

    fn tag_of() -> (r: TypeTag) {
        TypeTag::Unit
    }

    fn from_index(index: usize, brand: Brand<'ctx>) -> (r: Self) {
        UnitTy { brand }
    }
}

impl<'ctx> TypeInfo<'ctx> for IntegerTy<'ctx> {
    open spec fn spec_tag() -> TypeTag {
        TypeTag::Integer
    }

    open spec fn spec_index(self) -> nat {
        self@
    }

    fn tag_of() -> (r: TypeTag) {
        TypeTag::Integer
    }

    fn from_index(index: usize, brand: Brand<'ctx>) -> (r: Self) {
        IntegerTy { index, brand }
    }
}

impl<'ctx> TypeInfo<'ctx> for PointerTy<'ctx> {
    open spec fn spec_tag() -> TypeTag {
        TypeTag::Pointer
    }

    open spec fn spec_index(self) -> nat {
        self@
    }

    fn tag_of() -> (r: TypeTag) {
        TypeTag::Pointer
    }

    fn from_index(index: usize, brand: Brand<'ctx>) -> (r: Self) {
        PointerTy { index, brand }
    }
}

impl<'ctx> TypeInfo<'ctx> for FunctionTy<'ctx> {
    open spec fn spec_tag() -> TypeTag {
        TypeTag::Function
    }

    open spec fn spec_index(self) -> nat {
        self@
    }

    fn tag_of() -> (r: TypeTag) {
        TypeTag::Function
    }

    fn from_index(index: usize, brand: Brand<'ctx>) -> (r: Self) {
        FunctionTy { index, brand }
    }
}

impl<'ctx> TypeInfo<'ctx> for ArrayTy<'ctx> {
    open spec fn spec_tag() -> TypeTag {
        TypeTag::Array
    }

    open spec fn spec_index(self) -> nat {
        self@
    }

    fn tag_of() -> (r: TypeTag) {
        TypeTag::Array
    }

    fn from_index(index: usize, brand: Brand<'ctx>) -> (r: Self) {
        ArrayTy { index, brand }
    }
}

impl<'ctx> TypeInfo<'ctx> for StructTy<'ctx> {
    open spec fn spec_tag() -> TypeTag {
        TypeTag::Struct
    }

    open spec fn spec_index(self) -> nat {
        self@
    }

    fn tag_of() -> (r: TypeTag) {
        TypeTag::Struct
    }

    fn from_index(index: usize, brand: Brand<'ctx>) -> (r: Self) {
        StructTy { index, brand }
    }
}

impl<'ctx> TypeInfo<'ctx> for FloatTy<'ctx> {
    open spec fn spec_tag() -> TypeTag {
        TypeTag::Float
    }

    open spec fn spec_index(self) -> nat {
        self@
    }

    fn tag_of() -> (r: TypeTag) {
        TypeTag::Float
    }

    fn from_index(index: usize, brand: Brand<'ctx>) -> (r: Self) {
        FloatTy { index, brand }
    }
}

/// A type handle opened up to its concrete shape.
#[derive(Clone, Copy, Debug, PartialEq, Eq)]
pub enum UnpackedType<'ctx> {
    Unit(UnitTy<'ctx>),
    Integer(IntegerTy<'ctx>),
    Pointer(PointerTy<'ctx>),
    Function(FunctionTy<'ctx>),
    Array(ArrayTy<'ctx>),
    Struct(StructTy<'ctx>),
    Float(FloatTy<'ctx>),
}

impl<'ctx> UnpackedType<'ctx> {
    /// The tag and index of the erased handle.
    pub open spec fn erase_spec(self) -> (TypeTag, nat) {
        match self {
            UnpackedType::Unit(_) => (TypeTag::Unit, 0nat),
            UnpackedType::Integer(t) => (TypeTag::Integer, t@),
            UnpackedType::Pointer(t) => (TypeTag::Pointer, t@),
            UnpackedType::Function(t) => (TypeTag::Function, t@),
            UnpackedType::Array(t) => (TypeTag::Array, t@),
            UnpackedType::Struct(t) => (TypeTag::Struct, t@),
            UnpackedType::Float(t) => (TypeTag::Float, t@),
        }
    }
}

/// Bits of `StructFlags`.
pub const STRUCT_PACKED: u16 = 1;

pub const STRUCT_OPAQUE: u16 = 2;

pub const STRUCT_LITERAL: u16 = 4;

pub const STRUCT_SIZED: u16 = 8;

/// Layout flags of a struct type.
#[derive(Clone, Copy, PartialEq, Eq, Hash, Debug, Default, Structural)]
pub struct StructFlags(u16);

impl View for StructFlags {
    type V = u16;

    closed spec fn view(&self) -> u16 {
        self.0
    }
}

impl StructFlags {
    pub fn new(bits: u16) -> (r: Self)
        ensures
            r@ == bits,
    {
        StructFlags(bits)
    }

    pub fn bits(self) -> (r: u16)
        ensures
            r == self@,
    {
        self.0
    }

    /// The flags set in either.
    pub fn union(self, other: Self) -> (r: Self)
        ensures
            r@ == self@ | other@,
    {
        StructFlags(self.0 | other.0)
    }

    /// The flags set in both.
    pub fn intersection(self, other: Self) -> (r: Self)
        ensures
            r@ == self@ & other@,
    {
        StructFlags(self.0 & other.0)
    }

    pub fn any(self) -> (r: bool)
        ensures
            r == (self@ != 0),
    {
        self.0 != 0
    }

    pub fn packed(self) -> (r: bool)
        ensures
            r == (self@ & STRUCT_PACKED != 0),
    {
        self.intersection(StructFlags(STRUCT_PACKED)).any()
    }

    pub fn opaque(self) -> (r: bool)
        ensures
            r == (self@ & STRUCT_OPAQUE != 0),
    {
        self.intersection(StructFlags(STRUCT_OPAQUE)).any()
    }

    pub fn literal(self) -> (r: bool)
        ensures
            r == (self@ & STRUCT_LITERAL != 0),
    {
        self.intersection(StructFlags(STRUCT_LITERAL)).any()
    }

    pub fn sized(self) -> (r: bool)
        ensures
            r == (self@ & STRUCT_SIZED != 0),
    {
        self.intersection(StructFlags(STRUCT_SIZED)).any()
    }
}

/// An address space: a 24-bit number, 0 being the default space.
#[derive(Clone, Copy, PartialEq, Eq, Hash, Debug, Structural)]
pub struct AddressSpace(u8, u8, u8);

impl View for AddressSpace {
    type V = nat;

    closed spec fn view(&self) -> nat {
        self.0 as nat + self.1 as nat * 0x100 + self.2 as nat * 0x1_0000
    }
}

impl AddressSpace {
    pub fn new(address_space: u32) -> (r: Self)
        requires
            address_space < 0x100_0000,
        ensures
            r@ == address_space,
    {
        let a = (address_space % 0x100) as u8;
        let b = (address_space / 0x100 % 0x100) as u8;
        let c = (address_space / 0x1_0000) as u8;
        AddressSpace(a, b, c)
    }

    /// The default address space, 0.
    pub fn default_space() -> (r: Self)
        ensures
            r@ == 0,
    {
        AddressSpace(0, 0, 0)
    }

    pub fn get(self) -> (r: u32)
        ensures
            r == self@,
    {
        self.0 as u32 + self.1 as u32 * 0x100 + self.2 as u32 * 0x1_0000
    }

    pub fn is_default(self) -> (r: bool)
        ensures
            r == (self@ == 0),
    {
        self.get() == 0
    }
}

/// The IEEE 754 binary formats.
#[derive(Clone, Copy, PartialEq, Eq, Hash, Debug, Structural)]
pub enum FloatKind {
    Ieee16Bit,
    Ieee32Bit,
    Ieee64Bit,
}

impl FloatKind {
    pub open spec fn spec_code(self) -> u64 {
        match self {
            FloatKind::Ieee16Bit => 16,
            FloatKind::Ieee32Bit => 32,
            FloatKind::Ieee64Bit => 64,
        }
    }
}

/// The payload of the unit type: there is none.
#[derive(Clone, Copy, PartialEq, Eq, Hash, Debug)]
pub struct UnitInfo;

/// The record of an integer type.
pub struct IntegerInfo {
    pub bits: u16,
}

impl InternKey for IntegerInfo {
    type Key = u16;

    open spec fn key(&self) -> u16 {
        self.bits
    }

    open spec fn key_hash_words(k: u16) -> Seq<u64> {
        seq![k as u64]
    }

    fn hash_words(&self) -> (r: Vec<u64>) {
        vec![self.bits as u64]
    }

    fn same_key(&self, other: &Self) -> (r: bool) {
        self.bits == other.bits
    }
}

/// The record of a pointer type.
pub struct PointerInfo {
    pub address_space: AddressSpace,
}

impl InternKey for PointerInfo {
    type Key = nat;

    open spec fn key(&self) -> nat {
        self.address_space@
    }

    open spec fn key_hash_words(k: nat) -> Seq<u64> {
        seq![k as u64]
    }

    fn hash_words(&self) -> (r: Vec<u64>) {
        vec![self.address_space.get() as u64]
    }

    fn same_key(&self, other: &Self) -> (r: bool) {
        self.address_space.get() == other.address_space.get()
    }
}

/// The record of a floating-point type.
pub struct FloatInfo {
    pub kind: FloatKind,
}

impl InternKey for FloatInfo {
    type Key = FloatKind;

    open spec fn key(&self) -> FloatKind {
        self.kind
    }

    open spec fn key_hash_words(k: FloatKind) -> Seq<u64> {
        seq![k.spec_code()]
    }

    fn hash_words(&self) -> (r: Vec<u64>) {
        let code: u64 = match self.kind {
            FloatKind::Ieee16Bit => 16,
            FloatKind::Ieee32Bit => 32,
            FloatKind::Ieee64Bit => 64,
        };
        vec![code]
    }

    fn same_key(&self, other: &Self) -> (r: bool) {
        self.kind == other.kind
    }
}

/// The record of a function type; the argument types trail the output type.
pub struct FunctionInfo<'ctx> {
    pub output_ty: Type<'ctx>,
    pub arguments_tys: Vec<Type<'ctx>>,
}

/// The logical key of a function type: output type and argument types.
pub struct FunctionInit<'ctx, 'a> {
    pub output_ty: Type<'ctx>,
    pub arguments: &'a [Type<'ctx>],
}

impl<'ctx> InternKey for FunctionInfo<'ctx> {
    type Key = ((TypeTag, nat), Seq<(TypeTag, nat)>);

    open spec fn key(&self) -> ((TypeTag, nat), Seq<(TypeTag, nat)>) {
        (self.output_ty@, views(self.arguments_tys@))
    }

    open spec fn key_hash_words(k: ((TypeTag, nat), Seq<(TypeTag, nat)>)) -> Seq<u64> {
        handle_words(seq![k.0]) + handle_words(k.1)
    }

    fn hash_words(&self) -> (r: Vec<u64>) {
        let mut r: Vec<u64> = Vec::new();
        Type::push_words(&mut r, &[self.output_ty]);
        Type::push_words(&mut r, self.arguments_tys.as_slice());
        proof {
            let a = [self.output_ty];
            assert(views(a@) =~= seq![self.output_ty@]);
        }
        r
    }

    fn same_key(&self, other: &Self) -> (r: bool) {
        self.output_ty.tag == other.output_ty.tag && self.output_ty.index == other.output_ty.index
            && Type::same_seq(self.arguments_tys.as_slice(), other.arguments_tys.as_slice())
    }
}

/// The record of an array type, which is also its logical key.
pub struct ArrayInfo<'ctx> {
    pub item_ty: Type<'ctx>,
    pub len: u64,
}

/// The logical key of an array type.
pub struct ArrayInit<'ctx> {
    pub item_ty: Type<'ctx>,
    pub len: u64,
}

impl<'ctx> InternKey for ArrayInfo<'ctx> {
    type Key = ((TypeTag, nat), u64);

    open spec fn key(&self) -> ((TypeTag, nat), u64) {
        (self.item_ty@, self.len)
    }

    open spec fn key_hash_words(k: ((TypeTag, nat), u64)) -> Seq<u64> {
        handle_words(seq![k.0]) + seq![k.1]
    }

    fn hash_words(&self) -> (r: Vec<u64>) {
        let mut r: Vec<u64> = Vec::new();
        Type::push_words(&mut r, &[self.item_ty]);
        r.push(self.len);
        proof {
            let a = [self.item_ty];
            assert(views(a@) =~= seq![self.item_ty@]);
        }
        r
    }

    fn same_key(&self, other: &Self) -> (r: bool) {
        self.item_ty.tag == other.item_ty.tag && self.item_ty.index == other.item_ty.index && self.len
            == other.len
    }
}

/// The record of a struct type: flags, optional name, and the trailing field types.
pub struct StructInfo<'ctx> {
    pub flags: StructFlags,
    pub name: Option<String>,
    pub field_tys: Vec<Type<'ctx>>,
}

/// The logical key of a struct type, apart from its flags.
pub struct StructInit<'ctx, 'a> {
    pub name: Option<&'a str>,
    pub fields: &'a [Type<'ctx>],
}

/// The text of an optional name.
pub open spec fn name_view(n: Option<String>) -> Option<Seq<char>> {
    match n {
        Some(s) => Some(s@),
        None => None,
    }
}

impl<'ctx> InternKey for StructInfo<'ctx> {
    type Key = (u16, Option<Seq<char>>, Seq<(TypeTag, nat)>);

    open spec fn key(&self) -> (u16, Option<Seq<char>>, Seq<(TypeTag, nat)>) {
        (self.flags@, name_view(self.name), views(self.field_tys@))
    }

    open spec fn key_hash_words(k: (u16, Option<Seq<char>>, Seq<(TypeTag, nat)>)) -> Seq<u64> {
        seq![k.0 as u64, if k.1 is Some { 1u64 } else { 0u64 }] + handle_words(k.2)
    }

    fn hash_words(&self) -> (r: Vec<u64>) {
        let mut r: Vec<u64> = Vec::new();
        r.push(self.flags.bits() as u64);
        r.push(
            match &self.name {
                Some(_) => 1,
                None => 0,
            },
        );
        Type::push_words(&mut r, self.field_tys.as_slice());
        proof {
            assert(r@ =~= Self::key_hash_words(self.key()));
        }
        r
    }

    fn same_key(&self, other: &Self) -> (r: bool) {
        let same_name = match (&self.name, &other.name) {
            (Some(a), Some(b)) => *a == *b,
            (None, None) => true,
            _ => false,
        };
        self.flags.bits() == other.flags.bits() && same_name && Type::same_seq(
            self.field_tys.as_slice(),
            other.field_tys.as_slice(),
        )
    }
}

} // verus!
