//! Types and constants of a compiler's intermediate representation, interned per context,
//! and the fixed-width integers that constants are built from.

mod bigint;
mod bit_width;
mod cache;
mod ctx;
mod laws;
mod pos;
mod repr;
mod types;
mod value;
mod words;

pub use bigint::BigInt;
pub use bit_width::{excess_for, word_bit, word_fits, words_for, BitWidth, Kind, WORD_BITS, WORD_BYTES};
pub use cache::{bucket_of_key, buckets, no_buckets, BucketTable, InternKey, TypeCache};
pub use ctx::{is_fixed_width, str_view, Context, PtrBits, Target, TypeContext};
pub use laws::{
    lemma_array_requests_agree, lemma_context_canonical, lemma_equal_numbers_share_storage, lemma_integer_width_names_one_type,
    lemma_key_names_one_record, lemma_requests_agree, lemma_struct_identity,
};
pub use pos::{BitPos, DigitPos};
pub use repr::{le_word, ordering_of, pow2_of, ApInt, MismatchedBitWidth, WordAlignedBytes};
pub use types::{
    handle_words, name_view, views, AddressSpace, ArrayInfo, ArrayInit, ArrayTy, Brand, FloatInfo, FloatKind, FloatTy,
    FunctionInfo, FunctionInit, FunctionTy, IntegerInfo, IntegerTy, PointerInfo, PointerTy, StructFlags, StructInfo,
    StructInit, StructTy, Type, TypeInfo, TypeTag, UnitInfo, UnitTy, UnpackedType, STRUCT_LITERAL, STRUCT_OPAQUE,
    STRUCT_PACKED, STRUCT_SIZED,
};
pub use value::{
    fits, ConstAggrZero, ConstAggrZeroInfo, ConstInt, ConstIntInfo, IntRef, UnpackedValue, Value, ValueContext,
    ValueInfo, ValueTag,
};
pub use words::{word_base, word_weight, words_value};
