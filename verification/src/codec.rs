//! Encoders and decoders for each scalar type and for arrays of it.

use vstd::prelude::*;
use vstd::slice::slice_subrange;
use crate::abi::WireType;
use crate::wire::{
    decode, decode_array, decode_word, encode, encode_array, encode_word,
    lemma_encode_array_step, lemma_pow256_values, signed_from_word, word_from_signed,
};

verus! {

/// The elements of a `u8` sequence as mathematical integers.
pub open spec fn ints_u8(s: Seq<u8>) -> Seq<int> {
    Seq::new(s.len(), |i: int| s[i] as int)
}

/// The elements of a `u16` sequence as mathematical integers.
pub open spec fn ints_u16(s: Seq<u16>) -> Seq<int> {
    Seq::new(s.len(), |i: int| s[i] as int)
}

/// The elements of a `u32` sequence as mathematical integers.
pub open spec fn ints_u32(s: Seq<u32>) -> Seq<int> {
    Seq::new(s.len(), |i: int| s[i] as int)
}

/// The elements of a `u64` sequence as mathematical integers.
pub open spec fn ints_u64(s: Seq<u64>) -> Seq<int> {
    Seq::new(s.len(), |i: int| s[i] as int)
}

/// The elements of a `i8` sequence as mathematical integers.
pub open spec fn ints_i8(s: Seq<i8>) -> Seq<int> {
    Seq::new(s.len(), |i: int| s[i] as int)
}

/// The elements of a `i16` sequence as mathematical integers.
pub open spec fn ints_i16(s: Seq<i16>) -> Seq<int> {
    Seq::new(s.len(), |i: int| s[i] as int)
}

/// The elements of a `i32` sequence as mathematical integers.
pub open spec fn ints_i32(s: Seq<i32>) -> Seq<int> {
    Seq::new(s.len(), |i: int| s[i] as int)
}

/// The elements of a `i64` sequence as mathematical integers.
pub open spec fn ints_i64(s: Seq<i64>) -> Seq<int> {
    Seq::new(s.len(), |i: int| s[i] as int)
}

/// Encodes a `u8` as 1 little-endian byte.
pub fn encode_u8(value: u8) -> (out: Vec<u8>)
    ensures
        out@ == encode(WireType::U8, value as int),
        out@.len() == 1,
{
    encode_word(value as u64, 1)
}

/// Decodes a `u8` from exactly 1 little-endian byte.
pub fn decode_u8(bytes: &[u8]) -> (value: u8)
    requires
        bytes@.len() == 1,
    ensures
        value as int == decode(WireType::U8, bytes@),
{
    proof {
        lemma_pow256_values();
    }
    let value = decode_word(bytes);
    value as u8
}

/// Encodes a `u16` as 2 little-endian bytes.
pub fn encode_u16(value: u16) -> (out: Vec<u8>)
    ensures
        out@ == encode(WireType::U16, value as int),
        out@.len() == 2,
{
    encode_word(value as u64, 2)
}

/// Decodes a `u16` from exactly 2 little-endian bytes.
pub fn decode_u16(bytes: &[u8]) -> (value: u16)
    requires
        bytes@.len() == 2,
    ensures
        value as int == decode(WireType::U16, bytes@),
{
    proof {
        lemma_pow256_values();
    }
    let value = decode_word(bytes);
    value as u16
}

/// Encodes a `u32` as 4 little-endian bytes.
pub fn encode_u32(value: u32) -> (out: Vec<u8>)
    ensures
        out@ == encode(WireType::U32, value as int),
        out@.len() == 4,
{
    encode_word(value as u64, 4)
}

/// Decodes a `u32` from exactly 4 little-endian bytes.
pub fn decode_u32(bytes: &[u8]) -> (value: u32)
    requires
        bytes@.len() == 4,
    ensures
        value as int == decode(WireType::U32, bytes@),
{
    proof {
        lemma_pow256_values();
    }
    let value = decode_word(bytes);
    value as u32
}

/// Encodes a `u64` as 8 little-endian bytes.
pub fn encode_u64(value: u64) -> (out: Vec<u8>)
    ensures
        out@ == encode(WireType::U64, value as int),
        out@.len() == 8,
{
    encode_word(value, 8)
}

/// Decodes a `u64` from exactly 8 little-endian bytes.
pub fn decode_u64(bytes: &[u8]) -> (value: u64)
    requires
        bytes@.len() == 8,
    ensures
        value as int == decode(WireType::U64, bytes@),
{
    proof {
        lemma_pow256_values();
    }
    let value = decode_word(bytes);
    value
}

/// Encodes a `i8` as 1 little-endian byte.
pub fn encode_i8(value: i8) -> (out: Vec<u8>)
    ensures
        out@ == encode(WireType::I8, value as int),
        out@.len() == 1,
{
    encode_word(word_from_signed(WireType::I8, value as i64), 1)
}

/// Decodes a `i8` from exactly 1 little-endian byte.
pub fn decode_i8(bytes: &[u8]) -> (value: i8)
    requires
        bytes@.len() == 1,
    ensures
        value as int == decode(WireType::I8, bytes@),
{
    proof {
        lemma_pow256_values();
    }
    let value = signed_from_word(WireType::I8, decode_word(bytes));
    value as i8
}

/// Encodes a `i16` as 2 little-endian bytes.
pub fn encode_i16(value: i16) -> (out: Vec<u8>)
    ensures
        out@ == encode(WireType::I16, value as int),
        out@.len() == 2,
{
    encode_word(word_from_signed(WireType::I16, value as i64), 2)
}

/// Decodes a `i16` from exactly 2 little-endian bytes.
pub fn decode_i16(bytes: &[u8]) -> (value: i16)
    requires
        bytes@.len() == 2,
    ensures
        value as int == decode(WireType::I16, bytes@),
{
    proof {
        lemma_pow256_values();
    }
    let value = signed_from_word(WireType::I16, decode_word(bytes));
    value as i16
}

/// Encodes a `i32` as 4 little-endian bytes.
pub fn encode_i32(value: i32) -> (out: Vec<u8>)
    ensures
        out@ == encode(WireType::I32, value as int),
        out@.len() == 4,
{
    encode_word(word_from_signed(WireType::I32, value as i64), 4)
}

/// Decodes a `i32` from exactly 4 little-endian bytes.
pub fn decode_i32(bytes: &[u8]) -> (value: i32)
    requires
        bytes@.len() == 4,
    ensures
        value as int == decode(WireType::I32, bytes@),
{
    proof {
        lemma_pow256_values();
    }
    let value = signed_from_word(WireType::I32, decode_word(bytes));
    value as i32
}

/// Encodes a `i64` as 8 little-endian bytes.
pub fn encode_i64(value: i64) -> (out: Vec<u8>)
    ensures
        out@ == encode(WireType::I64, value as int),
        out@.len() == 8,
{
    encode_word(word_from_signed(WireType::I64, value as i64), 8)
}

/// Decodes a `i64` from exactly 8 little-endian bytes.
pub fn decode_i64(bytes: &[u8]) -> (value: i64)
    requires
        bytes@.len() == 8,
    ensures
        value as int == decode(WireType::I64, bytes@),
{
    proof {
        lemma_pow256_values();
    }
    let value = signed_from_word(WireType::I64, decode_word(bytes));
    value
}

/// Encodes a `u8` array as one run of bytes, element after element.
pub fn encode_array_u8(values: &[u8]) -> (out: Vec<u8>)
    ensures
        out@ == encode_array(WireType::U8, ints_u8(values@)),
        out@.len() == values@.len() * 1,
{
    let ghost ints = ints_u8(values@);
    let mut out: Vec<u8> = Vec::new();
    let mut i: usize = 0;
    while i < values.len()
        invariant
            i <= values@.len(),
            ints == ints_u8(values@),
            out@ == encode_array(WireType::U8, ints.take(i as int)),
            out@.len() == i * 1,
        decreases values@.len() - i,
    {
        let mut piece = encode_u8(values[i]);
        proof {
            lemma_encode_array_step(WireType::U8, ints, i as int);
        }
        out.append(&mut piece);
        i += 1;
    }
    proof {
        assert(ints.take(values@.len() as int) =~= ints);
    }
    out
}

/// Decodes a `u8` array from a run of bytes that holds exactly one element
/// for each slot of `out`.
pub fn decode_array_u8(bytes: &[u8], out: &mut [u8])
    requires
        bytes@.len() == old(out)@.len() * 1,
    ensures
        final(out)@.len() == old(out)@.len(),
        ints_u8(final(out)@) == decode_array(WireType::U8, bytes@),
{
    let count: usize = out.len();
    let total: usize = bytes.len();
    let mut i: usize = 0;
    while i < count
        invariant
            i <= count,
            count == out@.len(),
            total == bytes@.len(),
            total == count * 1,
            forall|j: int|
                0 <= j < i ==> out@[j] as int == decode(
                    WireType::U8,
                    #[trigger] bytes@.subrange(j * 1, j * 1 + 1),
                ),
        decreases count - i,
    {
        let piece = slice_subrange(bytes, i * 1, i * 1 + 1);
        let value = decode_u8(piece);
        out[i] = value;
        i += 1;
    }
    proof {
        let width = WireType::U8.spec_width();
        assert(width == 1);
        let decoded = decode_array(WireType::U8, bytes@);
        assert(decoded.len() == count);
        assert forall|j: int| 0 <= j < count implies ints_u8(out@)[j] == decoded[j] by {
            assert(j * width == j * 1);
            assert(out@[j] as int == decode(WireType::U8, bytes@.subrange(j * 1, j * 1 + 1)));
        }
        assert(ints_u8(out@) =~= decoded);
    }
}

/// Encodes a `u16` array as one run of bytes, element after element.
pub fn encode_array_u16(values: &[u16]) -> (out: Vec<u8>)
    ensures
        out@ == encode_array(WireType::U16, ints_u16(values@)),
        out@.len() == values@.len() * 2,
{
    let ghost ints = ints_u16(values@);
    let mut out: Vec<u8> = Vec::new();
    let mut i: usize = 0;
    while i < values.len()
        invariant
            i <= values@.len(),
            ints == ints_u16(values@),
            out@ == encode_array(WireType::U16, ints.take(i as int)),
            out@.len() == i * 2,
        decreases values@.len() - i,
    {
        let mut piece = encode_u16(values[i]);
        proof {
            lemma_encode_array_step(WireType::U16, ints, i as int);
        }
        out.append(&mut piece);
        i += 1;
    }
    proof {
        assert(ints.take(values@.len() as int) =~= ints);
    }
    out
}

/// Decodes a `u16` array from a run of bytes that holds exactly one element
/// for each slot of `out`.
pub fn decode_array_u16(bytes: &[u8], out: &mut [u16])
    requires
        bytes@.len() == old(out)@.len() * 2,
    ensures
        final(out)@.len() == old(out)@.len(),
        ints_u16(final(out)@) == decode_array(WireType::U16, bytes@),
{
    let count: usize = out.len();
    let total: usize = bytes.len();
    let mut i: usize = 0;
    while i < count
        invariant
            i <= count,
            count == out@.len(),
            total == bytes@.len(),
            total == count * 2,
            forall|j: int|
                0 <= j < i ==> out@[j] as int == decode(
                    WireType::U16,
                    #[trigger] bytes@.subrange(j * 2, j * 2 + 2),
                ),
        decreases count - i,
    {
        let piece = slice_subrange(bytes, i * 2, i * 2 + 2);
        let value = decode_u16(piece);
        out[i] = value;
        i += 1;
    }
    proof {
        let width = WireType::U16.spec_width();
        assert(width == 2);
        let decoded = decode_array(WireType::U16, bytes@);
        assert(decoded.len() == count);
        assert forall|j: int| 0 <= j < count implies ints_u16(out@)[j] == decoded[j] by {
            assert(j * width == j * 2);
            assert(out@[j] as int == decode(WireType::U16, bytes@.subrange(j * 2, j * 2 + 2)));
        }
        assert(ints_u16(out@) =~= decoded);
    }
}

/// Encodes a `u32` array as one run of bytes, element after element.
pub fn encode_array_u32(values: &[u32]) -> (out: Vec<u8>)
    ensures
        out@ == encode_array(WireType::U32, ints_u32(values@)),
        out@.len() == values@.len() * 4,
{
    let ghost ints = ints_u32(values@);
    let mut out: Vec<u8> = Vec::new();
    let mut i: usize = 0;
    while i < values.len()
        invariant
            i <= values@.len(),
            ints == ints_u32(values@),
            out@ == encode_array(WireType::U32, ints.take(i as int)),
            out@.len() == i * 4,
        decreases values@.len() - i,
    {
        let mut piece = encode_u32(values[i]);
        proof {
            lemma_encode_array_step(WireType::U32, ints, i as int);
        }
        out.append(&mut piece);
        i += 1;
    }
    proof {
        assert(ints.take(values@.len() as int) =~= ints);
    }
    out
}

/// Decodes a `u32` array from a run of bytes that holds exactly one element
/// for each slot of `out`.
pub fn decode_array_u32(bytes: &[u8], out: &mut [u32])
    requires
        bytes@.len() == old(out)@.len() * 4,
    ensures
        final(out)@.len() == old(out)@.len(),
        ints_u32(final(out)@) == decode_array(WireType::U32, bytes@),
{
    let count: usize = out.len();
    let total: usize = bytes.len();
    let mut i: usize = 0;
    while i < count
        invariant
            i <= count,
            count == out@.len(),
            total == bytes@.len(),
            total == count * 4,
            forall|j: int|
                0 <= j < i ==> out@[j] as int == decode(
                    WireType::U32,
                    #[trigger] bytes@.subrange(j * 4, j * 4 + 4),
                ),
        decreases count - i,
    {
        let piece = slice_subrange(bytes, i * 4, i * 4 + 4);
        let value = decode_u32(piece);
        out[i] = value;
        i += 1;
    }
    proof {
        let width = WireType::U32.spec_width();
        assert(width == 4);
        let decoded = decode_array(WireType::U32, bytes@);
        assert(decoded.len() == count);
        assert forall|j: int| 0 <= j < count implies ints_u32(out@)[j] == decoded[j] by {
            assert(j * width == j * 4);
            assert(out@[j] as int == decode(WireType::U32, bytes@.subrange(j * 4, j * 4 + 4)));
        }
        assert(ints_u32(out@) =~= decoded);
    }
}

/// Encodes a `u64` array as one run of bytes, element after element.
pub fn encode_array_u64(values: &[u64]) -> (out: Vec<u8>)
    ensures
        out@ == encode_array(WireType::U64, ints_u64(values@)),
        out@.len() == values@.len() * 8,
{
    let ghost ints = ints_u64(values@);
    let mut out: Vec<u8> = Vec::new();
    let mut i: usize = 0;
    while i < values.len()
        invariant
            i <= values@.len(),
            ints == ints_u64(values@),
            out@ == encode_array(WireType::U64, ints.take(i as int)),
            out@.len() == i * 8,
        decreases values@.len() - i,
    {
        let mut piece = encode_u64(values[i]);
        proof {
            lemma_encode_array_step(WireType::U64, ints, i as int);
        }
        out.append(&mut piece);
        i += 1;
    }
    proof {
        assert(ints.take(values@.len() as int) =~= ints);
    }
    out
}

/// Decodes a `u64` array from a run of bytes that holds exactly one element
/// for each slot of `out`.
pub fn decode_array_u64(bytes: &[u8], out: &mut [u64])
    requires
        bytes@.len() == old(out)@.len() * 8,
    ensures
        final(out)@.len() == old(out)@.len(),
        ints_u64(final(out)@) == decode_array(WireType::U64, bytes@),
{
    let count: usize = out.len();
    let total: usize = bytes.len();
    let mut i: usize = 0;
    while i < count
        invariant
            i <= count,
            count == out@.len(),
            total == bytes@.len(),
            total == count * 8,
            forall|j: int|
                0 <= j < i ==> out@[j] as int == decode(
                    WireType::U64,
                    #[trigger] bytes@.subrange(j * 8, j * 8 + 8),
                ),
        decreases count - i,
    {
        let piece = slice_subrange(bytes, i * 8, i * 8 + 8);
        let value = decode_u64(piece);
        out[i] = value;
        i += 1;
    }
    proof {
        let width = WireType::U64.spec_width();
        assert(width == 8);
        let decoded = decode_array(WireType::U64, bytes@);
        assert(decoded.len() == count);
        assert forall|j: int| 0 <= j < count implies ints_u64(out@)[j] == decoded[j] by {
            assert(j * width == j * 8);
            assert(out@[j] as int == decode(WireType::U64, bytes@.subrange(j * 8, j * 8 + 8)));
        }
        assert(ints_u64(out@) =~= decoded);
    }
}

/// Encodes a `i8` array as one run of bytes, element after element.
pub fn encode_array_i8(values: &[i8]) -> (out: Vec<u8>)
    ensures
        out@ == encode_array(WireType::I8, ints_i8(values@)),
        out@.len() == values@.len() * 1,
{
    let ghost ints = ints_i8(values@);
    let mut out: Vec<u8> = Vec::new();
    let mut i: usize = 0;
    while i < values.len()
        invariant
            i <= values@.len(),
            ints == ints_i8(values@),
            out@ == encode_array(WireType::I8, ints.take(i as int)),
            out@.len() == i * 1,
        decreases values@.len() - i,
    {
        let mut piece = encode_i8(values[i]);
        proof {
            lemma_encode_array_step(WireType::I8, ints, i as int);
        }
        out.append(&mut piece);
        i += 1;
    }
    proof {
        assert(ints.take(values@.len() as int) =~= ints);
    }
    out
}

/// Decodes a `i8` array from a run of bytes that holds exactly one element
/// for each slot of `out`.
pub fn decode_array_i8(bytes: &[u8], out: &mut [i8])
    requires
        bytes@.len() == old(out)@.len() * 1,
    ensures
        final(out)@.len() == old(out)@.len(),
        ints_i8(final(out)@) == decode_array(WireType::I8, bytes@),
{
    let count: usize = out.len();
    let total: usize = bytes.len();
    let mut i: usize = 0;
    while i < count
        invariant
            i <= count,
            count == out@.len(),
            total == bytes@.len(),
            total == count * 1,
            forall|j: int|
                0 <= j < i ==> out@[j] as int == decode(
                    WireType::I8,
                    #[trigger] bytes@.subrange(j * 1, j * 1 + 1),
                ),
        decreases count - i,
    {
        let piece = slice_subrange(bytes, i * 1, i * 1 + 1);
        let value = decode_i8(piece);
        out[i] = value;
        i += 1;
    }
    proof {
        let width = WireType::I8.spec_width();
        assert(width == 1);
        let decoded = decode_array(WireType::I8, bytes@);
        assert(decoded.len() == count);
        assert forall|j: int| 0 <= j < count implies ints_i8(out@)[j] == decoded[j] by {
            assert(j * width == j * 1);
            assert(out@[j] as int == decode(WireType::I8, bytes@.subrange(j * 1, j * 1 + 1)));
        }
        assert(ints_i8(out@) =~= decoded);
    }
}

/// Encodes a `i16` array as one run of bytes, element after element.
pub fn encode_array_i16(values: &[i16]) -> (out: Vec<u8>)
    ensures
        out@ == encode_array(WireType::I16, ints_i16(values@)),
        out@.len() == values@.len() * 2,
{
    let ghost ints = ints_i16(values@);
    let mut out: Vec<u8> = Vec::new();
    let mut i: usize = 0;
    while i < values.len()
        invariant
            i <= values@.len(),
            ints == ints_i16(values@),
            out@ == encode_array(WireType::I16, ints.take(i as int)),
            out@.len() == i * 2,
        decreases values@.len() - i,
    {
        let mut piece = encode_i16(values[i]);
        proof {
            lemma_encode_array_step(WireType::I16, ints, i as int);
        }
        out.append(&mut piece);
        i += 1;
    }
    proof {
        assert(ints.take(values@.len() as int) =~= ints);
    }
    out
}

/// Decodes a `i16` array from a run of bytes that holds exactly one element
/// for each slot of `out`.
pub fn decode_array_i16(bytes: &[u8], out: &mut [i16])
    requires
        bytes@.len() == old(out)@.len() * 2,
    ensures
        final(out)@.len() == old(out)@.len(),
        ints_i16(final(out)@) == decode_array(WireType::I16, bytes@),
{
    let count: usize = out.len();
    let total: usize = bytes.len();
    let mut i: usize = 0;
    while i < count
        invariant
            i <= count,
            count == out@.len(),
            total == bytes@.len(),
            total == count * 2,
            forall|j: int|
                0 <= j < i ==> out@[j] as int == decode(
                    WireType::I16,
                    #[trigger] bytes@.subrange(j * 2, j * 2 + 2),
                ),
        decreases count - i,
    {
        let piece = slice_subrange(bytes, i * 2, i * 2 + 2);
        let value = decode_i16(piece);
        out[i] = value;
        i += 1;
    }
    proof {
        let width = WireType::I16.spec_width();
        assert(width == 2);
        let decoded = decode_array(WireType::I16, bytes@);
        assert(decoded.len() == count);
        assert forall|j: int| 0 <= j < count implies ints_i16(out@)[j] == decoded[j] by {
            assert(j * width == j * 2);
            assert(out@[j] as int == decode(WireType::I16, bytes@.subrange(j * 2, j * 2 + 2)));
        }
        assert(ints_i16(out@) =~= decoded);
    }
}

/// Encodes a `i32` array as one run of bytes, element after element.
pub fn encode_array_i32(values: &[i32]) -> (out: Vec<u8>)
    ensures
        out@ == encode_array(WireType::I32, ints_i32(values@)),
        out@.len() == values@.len() * 4,
{
    let ghost ints = ints_i32(values@);
    let mut out: Vec<u8> = Vec::new();
    let mut i: usize = 0;
    while i < values.len()
        invariant
            i <= values@.len(),
            ints == ints_i32(values@),
            out@ == encode_array(WireType::I32, ints.take(i as int)),
            out@.len() == i * 4,
        decreases values@.len() - i,
    {
        let mut piece = encode_i32(values[i]);
        proof {
            lemma_encode_array_step(WireType::I32, ints, i as int);
        }
        out.append(&mut piece);
        i += 1;
    }
    proof {
        assert(ints.take(values@.len() as int) =~= ints);
    }
    out
}

/// Decodes a `i32` array from a run of bytes that holds exactly one element
/// for each slot of `out`.
pub fn decode_array_i32(bytes: &[u8], out: &mut [i32])
    requires
        bytes@.len() == old(out)@.len() * 4,
    ensures
        final(out)@.len() == old(out)@.len(),
        ints_i32(final(out)@) == decode_array(WireType::I32, bytes@),
{
    let count: usize = out.len();
    let total: usize = bytes.len();
    let mut i: usize = 0;
    while i < count
        invariant
            i <= count,
            count == out@.len(),
            total == bytes@.len(),
            total == count * 4,
            forall|j: int|
                0 <= j < i ==> out@[j] as int == decode(
                    WireType::I32,
                    #[trigger] bytes@.subrange(j * 4, j * 4 + 4),
                ),
        decreases count - i,
    {
        let piece = slice_subrange(bytes, i * 4, i * 4 + 4);
        let value = decode_i32(piece);
        out[i] = value;
        i += 1;
    }
    proof {
        let width = WireType::I32.spec_width();
        assert(width == 4);
        let decoded = decode_array(WireType::I32, bytes@);
        assert(decoded.len() == count);
        assert forall|j: int| 0 <= j < count implies ints_i32(out@)[j] == decoded[j] by {
            assert(j * width == j * 4);
            assert(out@[j] as int == decode(WireType::I32, bytes@.subrange(j * 4, j * 4 + 4)));
        }
        assert(ints_i32(out@) =~= decoded);
    }
}

/// Encodes a `i64` array as one run of bytes, element after element.
pub fn encode_array_i64(values: &[i64]) -> (out: Vec<u8>)
    ensures
        out@ == encode_array(WireType::I64, ints_i64(values@)),
        out@.len() == values@.len() * 8,
{
    let ghost ints = ints_i64(values@);
    let mut out: Vec<u8> = Vec::new();
    let mut i: usize = 0;
    while i < values.len()
        invariant
            i <= values@.len(),
            ints == ints_i64(values@),
            out@ == encode_array(WireType::I64, ints.take(i as int)),
            out@.len() == i * 8,
        decreases values@.len() - i,
    {
        let mut piece = encode_i64(values[i]);
        proof {
            lemma_encode_array_step(WireType::I64, ints, i as int);
        }
        out.append(&mut piece);
        i += 1;
    }
    proof {
        assert(ints.take(values@.len() as int) =~= ints);
    }
    out
}

/// Decodes a `i64` array from a run of bytes that holds exactly one element
/// for each slot of `out`.
pub fn decode_array_i64(bytes: &[u8], out: &mut [i64])
    requires
        bytes@.len() == old(out)@.len() * 8,
    ensures
        final(out)@.len() == old(out)@.len(),
        ints_i64(final(out)@) == decode_array(WireType::I64, bytes@),
{
    let count: usize = out.len();
    let total: usize = bytes.len();
    let mut i: usize = 0;
    while i < count
        invariant
            i <= count,
            count == out@.len(),
            total == bytes@.len(),
            total == count * 8,
            forall|j: int|
                0 <= j < i ==> out@[j] as int == decode(
                    WireType::I64,
                    #[trigger] bytes@.subrange(j * 8, j * 8 + 8),
                ),
        decreases count - i,
    {
        let piece = slice_subrange(bytes, i * 8, i * 8 + 8);
        let value = decode_i64(piece);
        out[i] = value;
        i += 1;
    }
    proof {
        let width = WireType::I64.spec_width();
        assert(width == 8);
        let decoded = decode_array(WireType::I64, bytes@);
        assert(decoded.len() == count);
        assert forall|j: int| 0 <= j < count implies ints_i64(out@)[j] == decoded[j] by {
            assert(j * width == j * 8);
            assert(out@[j] as int == decode(WireType::I64, bytes@.subrange(j * 8, j * 8 + 8)));
        }
        assert(ints_i64(out@) =~= decoded);
    }
}

} // verus!
