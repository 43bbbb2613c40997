//! The wire format: fixed-width little-endian scalars, their two's-complement
//! signed forms, the address record, and arrays as plain concatenation.

use vstd::prelude::*;
use vstd::arithmetic::div_mod::lemma_div_denominator;
use crate::abi::WireType;

verus! {

/// 256 to the power `n`.
pub open spec fn pow256(n: nat) -> nat
    decreases n,
{
    if n == 0 {
        1
    } else {
        256 * pow256((n - 1) as nat)
    }
}

/// The little-endian encoding of `x` in `width` bytes: byte `i` is digit `i`
/// of `x` in base 256, lowest digit first.
pub open spec fn le_bytes(x: nat, width: nat) -> Seq<u8> {
    Seq::new(width, |i: int| ((x / pow256(i as nat)) % 256) as u8)
}

/// The number that a little-endian byte string stands for.
pub open spec fn le_value(bytes: Seq<u8>) -> nat
    decreases bytes.len(),
{
    if bytes.len() == 0 {
        0
    } else {
        bytes[0] as nat + 256 * le_value(bytes.skip(1))
    }
}

/// Every power of 256 is positive.
pub proof fn lemma_pow256_positive(n: nat)
    ensures
        pow256(n) > 0,
    decreases n,
{
    if n > 0 {
        lemma_pow256_positive((n - 1) as nat);
    }
}

/// The powers of 256 at the widths of the wire types.
pub proof fn lemma_pow256_values()
    ensures
        pow256(0) == 1,
        pow256(1) == 0x100,
        pow256(2) == 0x1_0000,
        pow256(3) == 0x100_0000,
        pow256(4) == 0x1_0000_0000,
        pow256(8) == 0x1_0000_0000_0000_0000,
{
    reveal_with_fuel(pow256, 9);
}

/// A byte string of length `n` stands for a number below `256^n`.
pub proof fn lemma_le_value_bound(bytes: Seq<u8>)
    ensures
        le_value(bytes) < pow256(bytes.len()),
    decreases bytes.len(),
{
    if bytes.len() > 0 {
        lemma_le_value_bound(bytes.skip(1));
    }
}

/// Dropping the lowest byte of an encoding leaves the encoding of `x / 256`.
pub proof fn lemma_le_bytes_tail(x: nat, width: nat)
    requires
        width > 0,
    ensures
        le_bytes(x, width).skip(1) =~= le_bytes(x / 256, (width - 1) as nat),
        le_bytes(x, width)[0] == (x % 256) as u8,
{
    assert forall|i: int| 0 <= i < width - 1 implies le_bytes(x, width).skip(1)[i] == le_bytes(
        x / 256,
        (width - 1) as nat,
    )[i] by {
        lemma_pow256_positive(i as nat);
        lemma_div_denominator(x as int, 256, pow256(i as nat) as int);
        assert(pow256((i + 1) as nat) == 256 * pow256(i as nat));
    }
    assert(pow256(0) == 1);
    assert(x / pow256(0) == x);
}

/// Decoding undoes encoding for every number that fits the width.
pub proof fn lemma_le_round_trip(x: nat, width: nat)
    requires
        x < pow256(width),
    ensures
        le_bytes(x, width).len() == width,
        le_value(le_bytes(x, width)) == x,
    decreases width,
{
    if width > 0 {
        lemma_le_bytes_tail(x, width);
        lemma_le_round_trip(x / 256, (width - 1) as nat);
    }
}

/// Encodes `word` as `width` little-endian bytes.
pub fn encode_word(word: u64, width: usize) -> (out: Vec<u8>)
    requires
        width <= 8,
    ensures
        out@ == le_bytes(word as nat, width as nat),
{
    let mut out: Vec<u8> = Vec::new();
    let mut rest: u64 = word;
    let mut i: usize = 0;
    assert(pow256(0) == 1);
    while i < width
        invariant
            i <= width,
            rest as nat == word as nat / pow256(i as nat),
            out@ =~= le_bytes(word as nat, i as nat),
        decreases width - i,
    {
        proof {
            lemma_pow256_positive(i as nat);
            lemma_div_denominator(word as int, pow256(i as nat) as int, 256);
        }
        out.push((rest % 256) as u8);
        rest = rest / 256;
        i += 1;
    }
    out
}

/// Decodes up to eight little-endian bytes.
pub fn decode_word(bytes: &[u8]) -> (word: u64)
    requires
        bytes@.len() <= 8,
    ensures
        word as nat == le_value(bytes@),
        (word as nat) < pow256(bytes@.len()),
{
    let mut word: u64 = 0;
    let mut i: usize = bytes.len();
    proof {
        assert(bytes@.skip(i as int) =~= Seq::<u8>::empty());
        lemma_pow256_values();
    }
    while i > 0
        invariant
            i <= bytes@.len() <= 8,
            word as nat == le_value(bytes@.skip(i as int)),
        decreases i,
    {
        i -= 1;
        proof {
            let tail = bytes@.skip(i as int);
            assert(tail.skip(1) =~= bytes@.skip(i + 1));
            lemma_le_value_bound(tail.skip(1));
            lemma_le_value_bound(tail);
            lemma_pow256_monotone(tail.len(), 8);
            lemma_pow256_values();
        }
        word = word * 256 + bytes[i] as u64;
    }
    proof {
        assert(bytes@.skip(0) =~= bytes@);
        lemma_le_value_bound(bytes@);
    }
    word
}

/// A higher power of 256 is no smaller.
pub proof fn lemma_pow256_monotone(a: nat, b: nat)
    requires
        a <= b,
    ensures
        pow256(a) <= pow256(b),
    decreases b,
{
    if a < b {
        lemma_pow256_monotone(a, (b - 1) as nat);
    }
}

impl WireType {
    /// The number of values of the type: 256 to the power of its width.
    pub open spec fn modulus(self) -> int {
        match self {
            WireType::U8 | WireType::I8 => 0x100,
            WireType::U16 | WireType::I16 => 0x1_0000,
            WireType::U32 | WireType::I32 => 0x1_0000_0000,
            WireType::U64 | WireType::I64 => 0x1_0000_0000_0000_0000,
        }
    }

    /// Whether `v` is a value of the type.
    pub open spec fn holds(self, v: int) -> bool {
        if self.spec_signed() {
            -(self.modulus() / 2) <= v < self.modulus() / 2
        } else {
            0 <= v < self.modulus()
        }
    }

    /// The unsigned word that carries `v`: `v` itself, or its two's
    /// complement where it is negative.
    pub open spec fn word_of(self, v: int) -> nat {
        if v >= 0 {
            v as nat
        } else {
            (v + self.modulus()) as nat
        }
    }

    /// The value that the unsigned word `w` carries.
    pub open spec fn value_of(self, w: nat) -> int {
        if self.spec_signed() && w >= self.modulus() / 2 {
            w - self.modulus()
        } else {
            w as int
        }
    }
}

/// The wire bytes of the value `v` of type `t`.
pub open spec fn encode(t: WireType, v: int) -> Seq<u8> {
    le_bytes(t.word_of(v), t.spec_width())
}

/// The value of type `t` that the wire bytes stand for.
pub open spec fn decode(t: WireType, bytes: Seq<u8>) -> int {
    t.value_of(le_value(bytes))
}

/// The number of values of a type is 256 to the power of its width.
pub proof fn lemma_modulus_is_power(t: WireType)
    ensures
        t.modulus() == pow256(t.spec_width()),
{
    lemma_pow256_values();
}

/// Every value of a type survives encoding and decoding unchanged, and its
/// encoding has the width of the type.
pub proof fn lemma_codec_round_trip(t: WireType, v: int)
    requires
        t.holds(v),
    ensures
        encode(t, v).len() == t.spec_width(),
        decode(t, encode(t, v)) == v,
{
    lemma_modulus_is_power(t);
    lemma_le_round_trip(t.word_of(v), t.spec_width());
}

/// Whatever bytes of the right width arrive, they decode to a value of the
/// type.
pub proof fn lemma_decode_holds(t: WireType, bytes: Seq<u8>)
    requires
        bytes.len() == t.spec_width(),
    ensures
        t.holds(decode(t, bytes)),
{
    lemma_modulus_is_power(t);
    lemma_le_value_bound(bytes);
}

/// The unsigned word that carries a signed value.
pub fn word_from_signed(t: WireType, v: i64) -> (w: u64)
    requires
        t.holds(v as int),
    ensures
        w as nat == t.word_of(v as int),
{
    if v >= 0 {
        v as u64
    } else {
        match t {
            WireType::U8 | WireType::I8 => (v + 0x100) as u64,
            WireType::U16 | WireType::I16 => (v + 0x1_0000) as u64,
            WireType::U32 | WireType::I32 => (v + 0x1_0000_0000) as u64,
            WireType::U64 | WireType::I64 => (v as i128 + 0x1_0000_0000_0000_0000) as u64,
        }
    }
}

/// The signed value that an unsigned word carries.
pub fn signed_from_word(t: WireType, w: u64) -> (v: i64)
    requires
        t.spec_signed(),
        (w as int) < t.modulus(),
    ensures
        v as int == t.value_of(w as nat),
{
    match t {
        WireType::U8 | WireType::I8 => if w >= 0x80 {
            w as i64 - 0x100
        } else {
            w as i64
        },
        WireType::U16 | WireType::I16 => if w >= 0x8000 {
            w as i64 - 0x1_0000
        } else {
            w as i64
        },
        WireType::U32 | WireType::I32 => if w >= 0x8000_0000 {
            w as i64 - 0x1_0000_0000
        } else {
            w as i64
        },
        WireType::U64 | WireType::I64 => if w >= 0x8000_0000_0000_0000 {
            (w as i128 - 0x1_0000_0000_0000_0000) as i64
        } else {
            w as i64
        },
    }
}

/// The wire bytes of an array: the encodings of its elements one after the
/// other, with nothing in between.
pub open spec fn encode_array(t: WireType, values: Seq<int>) -> Seq<u8>
    decreases values.len(),
{
    if values.len() == 0 {
        Seq::empty()
    } else {
        encode_array(t, values.drop_last()) + encode(t, values.last())
    }
}

/// The array that wire bytes stand for: element `i` is decoded from the
/// `i`-th run of `width` bytes.
pub open spec fn decode_array(t: WireType, bytes: Seq<u8>) -> Seq<int> {
    Seq::new(
        bytes.len() / t.spec_width(),
        |i: int| decode(t, bytes.subrange(i * t.spec_width(), i * t.spec_width() + t.spec_width())),
    )
}

/// Whether every element is a value of the type.
pub open spec fn all_hold(t: WireType, values: Seq<int>) -> bool {
    forall|i: int| 0 <= i < values.len() ==> t.holds(#[trigger] values[i])
}

/// Encoding one more element appends its encoding.
pub proof fn lemma_encode_array_step(t: WireType, values: Seq<int>, i: int)
    requires
        0 <= i < values.len(),
    ensures
        encode_array(t, values.take(i + 1)) == encode_array(t, values.take(i)) + encode(
            t,
            values[i],
        ),
{
    assert(values.take(i + 1).drop_last() =~= values.take(i));
}

/// An encoded array is as long as its element count times the width, and
/// holds the encoding of element `i` at offset `i` times the width.
pub proof fn lemma_encode_array_layout(t: WireType, values: Seq<int>)
    ensures
        encode_array(t, values).len() == values.len() * t.spec_width(),
        forall|i: int|
            0 <= i < values.len() ==> #[trigger] encode_array(t, values).subrange(
                i * t.spec_width(),
                i * t.spec_width() + t.spec_width(),
            ) == encode(t, values[i]),
    decreases values.len(),
{
    let w = t.spec_width() as int;
    if values.len() > 0 {
        let front = values.drop_last();
        lemma_encode_array_layout(t, front);
        let whole = encode_array(t, values);
        assert(front.len() * w + w == values.len() * w) by (nonlinear_arith)
            requires
                front.len() + 1 == values.len(),
        ;
        assert forall|i: int| 0 <= i < values.len() implies #[trigger] whole.subrange(
            i * w,
            i * w + w,
        ) == encode(t, values[i]) by {
            assert(0 <= i * w && i * w + w <= values.len() * w) by (nonlinear_arith)
                requires
                    0 <= i < values.len(),
                    w > 0,
            ;
            if i < front.len() {
                assert(i * w + w <= front.len() * w) by (nonlinear_arith)
                    requires
                        0 <= i < front.len(),
                        w > 0,
                ;
                assert(whole.subrange(i * w, i * w + w) =~= encode_array(t, front).subrange(
                    i * w,
                    i * w + w,
                ));
            } else {
                assert(i * w == front.len() * w);
                assert(whole.subrange(i * w, i * w + w) =~= encode(t, values.last()));
            }
        }
    }
}

/// An array whose elements are values of the type survives encoding and
/// decoding unchanged.
pub proof fn lemma_array_round_trip(t: WireType, values: Seq<int>)
    requires
        all_hold(t, values),
    ensures
        decode_array(t, encode_array(t, values)) == values,
{
    let w = t.spec_width() as int;
    let bytes = encode_array(t, values);
    lemma_encode_array_layout(t, values);
    assert((values.len() * w) / w == values.len()) by (nonlinear_arith)
        requires
            w > 0,
    ;
    assert forall|i: int| 0 <= i < values.len() implies decode_array(t, bytes)[i] == values[i] by {
        assert(bytes.subrange(i * w, i * w + w) == encode(t, values[i]));
        lemma_codec_round_trip(t, values[i]);
    }
    assert(decode_array(t, bytes) =~= values);
}

} // verus!
