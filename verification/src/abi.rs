//! The one-byte type tag that travels with every keyed value.
//!
//! Bits 0 and 1 select the width class (`00` 8-bit, `01` 32-bit, `10` 16-bit,
//! `11` 64-bit), bit 2 is set for signed types, bit 3 for arrays, and the
//! remaining bits are zero.

use vstd::prelude::*;

verus! {

/// Tag of an unsigned 8-bit value.
pub const ABI_VALUE_U8: u32 = 0b0000_0000;

/// Tag of a signed 8-bit value.
pub const ABI_VALUE_I8: u32 = 0b0000_0100;

/// Tag of an unsigned 16-bit value.
pub const ABI_VALUE_U16: u32 = 0b0000_0010;

/// Tag of a signed 16-bit value.
pub const ABI_VALUE_I16: u32 = 0b0000_0110;

/// Tag of an unsigned 32-bit value.
pub const ABI_VALUE_U32: u32 = 0b0000_0001;

/// Tag of a signed 32-bit value.
pub const ABI_VALUE_I32: u32 = 0b0000_0101;

/// Tag of an unsigned 64-bit value.
pub const ABI_VALUE_U64: u32 = 0b0000_0011;

/// Tag of a signed 64-bit value.
pub const ABI_VALUE_I64: u32 = 0b0000_0111;

/// Added to a scalar tag to tag an array of that scalar.
pub const ABI_ARRAY_BIT: u32 = 0b0000_1000;

/// Set in the tag of every signed type.
pub const ABI_SIGNED_BIT: u32 = 0b0000_0100;

/// The largest value a tag can take: one byte.
pub const ABI_DESCRIPTOR_MAX: u32 = 0xFF;

/// The scalar types of the wire format.
#[derive(Debug, Clone, Copy, PartialEq, Eq, Structural)]
pub enum WireType {
    U8,
    U16,
    U32,
    U64,
    I8,
    I16,
    I32,
    I64,
}

impl WireType {
    /// Bytes that one value of the type takes on the wire.
    pub open spec fn spec_width(self) -> nat {
        match self {
            WireType::U8 | WireType::I8 => 1,
            WireType::U16 | WireType::I16 => 2,
            WireType::U32 | WireType::I32 => 4,
            WireType::U64 | WireType::I64 => 8,
        }
    }

    pub fn width(self) -> (w: usize)
        ensures
            w == self.spec_width(),
    {
        match self {
            WireType::U8 | WireType::I8 => 1,
            WireType::U16 | WireType::I16 => 2,
            WireType::U32 | WireType::I32 => 4,
            WireType::U64 | WireType::I64 => 8,
        }
    }

    /// Whether the type is signed.
    pub open spec fn spec_signed(self) -> bool {
        match self {
            WireType::I8 | WireType::I16 | WireType::I32 | WireType::I64 => true,
            _ => false,
        }
    }

    #[verifier::when_used_as_spec(spec_signed)]
    pub fn signed(self) -> (s: bool)
        ensures
            s == self.spec_signed(),
    {
        match self {
            WireType::I8 | WireType::I16 | WireType::I32 | WireType::I64 => true,
            _ => false,
        }
    }

    /// The two low bits of the tag. The order is not that of the widths.
    pub open spec fn width_class(self) -> u32 {
        match self {
            WireType::U8 | WireType::I8 => 0,
            WireType::U32 | WireType::I32 => 1,
            WireType::U16 | WireType::I16 => 2,
            WireType::U64 | WireType::I64 => 3,
        }
    }

    /// The tag of a scalar of the type.
    pub open spec fn spec_descriptor(self) -> u32 {
        if self.spec_signed() {
            (self.width_class() + 4) as u32
        } else {
            self.width_class()
        }
    }

    #[verifier::when_used_as_spec(spec_descriptor)]
    pub fn descriptor(self) -> (d: u32)
        ensures
            d == self.spec_descriptor(),
    {
        match self {
            WireType::U8 => ABI_VALUE_U8,
            WireType::U16 => ABI_VALUE_U16,
            WireType::U32 => ABI_VALUE_U32,
            WireType::U64 => ABI_VALUE_U64,
            WireType::I8 => ABI_VALUE_I8,
            WireType::I16 => ABI_VALUE_I16,
            WireType::I32 => ABI_VALUE_I32,
            WireType::I64 => ABI_VALUE_I64,
        }
    }

    /// The tag of an array of the type.
    pub open spec fn spec_array_descriptor(self) -> u32 {
        (self.spec_descriptor() + 8) as u32
    }

    #[verifier::when_used_as_spec(spec_array_descriptor)]
    pub fn array_descriptor(self) -> (d: u32)
        ensures
            d == self.spec_array_descriptor(),
    {
        self.descriptor() + ABI_ARRAY_BIT
    }
}

/// What a tag says, read bit by bit; `None` where a reserved bit is set.
pub open spec fn descriptor_meaning(d: u32) -> Option<(WireType, bool)> {
    if d > 15 {
        None
    } else {
        let signed = (d / 4) % 2 == 1;
        let array = (d / 8) % 2 == 1;
        let class = d % 4;
        let t = if class == 0 {
            if signed {
                WireType::I8
            } else {
                WireType::U8
            }
        } else if class == 1 {
            if signed {
                WireType::I32
            } else {
                WireType::U32
            }
        } else if class == 2 {
            if signed {
                WireType::I16
            } else {
                WireType::U16
            }
        } else {
            if signed {
                WireType::I64
            } else {
                WireType::U64
            }
        };
        Some((t, array))
    }
}

/// Reads a tag: the scalar type it names and whether it tags an array.
pub fn parse_descriptor(d: u32) -> (r: Option<(WireType, bool)>)
    ensures
        r == descriptor_meaning(d),
{
    if d > 15 {
        return None;
    }
    let signed = (d / 4) % 2 == 1;
    let array = (d / 8) % 2 == 1;
    let class: u32 = d % 4;
    let t = if class == 0 {
        if signed {
            WireType::I8
        } else {
            WireType::U8
        }
    } else if class == 1 {
        if signed {
            WireType::I32
        } else {
            WireType::U32
        }
    } else if class == 2 {
        if signed {
            WireType::I16
        } else {
            WireType::U16
        }
    } else {
        if signed {
            WireType::I64
        } else {
            WireType::U64
        }
    };
    Some((t, array))
}

/// The bit layout of a tag: the low two bits are the width class, bit 2 the
/// signed flag, bit 3 the array flag, and nothing else is set.
pub proof fn lemma_descriptor_bits(t: WireType)
    ensures
        t.spec_descriptor() & 3 == t.width_class(),
        (t.spec_descriptor() & ABI_SIGNED_BIT != 0) == t.spec_signed(),
        t.spec_descriptor() & ABI_ARRAY_BIT == 0,
        t.spec_array_descriptor() & 3 == t.width_class(),
        (t.spec_array_descriptor() & ABI_SIGNED_BIT != 0) == t.spec_signed(),
        t.spec_array_descriptor() & ABI_ARRAY_BIT == ABI_ARRAY_BIT,
        t.spec_descriptor() & 0xF0 == 0,
        t.spec_array_descriptor() & 0xF0 == 0,
        t.spec_array_descriptor() == t.spec_descriptor() | ABI_ARRAY_BIT,
{
    let d = t.spec_descriptor();
    assert(d < 8);
    assert(d < 8 ==> (d & 3 == d % 4 && (d & 4 != 0) == (d >= 4) && d & 8 == 0 && d & 0xF0 == 0
        && (d + 8) as u32 == d | 8)) by (bit_vector);
    let a = t.spec_array_descriptor();
    assert(8 <= a < 16);
    assert(8 <= a < 16 ==> (a & 3 == a % 4 && (a & 4 != 0) == (a >= 12) && a & 8 == 8 && a & 0xF0
        == 0)) by (bit_vector);
}

/// A tag names its type: reading the tag of a scalar or of an array gives the
/// type back, so two different types never share a tag.
pub proof fn lemma_descriptor_names_type(t: WireType)
    ensures
        descriptor_meaning(t.spec_descriptor()) == Some((t, false)),
        descriptor_meaning(t.spec_array_descriptor()) == Some((t, true)),
        t.spec_descriptor() <= ABI_DESCRIPTOR_MAX,
        t.spec_array_descriptor() <= ABI_DESCRIPTOR_MAX,
{
}

} // verus!
