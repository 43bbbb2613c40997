//! The address record: a version word and twenty bytes of data, which travel
//! as one value of twenty-four bytes.

use vstd::prelude::*;
use vstd::slice::slice_subrange;
use crate::wire::{
    decode_word, encode_word, le_bytes, le_value, lemma_le_bytes_tail, lemma_le_round_trip,
    lemma_pow256_values,
};

verus! {

/// Bytes that one address takes on the wire.
pub const ADDRESS_SIZE: usize = 24;

/// Bytes of data in an address.
pub const ADDRESS_DATA_SIZE: usize = 20;

/// A versioned address.
#[derive(Debug, Clone, Copy, PartialEq, Eq)]
pub struct NeutronAddress {
    pub version: u32,
    pub data: [u8; 20],
}

impl Default for NeutronAddress {
    fn default() -> (address: NeutronAddress)
        ensures
            address.version == 0,
            address.data@ == Seq::new(20, |i: int| 0u8),
    {
        let address = NeutronAddress { version: 0, data: [0u8;20] };
        proof {
            assert(address.data@ =~= Seq::new(20, |i: int| 0u8));
        }
        address
    }
}

/// The wire bytes of an address: the version as four little-endian bytes,
/// then the data as it stands.
pub open spec fn address_bytes(a: NeutronAddress) -> Seq<u8> {
    le_bytes(a.version as nat, 4) + a.data@
}

/// The wire bytes of an address array: one address after the other.
pub open spec fn addresses_bytes(addresses: Seq<NeutronAddress>) -> Seq<u8>
    decreases addresses.len(),
{
    if addresses.len() == 0 {
        Seq::empty()
    } else {
        addresses_bytes(addresses.drop_last()) + address_bytes(addresses.last())
    }
}

/// Two addresses with the same wire bytes are the same address.
pub proof fn lemma_address_bytes_injective(a: NeutronAddress, b: NeutronAddress)
    requires
        address_bytes(a) == address_bytes(b),
    ensures
        a == b,
{
    lemma_pow256_values();
    lemma_le_round_trip(a.version as nat, 4);
    lemma_le_round_trip(b.version as nat, 4);
    let wa = address_bytes(a);
    let wb = address_bytes(b);
    assert(wa.take(4) =~= le_bytes(a.version as nat, 4));
    assert(wb.take(4) =~= le_bytes(b.version as nat, 4));
    assert(wa.skip(4) =~= a.data@);
    assert(wb.skip(4) =~= b.data@);
    assert(a.data =~= b.data);
}

/// Encodes an address as twenty-four bytes.
pub fn encode_address(value: &NeutronAddress) -> (out: Vec<u8>)
    ensures
        out@ == address_bytes(*value),
        out@.len() == ADDRESS_SIZE,
{
    let mut out = encode_word(value.version as u64, 4);
    let mut i: usize = 0;
    while i < 20
        invariant
            i <= 20,
            out@ =~= le_bytes(value.version as nat, 4) + value.data@.take(i as int),
        decreases 20 - i,
    {
        out.push(value.data[i]);
        i += 1;
    }
    proof {
        assert(value.data@.take(20) =~= value.data@);
    }
    out
}

/// Decodes an address from exactly twenty-four bytes.
pub fn decode_address(bytes: &[u8]) -> (address: NeutronAddress)
    requires
        bytes@.len() == ADDRESS_SIZE,
    ensures
        address_bytes(address) == bytes@,
{
    proof {
        lemma_pow256_values();
    }
    let head = slice_subrange(bytes, 0, 4);
    let version = decode_word(head) as u32;
    let mut data = [0u8;20];
    let mut i: usize = 0;
    while i < 20
        invariant
            i <= 20,
            bytes@.len() == ADDRESS_SIZE,
            forall|j: int| 0 <= j < i ==> data@[j] == bytes@[4 + j],
        decreases 20 - i,
    {
        data[i] = bytes[4 + i];
        i += 1;
    }
    let address = NeutronAddress { version, data };
    proof {
        lemma_le_bytes_of_value(head@);
        assert(address_bytes(address) =~= bytes@);
    }
    address
}

/// Encoding the number that a byte string stands for gives the byte string
/// back.
pub proof fn lemma_le_bytes_of_value(bytes: Seq<u8>)
    ensures
        le_bytes(le_value(bytes), bytes.len()) =~= bytes,
    decreases bytes.len(),
{
    if bytes.len() > 0 {
        let tail = bytes.skip(1);
        lemma_le_bytes_of_value(tail);
        let x = le_value(bytes);
        assert(x == bytes[0] as nat + 256 * le_value(tail));
        assert(x % 256 == bytes[0] as nat && x / 256 == le_value(tail)) by (nonlinear_arith)
            requires
                x == bytes[0] as nat + 256 * le_value(tail),
                bytes[0] < 256,
        ;
        lemma_le_bytes_tail(x, bytes.len());
        assert(le_bytes(x, bytes.len()) =~= seq![bytes[0]] + le_bytes(x, bytes.len()).skip(1));
        assert(bytes =~= seq![bytes[0]] + tail);
    }
}

/// Encodes an address array as one run of bytes.
pub fn encode_array_address(values: &[NeutronAddress]) -> (out: Vec<u8>)
    ensures
        out@ == addresses_bytes(values@),
        out@.len() == values@.len() * ADDRESS_SIZE,
{
    let mut out: Vec<u8> = Vec::new();
    let mut i: usize = 0;
    while i < values.len()
        invariant
            i <= values@.len(),
            out@ == addresses_bytes(values@.take(i as int)),
            out@.len() == i * ADDRESS_SIZE,
        decreases values@.len() - i,
    {
        let mut piece = encode_address(&values[i]);
        proof {
            assert(values@.take(i + 1).drop_last() =~= values@.take(i as int));
            assert(values@.take(i + 1).last() == values@[i as int]);
        }
        out.append(&mut piece);
        i += 1;
    }
    proof {
        assert(values@.take(values@.len() as int) =~= values@);
    }
    out
}

/// Decodes an address array from a run of bytes that holds exactly one
/// address for each slot of `out`.
pub fn decode_array_address(bytes: &[u8], out: &mut [NeutronAddress])
    requires
        bytes@.len() == old(out)@.len() * ADDRESS_SIZE,
    ensures
        final(out)@.len() == old(out)@.len(),
        addresses_bytes(final(out)@) == bytes@,
{
    let count: usize = out.len();
    let total: usize = bytes.len();
    let mut i: usize = 0;
    proof {
        assert(bytes@.take(0) =~= Seq::<u8>::empty());
        assert(out@.take(0) =~= Seq::<NeutronAddress>::empty());
    }
    while i < count
        invariant
            i <= count,
            count == out@.len(),
            total == bytes@.len(),
            total == count * ADDRESS_SIZE,
            addresses_bytes(out@.take(i as int)) == bytes@.take(i * ADDRESS_SIZE),
        decreases count - i,
    {
        let piece = slice_subrange(bytes, i * ADDRESS_SIZE, i * ADDRESS_SIZE + ADDRESS_SIZE);
        let ghost before = out@;
        let value = decode_address(piece);
        out[i] = value;
        proof {
            assert(out@.take(i + 1).drop_last() =~= before.take(i as int));
            assert(out@.take(i + 1).last() == value);
            assert(bytes@.take((i + 1) * ADDRESS_SIZE) =~= bytes@.take(i * ADDRESS_SIZE) + piece@);
        }
        i += 1;
    }
    proof {
        assert(out@.take(count as int) =~= out@);
        assert(bytes@.take(count * ADDRESS_SIZE) =~= bytes@);
    }
}

} // verus!
