//! Typed access to the channel and to the keyed maps.
//!
//! Every function takes the execution context and says what it does to it.
//! A typed pop takes exactly one frame and accepts it only if it has
//! exactly the size of the type. A keyed read checks the stored tag before
//! it takes anything, and leaves the context as it found it.

use vstd::prelude::*;
use vstd::string::*;
use crate::abi::{ABI_DESCRIPTOR_MAX, ABI_VALUE_I8, WireType};
use crate::address::{
    address_bytes, addresses_bytes, decode_address, decode_array_address, encode_address,
    encode_array_address, NeutronAddress, ADDRESS_SIZE,
};
use crate::codec::{
    decode_array_i16, decode_array_i32, decode_array_i64, decode_array_i8, decode_array_u16,
    decode_array_u32, decode_array_u64, decode_array_u8, decode_i16, decode_i32, decode_i64,
    decode_i8, decode_u16, decode_u32, decode_u64, decode_u8, encode_array_i16,
    encode_array_i32, encode_array_i64, encode_array_i8, encode_array_u16, encode_array_u32,
    encode_array_u64, encode_array_u8, encode_i16, encode_i32, encode_i64, encode_i8,
    encode_u16, encode_u32, encode_u64, encode_u8, ints_i16, ints_i32, ints_i64, ints_i8,
    ints_u16, ints_u32, ints_u64, ints_u8,
};
use crate::error::{
    check_descriptor, check_frame_size, classify_status, size_outcome, status_outcome,
    RecoverableError, SystemError,
};
use crate::host::{
    find_entry, lemma_find_entry, overlay, EntryState, Host, HostState, MapSide, FRAME_LIMIT,
};
use crate::wire::{decode, decode_array, encode, encode_array};

verus! {

/// Pushes `data` as one frame.
pub fn push_costack(host: &mut Host, data: &[u8])
    requires
        old(host).wf(),
        data@.len() < FRAME_LIMIT,
    ensures
        final(host).wf(),
        final(host)@ == old(host)@.pushed(data@),
{
    host.push_frame(data);
}

/// Pops the top frame into `buffer` and returns the frame's true length, or
/// the host's failure code where there was no frame.
pub fn pop_costack_fixed(host: &mut Host, buffer: &mut [u8]) -> (r: Result<u32, SystemError>)
    requires
        old(host).wf(),
    ensures
        final(host).wf(),
        final(host)@ == old(host)@.popped(),
        r == status_outcome(old(host)@.pop_status()),
        final(buffer)@ == (if old(host)@.costack.len() == 0 {
            old(buffer)@
        } else {
            overlay(old(buffer)@, old(host)@.costack.last())
        }),
{
    let status = host.pop_frame(buffer);
    classify_status(status)
}

/// Pops the top frame and drops it.
pub fn discard_costack(host: &mut Host)
    requires
        old(host).wf(),
    ensures
        final(host).wf(),
        final(host)@ == old(host)@.popped(),
{
    host.discard_frame();
}

/// Issues the numbered host operation `(element, function)`. Its operands
/// must already be on the channel. A status below the threshold is the
/// operation's result; one at or above it is the host's failure code.
pub fn _system_call(host: &mut Host, element: u32, function: u32) -> (r: Result<u32, SystemError>)
    requires
        old(host).wf(),
    ensures
        final(host).wf(),
        final(host)@ == old(host)@.call(element, function).0,
        r == status_outcome(old(host)@.call(element, function).1),
{
    let status = host.system_call(element, function);
    classify_status(status)
}

/// The address of the running contract. Until the host tells it, this is the
/// all-zero address.
pub fn get_self_address() -> (address: NeutronAddress)
    ensures
        address.version == 0,
        address.data@ == Seq::new(20, |i: int| 0u8),
{
    NeutronAddress::default()
}

/// What a reader that wants exactly `size` bytes finds on top of the
/// channel.
pub open spec fn exact_frame(s: HostState, size: nat) -> Result<Seq<u8>, RecoverableError> {
    if s.costack.len() == 0 {
        Err(RecoverableError::ItemDoesntExist)
    } else {
        match size_outcome(s.costack.last().len(), size) {
            Ok(_) => Ok(s.costack.last()),
            Err(e) => Err(e),
        }
    }
}

/// What a typed pop of a scalar of type `t` returns.
pub open spec fn scalar_outcome(s: HostState, t: WireType) -> Result<int, RecoverableError> {
    match exact_frame(s, t.spec_width()) {
        Ok(bytes) => Ok(decode(t, bytes)),
        Err(e) => Err(e),
    }
}

/// What a typed pop of an array of `count` elements of type `t` returns.
pub open spec fn array_outcome(s: HostState, t: WireType, count: nat) -> Result<
    Seq<int>,
    RecoverableError,
> {
    match exact_frame(s, count * t.spec_width()) {
        Ok(bytes) => Ok(decode_array(t, bytes)),
        Err(e) => Err(e),
    }
}

/// Pops one frame and hands its bytes out only if there are exactly `size`
/// of them. The frame is gone either way.
pub fn pop_exact(host: &mut Host, size: usize) -> (r: Result<Vec<u8>, RecoverableError>)
    requires
        old(host).wf(),
    ensures
        final(host).wf(),
        final(host)@ == old(host)@.popped(),
        (match r {
            Ok(bytes) => exact_frame(old(host)@, size as nat) == Ok::<Seq<u8>, RecoverableError>(
                bytes@,
            ) && bytes@.len() == size,
            Err(e) => exact_frame(old(host)@, size as nat) == Err::<Seq<u8>, RecoverableError>(e),
        }),
{
    let mut buffer: Vec<u8> = Vec::new();
    buffer.resize(size, 0u8);
    let popped = pop_costack_fixed(host, buffer.as_mut_slice());
    let actual: u32 = match popped {
        Ok(v) => v,
        Err(_) => {
            return Err(RecoverableError::ItemDoesntExist);
        },
    };
    match check_frame_size(actual as usize, size) {
        Ok(_) => {
            proof {
                assert(buffer@ =~= old(host)@.costack.last());
            }
            Ok(buffer)
        },
        Err(e) => Err(e),
    }
}

/// The state after `key` was written to the map of `side` with the tag
/// `descriptor` and the wire bytes `value`.
pub open spec fn written(
    s: HostState,
    side: MapSide,
    key: Seq<u8>,
    descriptor: u32,
    value: Seq<u8>,
) -> HostState {
    s.with_entry(side, EntryState { key, descriptor, value })
}

/// What a read of `key` from the map of `side` returns to a reader that
/// expects the tag `expected` and exactly `size` bytes.
pub open spec fn read_outcome(
    s: HostState,
    side: MapSide,
    key: Seq<u8>,
    expected: u32,
    size: nat,
) -> Result<Seq<u8>, RecoverableError> {
    match find_entry(s.map(side), key) {
        None => Err(RecoverableError::ItemDoesntExist),
        Some(entry) => if entry.descriptor != expected {
            Err(RecoverableError::TypeMismatch)
        } else {
            match size_outcome(entry.value.len(), size) {
                Ok(_) => Ok(entry.value),
                Err(e) => Err(e),
            }
        },
    }
}

/// What a keyed read of a scalar of type `t` returns.
pub open spec fn read_scalar_outcome(
    s: HostState,
    side: MapSide,
    key: Seq<u8>,
    t: WireType,
) -> Result<int, RecoverableError> {
    match read_outcome(s, side, key, t.spec_descriptor(), t.spec_width()) {
        Ok(bytes) => Ok(decode(t, bytes)),
        Err(e) => Err(e),
    }
}

/// What a keyed read of an array of `count` elements of type `t` returns.
pub open spec fn read_array_outcome(
    s: HostState,
    side: MapSide,
    key: Seq<u8>,
    t: WireType,
    count: nat,
) -> Result<Seq<int>, RecoverableError> {
    match read_outcome(s, side, key, t.spec_array_descriptor(), count * t.spec_width()) {
        Ok(bytes) => Ok(decode_array(t, bytes)),
        Err(e) => Err(e),
    }
}

/// Writes one entry of the input map: the key frame, the value frame, then
/// the commit that carries the tag.
pub fn write_input_entry(host: &mut Host, key: &[u8], descriptor: u32, value: &[u8])
    requires
        old(host).wf(),
        key@.len() < FRAME_LIMIT,
        value@.len() < FRAME_LIMIT,
        descriptor <= ABI_DESCRIPTOR_MAX,
    ensures
        final(host).wf(),
        final(host)@ == written(old(host)@, MapSide::Input, key@, descriptor, value@),
{
    push_costack(host, key);
    push_costack(host, value);
    host.commit_comap(MapSide::Input, descriptor);
    proof {
        let pushed = old(host)@.pushed(key@).pushed(value@);
        assert(pushed.dropped(2).costack =~= old(host)@.costack);
    }
}

/// Writes one entry of the result map: the key frame, the value frame, then
/// the commit that carries the tag.
pub fn write_result_entry(host: &mut Host, key: &[u8], descriptor: u32, value: &[u8])
    requires
        old(host).wf(),
        key@.len() < FRAME_LIMIT,
        value@.len() < FRAME_LIMIT,
        descriptor <= ABI_DESCRIPTOR_MAX,
    ensures
        final(host).wf(),
        final(host)@ == written(old(host)@, MapSide::Result, key@, descriptor, value@),
{
    push_costack(host, key);
    push_costack(host, value);
    host.commit_comap(MapSide::Result, descriptor);
    proof {
        let pushed = old(host)@.pushed(key@).pushed(value@);
        assert(pushed.dropped(2).costack =~= old(host)@.costack);
    }
}

/// Reads the value stored under `key` in the map of `side`. The stored tag
/// is looked at first; only where it is `expected` is the value taken and
/// held to the size. Whatever the outcome, the context is left as it was.
pub fn read_entry(host: &mut Host, side: MapSide, key: &[u8], expected: u32, size: usize) -> (r:
    Result<Vec<u8>, RecoverableError>)
    requires
        old(host).wf(),
        key@.len() < FRAME_LIMIT,
    ensures
        final(host).wf(),
        final(host)@ == old(host)@,
        (match r {
            Ok(bytes) => read_outcome(old(host)@, side, key@, expected, size as nat) == Ok::<
                Seq<u8>,
                RecoverableError,
            >(bytes@) && bytes@.len() == size,
            Err(e) => read_outcome(old(host)@, side, key@, expected, size as nat) == Err::<
                Seq<u8>,
                RecoverableError,
            >(e),
        }),
{
    push_costack(host, key);
    let ghost with_key = host@;
    proof {
        assert(with_key.costack.last() == key@);
        assert(with_key.map(side) == old(host)@.map(side));
        assert(with_key.dropped(1).costack =~= old(host)@.costack);
        lemma_find_entry(old(host)@.map(side), key@);
    }
    let status = host.peek_comap(side);
    match check_descriptor(status, expected) {
        Err(e) => {
            discard_costack(host);
            proof {
                assert(host@.costack =~= old(host)@.costack);
            }
            return Err(e);
        },
        Ok(_) => {
            proof {
                let entry = find_entry(old(host)@.map(side), key@).unwrap();
                assert(host@ == with_key.dropped(1).pushed(entry.value));
                assert(host@.popped().costack =~= old(host)@.costack);
            }
        },
    }
    pop_exact(host, size)
}

/// Pops an exact `u8` value from the channel.
pub fn pop_costack_u8(host: &mut Host) -> (r: Result<u8, RecoverableError>)
    requires
        old(host).wf(),
    ensures
        final(host).wf(),
        final(host)@ == old(host)@.popped(),
        (match r {
            Ok(v) => scalar_outcome(old(host)@, WireType::U8) == Ok::<int, RecoverableError>(
                v as int,
            ),
            Err(e) => scalar_outcome(old(host)@, WireType::U8) == Err::<int, RecoverableError>(e),
        }),
{
    match pop_exact(host, 1) {
        Ok(bytes) => Ok(decode_u8(bytes.as_slice())),
        Err(e) => Err(e),
    }
}

/// Pops an exact `u16` value from the channel.
pub fn pop_costack_u16(host: &mut Host) -> (r: Result<u16, RecoverableError>)
    requires
        old(host).wf(),
    ensures
        final(host).wf(),
        final(host)@ == old(host)@.popped(),
        (match r {
            Ok(v) => scalar_outcome(old(host)@, WireType::U16) == Ok::<int, RecoverableError>(
                v as int,
            ),
            Err(e) => scalar_outcome(old(host)@, WireType::U16) == Err::<int, RecoverableError>(e),
        }),
{
    match pop_exact(host, 2) {
        Ok(bytes) => Ok(decode_u16(bytes.as_slice())),
        Err(e) => Err(e),
    }
}

/// Pops an exact `u32` value from the channel.
pub fn pop_costack_u32(host: &mut Host) -> (r: Result<u32, RecoverableError>)
    requires
        old(host).wf(),
    ensures
        final(host).wf(),
        final(host)@ == old(host)@.popped(),
        (match r {
            Ok(v) => scalar_outcome(old(host)@, WireType::U32) == Ok::<int, RecoverableError>(
                v as int,
            ),
            Err(e) => scalar_outcome(old(host)@, WireType::U32) == Err::<int, RecoverableError>(e),
        }),
{
    match pop_exact(host, 4) {
        Ok(bytes) => Ok(decode_u32(bytes.as_slice())),
        Err(e) => Err(e),
    }
}

/// Pops an exact `u64` value from the channel.
pub fn pop_costack_u64(host: &mut Host) -> (r: Result<u64, RecoverableError>)
    requires
        old(host).wf(),
    ensures
        final(host).wf(),
        final(host)@ == old(host)@.popped(),
        (match r {
            Ok(v) => scalar_outcome(old(host)@, WireType::U64) == Ok::<int, RecoverableError>(
                v as int,
            ),
            Err(e) => scalar_outcome(old(host)@, WireType::U64) == Err::<int, RecoverableError>(e),
        }),
{
    match pop_exact(host, 8) {
        Ok(bytes) => Ok(decode_u64(bytes.as_slice())),
        Err(e) => Err(e),
    }
}

/// Pops an exact `i8` value from the channel.
pub fn pop_costack_i8(host: &mut Host) -> (r: Result<i8, RecoverableError>)
    requires
        old(host).wf(),
    ensures
        final(host).wf(),
        final(host)@ == old(host)@.popped(),
        (match r {
            Ok(v) => scalar_outcome(old(host)@, WireType::I8) == Ok::<int, RecoverableError>(
                v as int,
            ),
            Err(e) => scalar_outcome(old(host)@, WireType::I8) == Err::<int, RecoverableError>(e),
        }),
{
    match pop_exact(host, 1) {
        Ok(bytes) => Ok(decode_i8(bytes.as_slice())),
        Err(e) => Err(e),
    }
}

/// Pops an exact `i16` value from the channel.
pub fn pop_costack_i16(host: &mut Host) -> (r: Result<i16, RecoverableError>)
    requires
        old(host).wf(),
    ensures
        final(host).wf(),
        final(host)@ == old(host)@.popped(),
        (match r {
            Ok(v) => scalar_outcome(old(host)@, WireType::I16) == Ok::<int, RecoverableError>(
                v as int,
            ),
            Err(e) => scalar_outcome(old(host)@, WireType::I16) == Err::<int, RecoverableError>(e),
        }),
{
    match pop_exact(host, 2) {
        Ok(bytes) => Ok(decode_i16(bytes.as_slice())),
        Err(e) => Err(e),
    }
}

/// Pops an exact `i32` value from the channel.
pub fn pop_costack_i32(host: &mut Host) -> (r: Result<i32, RecoverableError>)
    requires
        old(host).wf(),
    ensures
        final(host).wf(),
        final(host)@ == old(host)@.popped(),
        (match r {
            Ok(v) => scalar_outcome(old(host)@, WireType::I32) == Ok::<int, RecoverableError>(
                v as int,
            ),
            Err(e) => scalar_outcome(old(host)@, WireType::I32) == Err::<int, RecoverableError>(e),
        }),
{
    match pop_exact(host, 4) {
        Ok(bytes) => Ok(decode_i32(bytes.as_slice())),
        Err(e) => Err(e),
    }
}

/// Pops an exact `i64` value from the channel.
pub fn pop_costack_i64(host: &mut Host) -> (r: Result<i64, RecoverableError>)
    requires
        old(host).wf(),
    ensures
        final(host).wf(),
        final(host)@ == old(host)@.popped(),
        (match r {
            Ok(v) => scalar_outcome(old(host)@, WireType::I64) == Ok::<int, RecoverableError>(
                v as int,
            ),
            Err(e) => scalar_outcome(old(host)@, WireType::I64) == Err::<int, RecoverableError>(e),
        }),
{
    match pop_exact(host, 8) {
        Ok(bytes) => Ok(decode_i64(bytes.as_slice())),
        Err(e) => Err(e),
    }
}

/// Pops an exact address from the channel.
pub fn pop_costack_address(host: &mut Host) -> (r: Result<NeutronAddress, RecoverableError>)
    requires
        old(host).wf(),
    ensures
        final(host).wf(),
        final(host)@ == old(host)@.popped(),
        (match r {
            Ok(a) => exact_frame(old(host)@, ADDRESS_SIZE as nat) == Ok::<
                Seq<u8>,
                RecoverableError,
            >(address_bytes(a)),
            Err(e) => exact_frame(old(host)@, ADDRESS_SIZE as nat) == Err::<
                Seq<u8>,
                RecoverableError,
            >(e),
        }),
{
    match pop_exact(host, ADDRESS_SIZE) {
        Ok(bytes) => Ok(decode_address(bytes.as_slice())),
        Err(e) => Err(e),
    }
}

/// Pops a `u8` array that fills `slice` exactly.
pub fn pop_costack_fixed_array_u8(host: &mut Host, slice: &mut [u8]) -> (r: Result<
    (),
    RecoverableError,
>)
    requires
        old(host).wf(),
        old(slice)@.len() * 1 <= usize::MAX,
    ensures
        final(host).wf(),
        final(host)@ == old(host)@.popped(),
        final(slice)@.len() == old(slice)@.len(),
        (match r {
            Ok(_) => array_outcome(old(host)@, WireType::U8, old(slice)@.len()) == Ok::<
                Seq<int>,
                RecoverableError,
            >(ints_u8(final(slice)@)),
            Err(e) => array_outcome(old(host)@, WireType::U8, old(slice)@.len()) == Err::<
                Seq<int>,
                RecoverableError,
            >(e) && final(slice)@ == old(slice)@,
        }),
{
    let size: usize = slice.len() * 1;
    match pop_exact(host, size) {
        Ok(bytes) => {
            decode_array_u8(bytes.as_slice(), slice);
            Ok(())
        },
        Err(e) => Err(e),
    }
}

/// Pops a `u16` array that fills `slice` exactly.
pub fn pop_costack_fixed_array_u16(host: &mut Host, slice: &mut [u16]) -> (r: Result<
    (),
    RecoverableError,
>)
    requires
        old(host).wf(),
        old(slice)@.len() * 2 <= usize::MAX,
    ensures
        final(host).wf(),
        final(host)@ == old(host)@.popped(),
        final(slice)@.len() == old(slice)@.len(),
        (match r {
            Ok(_) => array_outcome(old(host)@, WireType::U16, old(slice)@.len()) == Ok::<
                Seq<int>,
                RecoverableError,
            >(ints_u16(final(slice)@)),
            Err(e) => array_outcome(old(host)@, WireType::U16, old(slice)@.len()) == Err::<
                Seq<int>,
                RecoverableError,
            >(e) && final(slice)@ == old(slice)@,
        }),
{
    let size: usize = slice.len() * 2;
    match pop_exact(host, size) {
        Ok(bytes) => {
            decode_array_u16(bytes.as_slice(), slice);
            Ok(())
        },
        Err(e) => Err(e),
    }
}

/// Pops a `u32` array that fills `slice` exactly.
pub fn pop_costack_fixed_array_u32(host: &mut Host, slice: &mut [u32]) -> (r: Result<
    (),
    RecoverableError,
>)
    requires
        old(host).wf(),
        old(slice)@.len() * 4 <= usize::MAX,
    ensures
        final(host).wf(),
        final(host)@ == old(host)@.popped(),
        final(slice)@.len() == old(slice)@.len(),
        (match r {
            Ok(_) => array_outcome(old(host)@, WireType::U32, old(slice)@.len()) == Ok::<
                Seq<int>,
                RecoverableError,
            >(ints_u32(final(slice)@)),
            Err(e) => array_outcome(old(host)@, WireType::U32, old(slice)@.len()) == Err::<
                Seq<int>,
                RecoverableError,
            >(e) && final(slice)@ == old(slice)@,
        }),
{
    let size: usize = slice.len() * 4;
    match pop_exact(host, size) {
        Ok(bytes) => {
            decode_array_u32(bytes.as_slice(), slice);
            Ok(())
        },
        Err(e) => Err(e),
    }
}

/// Pops a `u64` array that fills `slice` exactly.
pub fn pop_costack_fixed_array_u64(host: &mut Host, slice: &mut [u64]) -> (r: Result<
    (),
    RecoverableError,
>)
    requires
        old(host).wf(),
        old(slice)@.len() * 8 <= usize::MAX,
    ensures
        final(host).wf(),
        final(host)@ == old(host)@.popped(),
        final(slice)@.len() == old(slice)@.len(),
        (match r {
            Ok(_) => array_outcome(old(host)@, WireType::U64, old(slice)@.len()) == Ok::<
                Seq<int>,
                RecoverableError,
            >(ints_u64(final(slice)@)),
            Err(e) => array_outcome(old(host)@, WireType::U64, old(slice)@.len()) == Err::<
                Seq<int>,
                RecoverableError,
            >(e) && final(slice)@ == old(slice)@,
        }),
{
    let size: usize = slice.len() * 8;
    match pop_exact(host, size) {
        Ok(bytes) => {
            decode_array_u64(bytes.as_slice(), slice);
            Ok(())
        },
        Err(e) => Err(e),
    }
}

/// Pops a `i8` array that fills `slice` exactly.
pub fn pop_costack_fixed_array_i8(host: &mut Host, slice: &mut [i8]) -> (r: Result<
    (),
    RecoverableError,
>)
    requires
        old(host).wf(),
        old(slice)@.len() * 1 <= usize::MAX,
    ensures
        final(host).wf(),
        final(host)@ == old(host)@.popped(),
        final(slice)@.len() == old(slice)@.len(),
        (match r {
            Ok(_) => array_outcome(old(host)@, WireType::I8, old(slice)@.len()) == Ok::<
                Seq<int>,
                RecoverableError,
            >(ints_i8(final(slice)@)),
            Err(e) => array_outcome(old(host)@, WireType::I8, old(slice)@.len()) == Err::<
                Seq<int>,
                RecoverableError,
            >(e) && final(slice)@ == old(slice)@,
        }),
{
    let size: usize = slice.len() * 1;
    match pop_exact(host, size) {
        Ok(bytes) => {
            decode_array_i8(bytes.as_slice(), slice);
            Ok(())
        },
        Err(e) => Err(e),
    }
}

/// Pops a `i16` array that fills `slice` exactly.
pub fn pop_costack_fixed_array_i16(host: &mut Host, slice: &mut [i16]) -> (r: Result<
    (),
    RecoverableError,
>)
    requires
        old(host).wf(),
        old(slice)@.len() * 2 <= usize::MAX,
    ensures
        final(host).wf(),
        final(host)@ == old(host)@.popped(),
        final(slice)@.len() == old(slice)@.len(),
        (match r {
            Ok(_) => array_outcome(old(host)@, WireType::I16, old(slice)@.len()) == Ok::<
                Seq<int>,
                RecoverableError,
            >(ints_i16(final(slice)@)),
            Err(e) => array_outcome(old(host)@, WireType::I16, old(slice)@.len()) == Err::<
                Seq<int>,
                RecoverableError,
            >(e) && final(slice)@ == old(slice)@,
        }),
{
    let size: usize = slice.len() * 2;
    match pop_exact(host, size) {
        Ok(bytes) => {
            decode_array_i16(bytes.as_slice(), slice);
            Ok(())
        },
        Err(e) => Err(e),
    }
}

/// Pops a `i32` array that fills `slice` exactly.
pub fn pop_costack_fixed_array_i32(host: &mut Host, slice: &mut [i32]) -> (r: Result<
    (),
    RecoverableError,
>)
    requires
        old(host).wf(),
        old(slice)@.len() * 4 <= usize::MAX,
    ensures
        final(host).wf(),
        final(host)@ == old(host)@.popped(),
        final(slice)@.len() == old(slice)@.len(),
        (match r {
            Ok(_) => array_outcome(old(host)@, WireType::I32, old(slice)@.len()) == Ok::<
                Seq<int>,
                RecoverableError,
            >(ints_i32(final(slice)@)),
            Err(e) => array_outcome(old(host)@, WireType::I32, old(slice)@.len()) == Err::<
                Seq<int>,
                RecoverableError,
            >(e) && final(slice)@ == old(slice)@,
        }),
{
    let size: usize = slice.len() * 4;
    match pop_exact(host, size) {
        Ok(bytes) => {
            decode_array_i32(bytes.as_slice(), slice);
            Ok(())
        },
        Err(e) => Err(e),
    }
}

/// Pops a `i64` array that fills `slice` exactly.
pub fn pop_costack_fixed_array_i64(host: &mut Host, slice: &mut [i64]) -> (r: Result<
    (),
    RecoverableError,
>)
    requires
        old(host).wf(),
        old(slice)@.len() * 8 <= usize::MAX,
    ensures
        final(host).wf(),
        final(host)@ == old(host)@.popped(),
        final(slice)@.len() == old(slice)@.len(),
        (match r {
            Ok(_) => array_outcome(old(host)@, WireType::I64, old(slice)@.len()) == Ok::<
                Seq<int>,
                RecoverableError,
            >(ints_i64(final(slice)@)),
            Err(e) => array_outcome(old(host)@, WireType::I64, old(slice)@.len()) == Err::<
                Seq<int>,
                RecoverableError,
            >(e) && final(slice)@ == old(slice)@,
        }),
{
    let size: usize = slice.len() * 8;
    match pop_exact(host, size) {
        Ok(bytes) => {
            decode_array_i64(bytes.as_slice(), slice);
            Ok(())
        },
        Err(e) => Err(e),
    }
}

/// Pops an address array that fills `slice` exactly.
pub fn pop_costack_fixed_array_address(host: &mut Host, slice: &mut [NeutronAddress]) -> (r:
    Result<(), RecoverableError>)
    requires
        old(host).wf(),
        old(slice)@.len() * ADDRESS_SIZE <= usize::MAX,
    ensures
        final(host).wf(),
        final(host)@ == old(host)@.popped(),
        final(slice)@.len() == old(slice)@.len(),
        (match r {
            Ok(_) => exact_frame(old(host)@, old(slice)@.len() * ADDRESS_SIZE as nat) == Ok::<
                Seq<u8>,
                RecoverableError,
            >(addresses_bytes(final(slice)@)),
            Err(e) => exact_frame(old(host)@, old(slice)@.len() * ADDRESS_SIZE as nat) == Err::<
                Seq<u8>,
                RecoverableError,
            >(e) && final(slice)@ == old(slice)@,
        }),
{
    let size: usize = slice.len() * ADDRESS_SIZE;
    match pop_exact(host, size) {
        Ok(bytes) => {
            decode_array_address(bytes.as_slice(), slice);
            Ok(())
        },
        Err(e) => Err(e),
    }
}

/// Pushes an exact `u8` value to the channel.
pub fn push_costack_u8(host: &mut Host, value: u8)
    requires
        old(host).wf(),
    ensures
        final(host).wf(),
        final(host)@ == old(host)@.pushed(encode(WireType::U8, value as int)),
{
    let bytes = encode_u8(value);
    push_costack(host, bytes.as_slice());
}

/// Pushes an exact `u16` value to the channel.
pub fn push_costack_u16(host: &mut Host, value: u16)
    requires
        old(host).wf(),
    ensures
        final(host).wf(),
        final(host)@ == old(host)@.pushed(encode(WireType::U16, value as int)),
{
    let bytes = encode_u16(value);
    push_costack(host, bytes.as_slice());
}

/// Pushes an exact `u32` value to the channel.
pub fn push_costack_u32(host: &mut Host, value: u32)
    requires
        old(host).wf(),
    ensures
        final(host).wf(),
        final(host)@ == old(host)@.pushed(encode(WireType::U32, value as int)),
{
    let bytes = encode_u32(value);
    push_costack(host, bytes.as_slice());
}

/// Pushes an exact `u64` value to the channel.
pub fn push_costack_u64(host: &mut Host, value: u64)
    requires
        old(host).wf(),
    ensures
        final(host).wf(),
        final(host)@ == old(host)@.pushed(encode(WireType::U64, value as int)),
{
    let bytes = encode_u64(value);
    push_costack(host, bytes.as_slice());
}

/// Pushes an exact `i8` value to the channel.
pub fn push_costack_i8(host: &mut Host, value: i8)
    requires
        old(host).wf(),
    ensures
        final(host).wf(),
        final(host)@ == old(host)@.pushed(encode(WireType::I8, value as int)),
{
    let bytes = encode_i8(value);
    push_costack(host, bytes.as_slice());
}

/// Pushes an exact `i16` value to the channel.
pub fn push_costack_i16(host: &mut Host, value: i16)
    requires
        old(host).wf(),
    ensures
        final(host).wf(),
        final(host)@ == old(host)@.pushed(encode(WireType::I16, value as int)),
{
    let bytes = encode_i16(value);
    push_costack(host, bytes.as_slice());
}

/// Pushes an exact `i32` value to the channel.
pub fn push_costack_i32(host: &mut Host, value: i32)
    requires
        old(host).wf(),
    ensures
        final(host).wf(),
        final(host)@ == old(host)@.pushed(encode(WireType::I32, value as int)),
{
    let bytes = encode_i32(value);
    push_costack(host, bytes.as_slice());
}

/// Pushes an exact `i64` value to the channel.
pub fn push_costack_i64(host: &mut Host, value: i64)
    requires
        old(host).wf(),
    ensures
        final(host).wf(),
        final(host)@ == old(host)@.pushed(encode(WireType::I64, value as int)),
{
    let bytes = encode_i64(value);
    push_costack(host, bytes.as_slice());
}

/// Pushes an exact address to the channel.
pub fn push_costack_address(host: &mut Host, value: &NeutronAddress)
    requires
        old(host).wf(),
    ensures
        final(host).wf(),
        final(host)@ == old(host)@.pushed(address_bytes(*value)),
{
    let bytes = encode_address(value);
    push_costack(host, bytes.as_slice());
}

/// Pushes a `u8` array to the channel as one frame.
pub fn push_costack_array_u8(host: &mut Host, value: &[u8])
    requires
        old(host).wf(),
        value@.len() * 1 < FRAME_LIMIT,
    ensures
        final(host).wf(),
        final(host)@ == old(host)@.pushed(encode_array(WireType::U8, ints_u8(value@))),
{
    let bytes = encode_array_u8(value);
    push_costack(host, bytes.as_slice());
}

/// Pushes a `u16` array to the channel as one frame.
pub fn push_costack_array_u16(host: &mut Host, value: &[u16])
    requires
        old(host).wf(),
        value@.len() * 2 < FRAME_LIMIT,
    ensures
        final(host).wf(),
        final(host)@ == old(host)@.pushed(encode_array(WireType::U16, ints_u16(value@))),
{
    let bytes = encode_array_u16(value);
    push_costack(host, bytes.as_slice());
}

/// Pushes a `u32` array to the channel as one frame.
pub fn push_costack_array_u32(host: &mut Host, value: &[u32])
    requires
        old(host).wf(),
        value@.len() * 4 < FRAME_LIMIT,
    ensures
        final(host).wf(),
        final(host)@ == old(host)@.pushed(encode_array(WireType::U32, ints_u32(value@))),
{
    let bytes = encode_array_u32(value);
    push_costack(host, bytes.as_slice());
}

/// Pushes a `u64` array to the channel as one frame.
pub fn push_costack_array_u64(host: &mut Host, value: &[u64])
    requires
        old(host).wf(),
        value@.len() * 8 < FRAME_LIMIT,
    ensures
        final(host).wf(),
        final(host)@ == old(host)@.pushed(encode_array(WireType::U64, ints_u64(value@))),
{
    let bytes = encode_array_u64(value);
    push_costack(host, bytes.as_slice());
}

/// Pushes a `i8` array to the channel as one frame.
pub fn push_costack_array_i8(host: &mut Host, value: &[i8])
    requires
        old(host).wf(),
        value@.len() * 1 < FRAME_LIMIT,
    ensures
        final(host).wf(),
        final(host)@ == old(host)@.pushed(encode_array(WireType::I8, ints_i8(value@))),
{
    let bytes = encode_array_i8(value);
    push_costack(host, bytes.as_slice());
}

/// Pushes a `i16` array to the channel as one frame.
pub fn push_costack_array_i16(host: &mut Host, value: &[i16])
    requires
        old(host).wf(),
        value@.len() * 2 < FRAME_LIMIT,
    ensures
        final(host).wf(),
        final(host)@ == old(host)@.pushed(encode_array(WireType::I16, ints_i16(value@))),
{
    let bytes = encode_array_i16(value);
    push_costack(host, bytes.as_slice());
}

/// Pushes a `i32` array to the channel as one frame.
pub fn push_costack_array_i32(host: &mut Host, value: &[i32])
    requires
        old(host).wf(),
        value@.len() * 4 < FRAME_LIMIT,
    ensures
        final(host).wf(),
        final(host)@ == old(host)@.pushed(encode_array(WireType::I32, ints_i32(value@))),
{
    let bytes = encode_array_i32(value);
    push_costack(host, bytes.as_slice());
}

/// Pushes a `i64` array to the channel as one frame.
pub fn push_costack_array_i64(host: &mut Host, value: &[i64])
    requires
        old(host).wf(),
        value@.len() * 8 < FRAME_LIMIT,
    ensures
        final(host).wf(),
        final(host)@ == old(host)@.pushed(encode_array(WireType::I64, ints_i64(value@))),
{
    let bytes = encode_array_i64(value);
    push_costack(host, bytes.as_slice());
}

/// Pushes an address array to the channel as one frame.
pub fn push_costack_array_address(host: &mut Host, value: &[NeutronAddress])
    requires
        old(host).wf(),
        value@.len() * ADDRESS_SIZE < FRAME_LIMIT,
    ensures
        final(host).wf(),
        final(host)@ == old(host)@.pushed(addresses_bytes(value@)),
{
    let bytes = encode_array_address(value);
    push_costack(host, bytes.as_slice());
}

/// Writes a `u8` value to the input map.
pub fn write_comap_u8(host: &mut Host, key: &str, value: u8)
    requires
        old(host).wf(),
        key.spec_bytes().len() < FRAME_LIMIT,
    ensures
        final(host).wf(),
        final(host)@ == written(
            old(host)@,
            MapSide::Input,
            key.spec_bytes(),
            WireType::U8.spec_descriptor(),
            encode(WireType::U8, value as int),
        ),
{
    let bytes = encode_u8(value);
    write_input_entry(host, key.as_bytes(), WireType::U8.descriptor(), bytes.as_slice());
}

/// Writes a `u16` value to the input map.
pub fn write_comap_u16(host: &mut Host, key: &str, value: u16)
    requires
        old(host).wf(),
        key.spec_bytes().len() < FRAME_LIMIT,
    ensures
        final(host).wf(),
        final(host)@ == written(
            old(host)@,
            MapSide::Input,
            key.spec_bytes(),
            WireType::U16.spec_descriptor(),
            encode(WireType::U16, value as int),
        ),
{
    let bytes = encode_u16(value);
    write_input_entry(host, key.as_bytes(), WireType::U16.descriptor(), bytes.as_slice());
}

/// Writes a `u32` value to the input map.
pub fn write_comap_u32(host: &mut Host, key: &str, value: u32)
    requires
        old(host).wf(),
        key.spec_bytes().len() < FRAME_LIMIT,
    ensures
        final(host).wf(),
        final(host)@ == written(
            old(host)@,
            MapSide::Input,
            key.spec_bytes(),
            WireType::U32.spec_descriptor(),
            encode(WireType::U32, value as int),
        ),
{
    let bytes = encode_u32(value);
    write_input_entry(host, key.as_bytes(), WireType::U32.descriptor(), bytes.as_slice());
}

/// Writes a `u64` value to the input map.
pub fn write_comap_u64(host: &mut Host, key: &str, value: u64)
    requires
        old(host).wf(),
        key.spec_bytes().len() < FRAME_LIMIT,
    ensures
        final(host).wf(),
        final(host)@ == written(
            old(host)@,
            MapSide::Input,
            key.spec_bytes(),
            WireType::U64.spec_descriptor(),
            encode(WireType::U64, value as int),
        ),
{
    let bytes = encode_u64(value);
    write_input_entry(host, key.as_bytes(), WireType::U64.descriptor(), bytes.as_slice());
}

/// Writes a `i8` value to the input map.
pub fn write_comap_i8(host: &mut Host, key: &str, value: i8)
    requires
        old(host).wf(),
        key.spec_bytes().len() < FRAME_LIMIT,
    ensures
        final(host).wf(),
        final(host)@ == written(
            old(host)@,
            MapSide::Input,
            key.spec_bytes(),
            WireType::I8.spec_descriptor(),
            encode(WireType::I8, value as int),
        ),
{
    let bytes = encode_i8(value);
    write_input_entry(host, key.as_bytes(), WireType::I8.descriptor(), bytes.as_slice());
}

/// Writes a `i16` value to the input map.
pub fn write_comap_i16(host: &mut Host, key: &str, value: i16)
    requires
        old(host).wf(),
        key.spec_bytes().len() < FRAME_LIMIT,
    ensures
        final(host).wf(),
        final(host)@ == written(
            old(host)@,
            MapSide::Input,
            key.spec_bytes(),
            WireType::I16.spec_descriptor(),
            encode(WireType::I16, value as int),
        ),
{
    let bytes = encode_i16(value);
    write_input_entry(host, key.as_bytes(), WireType::I16.descriptor(), bytes.as_slice());
}

/// Writes a `i32` value to the input map.
pub fn write_comap_i32(host: &mut Host, key: &str, value: i32)
    requires
        old(host).wf(),
        key.spec_bytes().len() < FRAME_LIMIT,
    ensures
        final(host).wf(),
        final(host)@ == written(
            old(host)@,
            MapSide::Input,
            key.spec_bytes(),
            WireType::I32.spec_descriptor(),
            encode(WireType::I32, value as int),
        ),
{
    let bytes = encode_i32(value);
    write_input_entry(host, key.as_bytes(), WireType::I32.descriptor(), bytes.as_slice());
}

/// Writes a `i64` value to the input map.
pub fn write_comap_i64(host: &mut Host, key: &str, value: i64)
    requires
        old(host).wf(),
        key.spec_bytes().len() < FRAME_LIMIT,
    ensures
        final(host).wf(),
        final(host)@ == written(
            old(host)@,
            MapSide::Input,
            key.spec_bytes(),
            WireType::I64.spec_descriptor(),
            encode(WireType::I64, value as int),
        ),
{
    let bytes = encode_i64(value);
    write_input_entry(host, key.as_bytes(), WireType::I64.descriptor(), bytes.as_slice());
}

/// Writes an address to the input map. Addresses have no tag of their own
/// and travel under the tag of a signed byte.
pub fn write_comap_address(host: &mut Host, key: &str, value: NeutronAddress)
    requires
        old(host).wf(),
        key.spec_bytes().len() < FRAME_LIMIT,
    ensures
        final(host).wf(),
        final(host)@ == written(
            old(host)@,
            MapSide::Input,
            key.spec_bytes(),
            ABI_VALUE_I8,
            address_bytes(value),
        ),
{
    let bytes = encode_address(&value);
    write_input_entry(host, key.as_bytes(), ABI_VALUE_I8, bytes.as_slice());
}

/// Writes a `u8` array to the input map.
pub fn write_comap_array_u8(host: &mut Host, key: &str, value_slice: &[u8])
    requires
        old(host).wf(),
        key.spec_bytes().len() < FRAME_LIMIT,
        value_slice@.len() * 1 < FRAME_LIMIT,
    ensures
        final(host).wf(),
        final(host)@ == written(
            old(host)@,
            MapSide::Input,
            key.spec_bytes(),
            WireType::U8.spec_array_descriptor(),
            encode_array(WireType::U8, ints_u8(value_slice@)),
        ),
{
    let bytes = encode_array_u8(value_slice);
    write_input_entry(host, key.as_bytes(), WireType::U8.array_descriptor(), bytes.as_slice());
}

/// Writes a `u16` array to the input map.
pub fn write_comap_array_u16(host: &mut Host, key: &str, value_slice: &[u16])
    requires
        old(host).wf(),
        key.spec_bytes().len() < FRAME_LIMIT,
        value_slice@.len() * 2 < FRAME_LIMIT,
    ensures
        final(host).wf(),
        final(host)@ == written(
            old(host)@,
            MapSide::Input,
            key.spec_bytes(),
            WireType::U16.spec_array_descriptor(),
            encode_array(WireType::U16, ints_u16(value_slice@)),
        ),
{
    let bytes = encode_array_u16(value_slice);
    write_input_entry(host, key.as_bytes(), WireType::U16.array_descriptor(), bytes.as_slice());
}

/// Writes a `u32` array to the input map.
pub fn write_comap_array_u32(host: &mut Host, key: &str, value_slice: &[u32])
    requires
        old(host).wf(),
        key.spec_bytes().len() < FRAME_LIMIT,
        value_slice@.len() * 4 < FRAME_LIMIT,
    ensures
        final(host).wf(),
        final(host)@ == written(
            old(host)@,
            MapSide::Input,
            key.spec_bytes(),
            WireType::U32.spec_array_descriptor(),
            encode_array(WireType::U32, ints_u32(value_slice@)),
        ),
{
    let bytes = encode_array_u32(value_slice);
    write_input_entry(host, key.as_bytes(), WireType::U32.array_descriptor(), bytes.as_slice());
}

/// Writes a `u64` array to the input map.
pub fn write_comap_array_u64(host: &mut Host, key: &str, value_slice: &[u64])
    requires
        old(host).wf(),
        key.spec_bytes().len() < FRAME_LIMIT,
        value_slice@.len() * 8 < FRAME_LIMIT,
    ensures
        final(host).wf(),
        final(host)@ == written(
            old(host)@,
            MapSide::Input,
            key.spec_bytes(),
            WireType::U64.spec_array_descriptor(),
            encode_array(WireType::U64, ints_u64(value_slice@)),
        ),
{
    let bytes = encode_array_u64(value_slice);
    write_input_entry(host, key.as_bytes(), WireType::U64.array_descriptor(), bytes.as_slice());
}

/// Writes a `i8` array to the input map.
pub fn write_comap_array_i8(host: &mut Host, key: &str, value_slice: &[i8])
    requires
        old(host).wf(),
        key.spec_bytes().len() < FRAME_LIMIT,
        value_slice@.len() * 1 < FRAME_LIMIT,
    ensures
        final(host).wf(),
        final(host)@ == written(
            old(host)@,
            MapSide::Input,
            key.spec_bytes(),
            WireType::I8.spec_array_descriptor(),
            encode_array(WireType::I8, ints_i8(value_slice@)),
        ),
{
    let bytes = encode_array_i8(value_slice);
    write_input_entry(host, key.as_bytes(), WireType::I8.array_descriptor(), bytes.as_slice());
}

/// Writes a `i16` array to the input map.
pub fn write_comap_array_i16(host: &mut Host, key: &str, value_slice: &[i16])
    requires
        old(host).wf(),
        key.spec_bytes().len() < FRAME_LIMIT,
        value_slice@.len() * 2 < FRAME_LIMIT,
    ensures
        final(host).wf(),
        final(host)@ == written(
            old(host)@,
            MapSide::Input,
            key.spec_bytes(),
            WireType::I16.spec_array_descriptor(),
            encode_array(WireType::I16, ints_i16(value_slice@)),
        ),
{
    let bytes = encode_array_i16(value_slice);
    write_input_entry(host, key.as_bytes(), WireType::I16.array_descriptor(), bytes.as_slice());
}

/// Writes a `i32` array to the input map.
pub fn write_comap_array_i32(host: &mut Host, key: &str, value_slice: &[i32])
    requires
        old(host).wf(),
        key.spec_bytes().len() < FRAME_LIMIT,
        value_slice@.len() * 4 < FRAME_LIMIT,
    ensures
        final(host).wf(),
        final(host)@ == written(
            old(host)@,
            MapSide::Input,
            key.spec_bytes(),
            WireType::I32.spec_array_descriptor(),
            encode_array(WireType::I32, ints_i32(value_slice@)),
        ),
{
    let bytes = encode_array_i32(value_slice);
    write_input_entry(host, key.as_bytes(), WireType::I32.array_descriptor(), bytes.as_slice());
}

/// Writes a `i64` array to the input map.
pub fn write_comap_array_i64(host: &mut Host, key: &str, value_slice: &[i64])
    requires
        old(host).wf(),
        key.spec_bytes().len() < FRAME_LIMIT,
        value_slice@.len() * 8 < FRAME_LIMIT,
    ensures
        final(host).wf(),
        final(host)@ == written(
            old(host)@,
            MapSide::Input,
            key.spec_bytes(),
            WireType::I64.spec_array_descriptor(),
            encode_array(WireType::I64, ints_i64(value_slice@)),
        ),
{
    let bytes = encode_array_i64(value_slice);
    write_input_entry(host, key.as_bytes(), WireType::I64.array_descriptor(), bytes.as_slice());
}

/// Writes a `u8` value to the result map.
pub fn write_result_comap_u8(host: &mut Host, key: &str, value: u8)
    requires
        old(host).wf(),
        key.spec_bytes().len() < FRAME_LIMIT,
    ensures
        final(host).wf(),
        final(host)@ == written(
            old(host)@,
            MapSide::Result,
            key.spec_bytes(),
            WireType::U8.spec_descriptor(),
            encode(WireType::U8, value as int),
        ),
{
    let bytes = encode_u8(value);
    write_result_entry(host, key.as_bytes(), WireType::U8.descriptor(), bytes.as_slice());
}

/// Writes a `u16` value to the result map.
pub fn write_result_comap_u16(host: &mut Host, key: &str, value: u16)
    requires
        old(host).wf(),
        key.spec_bytes().len() < FRAME_LIMIT,
    ensures
        final(host).wf(),
        final(host)@ == written(
            old(host)@,
            MapSide::Result,
            key.spec_bytes(),
            WireType::U16.spec_descriptor(),
            encode(WireType::U16, value as int),
        ),
{
    let bytes = encode_u16(value);
    write_result_entry(host, key.as_bytes(), WireType::U16.descriptor(), bytes.as_slice());
}

/// Writes a `u32` value to the result map.
pub fn write_result_comap_u32(host: &mut Host, key: &str, value: u32)
    requires
        old(host).wf(),
        key.spec_bytes().len() < FRAME_LIMIT,
    ensures
        final(host).wf(),
        final(host)@ == written(
            old(host)@,
            MapSide::Result,
            key.spec_bytes(),
            WireType::U32.spec_descriptor(),
            encode(WireType::U32, value as int),
        ),
{
    let bytes = encode_u32(value);
    write_result_entry(host, key.as_bytes(), WireType::U32.descriptor(), bytes.as_slice());
}

/// Writes a `u64` value to the result map.
pub fn write_result_comap_u64(host: &mut Host, key: &str, value: u64)
    requires
        old(host).wf(),
        key.spec_bytes().len() < FRAME_LIMIT,
    ensures
        final(host).wf(),
        final(host)@ == written(
            old(host)@,
            MapSide::Result,
            key.spec_bytes(),
            WireType::U64.spec_descriptor(),
            encode(WireType::U64, value as int),
        ),
{
    let bytes = encode_u64(value);
    write_result_entry(host, key.as_bytes(), WireType::U64.descriptor(), bytes.as_slice());
}

/// Writes a `i8` value to the result map.
pub fn write_result_comap_i8(host: &mut Host, key: &str, value: i8)
    requires
        old(host).wf(),
        key.spec_bytes().len() < FRAME_LIMIT,
    ensures
        final(host).wf(),
        final(host)@ == written(
            old(host)@,
            MapSide::Result,
            key.spec_bytes(),
            WireType::I8.spec_descriptor(),
            encode(WireType::I8, value as int),
        ),
{
    let bytes = encode_i8(value);
    write_result_entry(host, key.as_bytes(), WireType::I8.descriptor(), bytes.as_slice());
}

/// Writes a `i16` value to the result map.
pub fn write_result_comap_i16(host: &mut Host, key: &str, value: i16)
    requires
        old(host).wf(),
        key.spec_bytes().len() < FRAME_LIMIT,
    ensures
        final(host).wf(),
        final(host)@ == written(
            old(host)@,
            MapSide::Result,
            key.spec_bytes(),
            WireType::I16.spec_descriptor(),
            encode(WireType::I16, value as int),
        ),
{
    let bytes = encode_i16(value);
    write_result_entry(host, key.as_bytes(), WireType::I16.descriptor(), bytes.as_slice());
}

/// Writes a `i32` value to the result map.
pub fn write_result_comap_i32(host: &mut Host, key: &str, value: i32)
    requires
        old(host).wf(),
        key.spec_bytes().len() < FRAME_LIMIT,
    ensures
        final(host).wf(),
        final(host)@ == written(
            old(host)@,
            MapSide::Result,
            key.spec_bytes(),
            WireType::I32.spec_descriptor(),
            encode(WireType::I32, value as int),
        ),
{
    let bytes = encode_i32(value);
    write_result_entry(host, key.as_bytes(), WireType::I32.descriptor(), bytes.as_slice());
}

/// Writes a `i64` value to the result map.
pub fn write_result_comap_i64(host: &mut Host, key: &str, value: i64)
    requires
        old(host).wf(),
        key.spec_bytes().len() < FRAME_LIMIT,
    ensures
        final(host).wf(),
        final(host)@ == written(
            old(host)@,
            MapSide::Result,
            key.spec_bytes(),
            WireType::I64.spec_descriptor(),
            encode(WireType::I64, value as int),
        ),
{
    let bytes = encode_i64(value);
    write_result_entry(host, key.as_bytes(), WireType::I64.descriptor(), bytes.as_slice());
}

/// Writes a `u8` array to the result map.
pub fn write_result_comap_array_u8(host: &mut Host, key: &str, value_slice: &[u8])
    requires
        old(host).wf(),
        key.spec_bytes().len() < FRAME_LIMIT,
        value_slice@.len() * 1 < FRAME_LIMIT,
    ensures
        final(host).wf(),
        final(host)@ == written(
            old(host)@,
            MapSide::Result,
            key.spec_bytes(),
            WireType::U8.spec_array_descriptor(),
            encode_array(WireType::U8, ints_u8(value_slice@)),
        ),
{
    let bytes = encode_array_u8(value_slice);
    write_result_entry(host, key.as_bytes(), WireType::U8.array_descriptor(), bytes.as_slice());
}

/// Writes a `u16` array to the result map.
pub fn write_result_comap_array_u16(host: &mut Host, key: &str, value_slice: &[u16])
    requires
        old(host).wf(),
        key.spec_bytes().len() < FRAME_LIMIT,
        value_slice@.len() * 2 < FRAME_LIMIT,
    ensures
        final(host).wf(),
        final(host)@ == written(
            old(host)@,
            MapSide::Result,
            key.spec_bytes(),
            WireType::U16.spec_array_descriptor(),
            encode_array(WireType::U16, ints_u16(value_slice@)),
        ),
{
    let bytes = encode_array_u16(value_slice);
    write_result_entry(host, key.as_bytes(), WireType::U16.array_descriptor(), bytes.as_slice());
}

/// Writes a `u32` array to the result map.
pub fn write_result_comap_array_u32(host: &mut Host, key: &str, value_slice: &[u32])
    requires
        old(host).wf(),
        key.spec_bytes().len() < FRAME_LIMIT,
        value_slice@.len() * 4 < FRAME_LIMIT,
    ensures
        final(host).wf(),
        final(host)@ == written(
            old(host)@,
            MapSide::Result,
            key.spec_bytes(),
            WireType::U32.spec_array_descriptor(),
            encode_array(WireType::U32, ints_u32(value_slice@)),
        ),
{
    let bytes = encode_array_u32(value_slice);
    write_result_entry(host, key.as_bytes(), WireType::U32.array_descriptor(), bytes.as_slice());
}

/// Writes a `u64` array to the result map.
pub fn write_result_comap_array_u64(host: &mut Host, key: &str, value_slice: &[u64])
    requires
        old(host).wf(),
        key.spec_bytes().len() < FRAME_LIMIT,
        value_slice@.len() * 8 < FRAME_LIMIT,
    ensures
        final(host).wf(),
        final(host)@ == written(
            old(host)@,
            MapSide::Result,
            key.spec_bytes(),
            WireType::U64.spec_array_descriptor(),
            encode_array(WireType::U64, ints_u64(value_slice@)),
        ),
{
    let bytes = encode_array_u64(value_slice);
    write_result_entry(host, key.as_bytes(), WireType::U64.array_descriptor(), bytes.as_slice());
}

/// Writes a `i8` array to the result map.
pub fn write_result_comap_array_i8(host: &mut Host, key: &str, value_slice: &[i8])
    requires
        old(host).wf(),
        key.spec_bytes().len() < FRAME_LIMIT,
        value_slice@.len() * 1 < FRAME_LIMIT,
    ensures
        final(host).wf(),
        final(host)@ == written(
            old(host)@,
            MapSide::Result,
            key.spec_bytes(),
            WireType::I8.spec_array_descriptor(),
            encode_array(WireType::I8, ints_i8(value_slice@)),
        ),
{
    let bytes = encode_array_i8(value_slice);
    write_result_entry(host, key.as_bytes(), WireType::I8.array_descriptor(), bytes.as_slice());
}

/// Writes a `i16` array to the result map.
pub fn write_result_comap_array_i16(host: &mut Host, key: &str, value_slice: &[i16])
    requires
        old(host).wf(),
        key.spec_bytes().len() < FRAME_LIMIT,
        value_slice@.len() * 2 < FRAME_LIMIT,
    ensures
        final(host).wf(),
        final(host)@ == written(
            old(host)@,
            MapSide::Result,
            key.spec_bytes(),
            WireType::I16.spec_array_descriptor(),
            encode_array(WireType::I16, ints_i16(value_slice@)),
        ),
{
    let bytes = encode_array_i16(value_slice);
    write_result_entry(host, key.as_bytes(), WireType::I16.array_descriptor(), bytes.as_slice());
}

/// Writes a `i32` array to the result map.
pub fn write_result_comap_array_i32(host: &mut Host, key: &str, value_slice: &[i32])
    requires
        old(host).wf(),
        key.spec_bytes().len() < FRAME_LIMIT,
        value_slice@.len() * 4 < FRAME_LIMIT,
    ensures
        final(host).wf(),
        final(host)@ == written(
            old(host)@,
            MapSide::Result,
            key.spec_bytes(),
            WireType::I32.spec_array_descriptor(),
            encode_array(WireType::I32, ints_i32(value_slice@)),
        ),
{
    let bytes = encode_array_i32(value_slice);
    write_result_entry(host, key.as_bytes(), WireType::I32.array_descriptor(), bytes.as_slice());
}

/// Writes a `i64` array to the result map.
pub fn write_result_comap_array_i64(host: &mut Host, key: &str, value_slice: &[i64])
    requires
        old(host).wf(),
        key.spec_bytes().len() < FRAME_LIMIT,
        value_slice@.len() * 8 < FRAME_LIMIT,
    ensures
        final(host).wf(),
        final(host)@ == written(
            old(host)@,
            MapSide::Result,
            key.spec_bytes(),
            WireType::I64.spec_array_descriptor(),
            encode_array(WireType::I64, ints_i64(value_slice@)),
        ),
{
    let bytes = encode_array_i64(value_slice);
    write_result_entry(host, key.as_bytes(), WireType::I64.array_descriptor(), bytes.as_slice());
}

/// Reads a `u8` value from the input map.
pub fn read_comap_u8(host: &mut Host, key: &str) -> (r: Result<u8, RecoverableError>)
    requires
        old(host).wf(),
        key.spec_bytes().len() < FRAME_LIMIT,
    ensures
        final(host).wf(),
        final(host)@ == old(host)@,
        (match r {
            Ok(v) => read_scalar_outcome(
                old(host)@,
                MapSide::Input,
                key.spec_bytes(),
                WireType::U8,
            ) == Ok::<int, RecoverableError>(v as int),
            Err(e) => read_scalar_outcome(
                old(host)@,
                MapSide::Input,
                key.spec_bytes(),
                WireType::U8,
            ) == Err::<int, RecoverableError>(e),
        }),
{
    let expected = WireType::U8.descriptor();
    match read_entry(host, MapSide::Input, key.as_bytes(), expected, 1) {
        Ok(bytes) => Ok(decode_u8(bytes.as_slice())),
        Err(e) => Err(e),
    }
}

/// Reads a `u16` value from the input map.
pub fn read_comap_u16(host: &mut Host, key: &str) -> (r: Result<u16, RecoverableError>)
    requires
        old(host).wf(),
        key.spec_bytes().len() < FRAME_LIMIT,
    ensures
        final(host).wf(),
        final(host)@ == old(host)@,
        (match r {
            Ok(v) => read_scalar_outcome(
                old(host)@,
                MapSide::Input,
                key.spec_bytes(),
                WireType::U16,
            ) == Ok::<int, RecoverableError>(v as int),
            Err(e) => read_scalar_outcome(
                old(host)@,
                MapSide::Input,
                key.spec_bytes(),
                WireType::U16,
            ) == Err::<int, RecoverableError>(e),
        }),
{
    let expected = WireType::U16.descriptor();
    match read_entry(host, MapSide::Input, key.as_bytes(), expected, 2) {
        Ok(bytes) => Ok(decode_u16(bytes.as_slice())),
        Err(e) => Err(e),
    }
}

/// Reads a `u32` value from the input map.
pub fn read_comap_u32(host: &mut Host, key: &str) -> (r: Result<u32, RecoverableError>)
    requires
        old(host).wf(),
        key.spec_bytes().len() < FRAME_LIMIT,
    ensures
        final(host).wf(),
        final(host)@ == old(host)@,
        (match r {
            Ok(v) => read_scalar_outcome(
                old(host)@,
                MapSide::Input,
                key.spec_bytes(),
                WireType::U32,
            ) == Ok::<int, RecoverableError>(v as int),
            Err(e) => read_scalar_outcome(
                old(host)@,
                MapSide::Input,
                key.spec_bytes(),
                WireType::U32,
            ) == Err::<int, RecoverableError>(e),
        }),
{
    let expected = WireType::U32.descriptor();
    match read_entry(host, MapSide::Input, key.as_bytes(), expected, 4) {
        Ok(bytes) => Ok(decode_u32(bytes.as_slice())),
        Err(e) => Err(e),
    }
}

/// Reads a `u64` value from the input map.
pub fn read_comap_u64(host: &mut Host, key: &str) -> (r: Result<u64, RecoverableError>)
    requires
        old(host).wf(),
        key.spec_bytes().len() < FRAME_LIMIT,
    ensures
        final(host).wf(),
        final(host)@ == old(host)@,
        (match r {
            Ok(v) => read_scalar_outcome(
                old(host)@,
                MapSide::Input,
                key.spec_bytes(),
                WireType::U64,
            ) == Ok::<int, RecoverableError>(v as int),
            Err(e) => read_scalar_outcome(
                old(host)@,
                MapSide::Input,
                key.spec_bytes(),
                WireType::U64,
            ) == Err::<int, RecoverableError>(e),
        }),
{
    let expected = WireType::U64.descriptor();
    match read_entry(host, MapSide::Input, key.as_bytes(), expected, 8) {
        Ok(bytes) => Ok(decode_u64(bytes.as_slice())),
        Err(e) => Err(e),
    }
}

/// Reads a `i8` value from the input map.
pub fn read_comap_i8(host: &mut Host, key: &str) -> (r: Result<i8, RecoverableError>)
    requires
        old(host).wf(),
        key.spec_bytes().len() < FRAME_LIMIT,
    ensures
        final(host).wf(),
        final(host)@ == old(host)@,
        (match r {
            Ok(v) => read_scalar_outcome(
                old(host)@,
                MapSide::Input,
                key.spec_bytes(),
                WireType::I8,
            ) == Ok::<int, RecoverableError>(v as int),
            Err(e) => read_scalar_outcome(
                old(host)@,
                MapSide::Input,
                key.spec_bytes(),
                WireType::I8,
            ) == Err::<int, RecoverableError>(e),
        }),
{
    let expected = WireType::I8.descriptor();
    match read_entry(host, MapSide::Input, key.as_bytes(), expected, 1) {
        Ok(bytes) => Ok(decode_i8(bytes.as_slice())),
        Err(e) => Err(e),
    }
}

/// Reads a `i16` value from the input map.
pub fn read_comap_i16(host: &mut Host, key: &str) -> (r: Result<i16, RecoverableError>)
    requires
        old(host).wf(),
        key.spec_bytes().len() < FRAME_LIMIT,
    ensures
        final(host).wf(),
        final(host)@ == old(host)@,
        (match r {
            Ok(v) => read_scalar_outcome(
                old(host)@,
                MapSide::Input,
                key.spec_bytes(),
                WireType::I16,
            ) == Ok::<int, RecoverableError>(v as int),
            Err(e) => read_scalar_outcome(
                old(host)@,
                MapSide::Input,
                key.spec_bytes(),
                WireType::I16,
            ) == Err::<int, RecoverableError>(e),
        }),
{
    let expected = WireType::I16.descriptor();
    match read_entry(host, MapSide::Input, key.as_bytes(), expected, 2) {
        Ok(bytes) => Ok(decode_i16(bytes.as_slice())),
        Err(e) => Err(e),
    }
}

/// Reads a `i32` value from the input map.
pub fn read_comap_i32(host: &mut Host, key: &str) -> (r: Result<i32, RecoverableError>)
    requires
        old(host).wf(),
        key.spec_bytes().len() < FRAME_LIMIT,
    ensures
        final(host).wf(),
        final(host)@ == old(host)@,
        (match r {
            Ok(v) => read_scalar_outcome(
                old(host)@,
                MapSide::Input,
                key.spec_bytes(),
                WireType::I32,
            ) == Ok::<int, RecoverableError>(v as int),
            Err(e) => read_scalar_outcome(
                old(host)@,
                MapSide::Input,
                key.spec_bytes(),
                WireType::I32,
            ) == Err::<int, RecoverableError>(e),
        }),
{
    let expected = WireType::I32.descriptor();
    match read_entry(host, MapSide::Input, key.as_bytes(), expected, 4) {
        Ok(bytes) => Ok(decode_i32(bytes.as_slice())),
        Err(e) => Err(e),
    }
}

/// Reads a `i64` value from the input map.
pub fn read_comap_i64(host: &mut Host, key: &str) -> (r: Result<i64, RecoverableError>)
    requires
        old(host).wf(),
        key.spec_bytes().len() < FRAME_LIMIT,
    ensures
        final(host).wf(),
        final(host)@ == old(host)@,
        (match r {
            Ok(v) => read_scalar_outcome(
                old(host)@,
                MapSide::Input,
                key.spec_bytes(),
                WireType::I64,
            ) == Ok::<int, RecoverableError>(v as int),
            Err(e) => read_scalar_outcome(
                old(host)@,
                MapSide::Input,
                key.spec_bytes(),
                WireType::I64,
            ) == Err::<int, RecoverableError>(e),
        }),
{
    let expected = WireType::I64.descriptor();
    match read_entry(host, MapSide::Input, key.as_bytes(), expected, 8) {
        Ok(bytes) => Ok(decode_i64(bytes.as_slice())),
        Err(e) => Err(e),
    }
}

/// Reads a `u8` value from the result map.
pub fn read_result_comap_u8(host: &mut Host, key: &str) -> (r: Result<u8, RecoverableError>)
    requires
        old(host).wf(),
        key.spec_bytes().len() < FRAME_LIMIT,
    ensures
        final(host).wf(),
        final(host)@ == old(host)@,
        (match r {
            Ok(v) => read_scalar_outcome(
                old(host)@,
                MapSide::Result,
                key.spec_bytes(),
                WireType::U8,
            ) == Ok::<int, RecoverableError>(v as int),
            Err(e) => read_scalar_outcome(
                old(host)@,
                MapSide::Result,
                key.spec_bytes(),
                WireType::U8,
            ) == Err::<int, RecoverableError>(e),
        }),
{
    let expected = WireType::U8.descriptor();
    match read_entry(host, MapSide::Result, key.as_bytes(), expected, 1) {
        Ok(bytes) => Ok(decode_u8(bytes.as_slice())),
        Err(e) => Err(e),
    }
}

/// Reads a `u16` value from the result map.
pub fn read_result_comap_u16(host: &mut Host, key: &str) -> (r: Result<u16, RecoverableError>)
    requires
        old(host).wf(),
        key.spec_bytes().len() < FRAME_LIMIT,
    ensures
        final(host).wf(),
        final(host)@ == old(host)@,
        (match r {
            Ok(v) => read_scalar_outcome(
                old(host)@,
                MapSide::Result,
                key.spec_bytes(),
                WireType::U16,
            ) == Ok::<int, RecoverableError>(v as int),
            Err(e) => read_scalar_outcome(
                old(host)@,
                MapSide::Result,
                key.spec_bytes(),
                WireType::U16,
            ) == Err::<int, RecoverableError>(e),
        }),
{
    let expected = WireType::U16.descriptor();
    match read_entry(host, MapSide::Result, key.as_bytes(), expected, 2) {
        Ok(bytes) => Ok(decode_u16(bytes.as_slice())),
        Err(e) => Err(e),
    }
}

/// Reads a `u32` value from the result map.
pub fn read_result_comap_u32(host: &mut Host, key: &str) -> (r: Result<u32, RecoverableError>)
    requires
        old(host).wf(),
        key.spec_bytes().len() < FRAME_LIMIT,
    ensures
        final(host).wf(),
        final(host)@ == old(host)@,
        (match r {
            Ok(v) => read_scalar_outcome(
                old(host)@,
                MapSide::Result,
                key.spec_bytes(),
                WireType::U32,
            ) == Ok::<int, RecoverableError>(v as int),
            Err(e) => read_scalar_outcome(
                old(host)@,
                MapSide::Result,
                key.spec_bytes(),
                WireType::U32,
            ) == Err::<int, RecoverableError>(e),
        }),
{
    let expected = WireType::U32.descriptor();
    match read_entry(host, MapSide::Result, key.as_bytes(), expected, 4) {
        Ok(bytes) => Ok(decode_u32(bytes.as_slice())),
        Err(e) => Err(e),
    }
}

/// Reads a `u64` value from the result map.
pub fn read_result_comap_u64(host: &mut Host, key: &str) -> (r: Result<u64, RecoverableError>)
    requires
        old(host).wf(),
        key.spec_bytes().len() < FRAME_LIMIT,
    ensures
        final(host).wf(),
        final(host)@ == old(host)@,
        (match r {
            Ok(v) => read_scalar_outcome(
                old(host)@,
                MapSide::Result,
                key.spec_bytes(),
                WireType::U64,
            ) == Ok::<int, RecoverableError>(v as int),
            Err(e) => read_scalar_outcome(
                old(host)@,
                MapSide::Result,
                key.spec_bytes(),
                WireType::U64,
            ) == Err::<int, RecoverableError>(e),
        }),
{
    let expected = WireType::U64.descriptor();
    match read_entry(host, MapSide::Result, key.as_bytes(), expected, 8) {
        Ok(bytes) => Ok(decode_u64(bytes.as_slice())),
        Err(e) => Err(e),
    }
}

/// Reads a `i8` value from the result map.
pub fn read_result_comap_i8(host: &mut Host, key: &str) -> (r: Result<i8, RecoverableError>)
    requires
        old(host).wf(),
        key.spec_bytes().len() < FRAME_LIMIT,
    ensures
        final(host).wf(),
        final(host)@ == old(host)@,
        (match r {
            Ok(v) => read_scalar_outcome(
                old(host)@,
                MapSide::Result,
                key.spec_bytes(),
                WireType::I8,
            ) == Ok::<int, RecoverableError>(v as int),
            Err(e) => read_scalar_outcome(
                old(host)@,
                MapSide::Result,
                key.spec_bytes(),
                WireType::I8,
            ) == Err::<int, RecoverableError>(e),
        }),
{
    let expected = WireType::I8.descriptor();
    match read_entry(host, MapSide::Result, key.as_bytes(), expected, 1) {
        Ok(bytes) => Ok(decode_i8(bytes.as_slice())),
        Err(e) => Err(e),
    }
}

/// Reads a `i16` value from the result map.
pub fn read_result_comap_i16(host: &mut Host, key: &str) -> (r: Result<i16, RecoverableError>)
    requires
        old(host).wf(),
        key.spec_bytes().len() < FRAME_LIMIT,
    ensures
        final(host).wf(),
        final(host)@ == old(host)@,
        (match r {
            Ok(v) => read_scalar_outcome(
                old(host)@,
                MapSide::Result,
                key.spec_bytes(),
                WireType::I16,
            ) == Ok::<int, RecoverableError>(v as int),
            Err(e) => read_scalar_outcome(
                old(host)@,
                MapSide::Result,
                key.spec_bytes(),
                WireType::I16,
            ) == Err::<int, RecoverableError>(e),
        }),
{
    let expected = WireType::I16.descriptor();
    match read_entry(host, MapSide::Result, key.as_bytes(), expected, 2) {
        Ok(bytes) => Ok(decode_i16(bytes.as_slice())),
        Err(e) => Err(e),
    }
}

/// Reads a `i32` value from the result map.
pub fn read_result_comap_i32(host: &mut Host, key: &str) -> (r: Result<i32, RecoverableError>)
    requires
        old(host).wf(),
        key.spec_bytes().len() < FRAME_LIMIT,
    ensures
        final(host).wf(),
        final(host)@ == old(host)@,
        (match r {
            Ok(v) => read_scalar_outcome(
                old(host)@,
                MapSide::Result,
                key.spec_bytes(),
                WireType::I32,
            ) == Ok::<int, RecoverableError>(v as int),
            Err(e) => read_scalar_outcome(
                old(host)@,
                MapSide::Result,
                key.spec_bytes(),
                WireType::I32,
            ) == Err::<int, RecoverableError>(e),
        }),
{
    let expected = WireType::I32.descriptor();
    match read_entry(host, MapSide::Result, key.as_bytes(), expected, 4) {
        Ok(bytes) => Ok(decode_i32(bytes.as_slice())),
        Err(e) => Err(e),
    }
}

/// Reads a `i64` value from the result map.
pub fn read_result_comap_i64(host: &mut Host, key: &str) -> (r: Result<i64, RecoverableError>)
    requires
        old(host).wf(),
        key.spec_bytes().len() < FRAME_LIMIT,
    ensures
        final(host).wf(),
        final(host)@ == old(host)@,
        (match r {
            Ok(v) => read_scalar_outcome(
                old(host)@,
                MapSide::Result,
                key.spec_bytes(),
                WireType::I64,
            ) == Ok::<int, RecoverableError>(v as int),
            Err(e) => read_scalar_outcome(
                old(host)@,
                MapSide::Result,
                key.spec_bytes(),
                WireType::I64,
            ) == Err::<int, RecoverableError>(e),
        }),
{
    let expected = WireType::I64.descriptor();
    match read_entry(host, MapSide::Result, key.as_bytes(), expected, 8) {
        Ok(bytes) => Ok(decode_i64(bytes.as_slice())),
        Err(e) => Err(e),
    }
}

/// Reads a `u8` array that fills `return_slice` exactly from the input
/// map.
pub fn read_comap_fixed_array_u8(
    host: &mut Host,
    key: &str,
    return_slice: &mut [u8],
) -> (r: Result<(), RecoverableError>)
    requires
        old(host).wf(),
        key.spec_bytes().len() < FRAME_LIMIT,
        old(return_slice)@.len() * 1 <= usize::MAX,
    ensures
        final(host).wf(),
        final(host)@ == old(host)@,
        final(return_slice)@.len() == old(return_slice)@.len(),
        (match r {
            Ok(_) => read_array_outcome(
                old(host)@,
                MapSide::Input,
                key.spec_bytes(),
                WireType::U8,
                old(return_slice)@.len(),
            ) == Ok::<Seq<int>, RecoverableError>(ints_u8(final(return_slice)@)),
            Err(e) => read_array_outcome(
                old(host)@,
                MapSide::Input,
                key.spec_bytes(),
                WireType::U8,
                old(return_slice)@.len(),
            ) == Err::<Seq<int>, RecoverableError>(e) && final(return_slice)@ == old(
                return_slice,
            )@,
        }),
{
    let size: usize = return_slice.len() * 1;
    let expected = WireType::U8.array_descriptor();
    match read_entry(host, MapSide::Input, key.as_bytes(), expected, size) {
        Ok(bytes) => {
            decode_array_u8(bytes.as_slice(), return_slice);
            Ok(())
        },
        Err(e) => Err(e),
    }
}

/// Reads a `u16` array that fills `return_slice` exactly from the input
/// map.
pub fn read_comap_fixed_array_u16(
    host: &mut Host,
    key: &str,
    return_slice: &mut [u16],
) -> (r: Result<(), RecoverableError>)
    requires
        old(host).wf(),
        key.spec_bytes().len() < FRAME_LIMIT,
        old(return_slice)@.len() * 2 <= usize::MAX,
    ensures
        final(host).wf(),
        final(host)@ == old(host)@,
        final(return_slice)@.len() == old(return_slice)@.len(),
        (match r {
            Ok(_) => read_array_outcome(
                old(host)@,
                MapSide::Input,
                key.spec_bytes(),
                WireType::U16,
                old(return_slice)@.len(),
            ) == Ok::<Seq<int>, RecoverableError>(ints_u16(final(return_slice)@)),
            Err(e) => read_array_outcome(
                old(host)@,
                MapSide::Input,
                key.spec_bytes(),
                WireType::U16,
                old(return_slice)@.len(),
            ) == Err::<Seq<int>, RecoverableError>(e) && final(return_slice)@ == old(
                return_slice,
            )@,
        }),
{
    let size: usize = return_slice.len() * 2;
    let expected = WireType::U16.array_descriptor();
    match read_entry(host, MapSide::Input, key.as_bytes(), expected, size) {
        Ok(bytes) => {
            decode_array_u16(bytes.as_slice(), return_slice);
            Ok(())
        },
        Err(e) => Err(e),
    }
}

/// Reads a `u32` array that fills `return_slice` exactly from the input
/// map.
pub fn read_comap_fixed_array_u32(
    host: &mut Host,
    key: &str,
    return_slice: &mut [u32],
) -> (r: Result<(), RecoverableError>)
    requires
        old(host).wf(),
        key.spec_bytes().len() < FRAME_LIMIT,
        old(return_slice)@.len() * 4 <= usize::MAX,
    ensures
        final(host).wf(),
        final(host)@ == old(host)@,
        final(return_slice)@.len() == old(return_slice)@.len(),
        (match r {
            Ok(_) => read_array_outcome(
                old(host)@,
                MapSide::Input,
                key.spec_bytes(),
                WireType::U32,
                old(return_slice)@.len(),
            ) == Ok::<Seq<int>, RecoverableError>(ints_u32(final(return_slice)@)),
            Err(e) => read_array_outcome(
                old(host)@,
                MapSide::Input,
                key.spec_bytes(),
                WireType::U32,
                old(return_slice)@.len(),
            ) == Err::<Seq<int>, RecoverableError>(e) && final(return_slice)@ == old(
                return_slice,
            )@,
        }),
{
    let size: usize = return_slice.len() * 4;
    let expected = WireType::U32.array_descriptor();
    match read_entry(host, MapSide::Input, key.as_bytes(), expected, size) {
        Ok(bytes) => {
            decode_array_u32(bytes.as_slice(), return_slice);
            Ok(())
        },
        Err(e) => Err(e),
    }
}

/// Reads a `u64` array that fills `return_slice` exactly from the input
/// map.
pub fn read_comap_fixed_array_u64(
    host: &mut Host,
    key: &str,
    return_slice: &mut [u64],
) -> (r: Result<(), RecoverableError>)
    requires
        old(host).wf(),
        key.spec_bytes().len() < FRAME_LIMIT,
        old(return_slice)@.len() * 8 <= usize::MAX,
    ensures
        final(host).wf(),
        final(host)@ == old(host)@,
        final(return_slice)@.len() == old(return_slice)@.len(),
        (match r {
            Ok(_) => read_array_outcome(
                old(host)@,
                MapSide::Input,
                key.spec_bytes(),
                WireType::U64,
                old(return_slice)@.len(),
            ) == Ok::<Seq<int>, RecoverableError>(ints_u64(final(return_slice)@)),
            Err(e) => read_array_outcome(
                old(host)@,
                MapSide::Input,
                key.spec_bytes(),
                WireType::U64,
                old(return_slice)@.len(),
            ) == Err::<Seq<int>, RecoverableError>(e) && final(return_slice)@ == old(
                return_slice,
            )@,
        }),
{
    let size: usize = return_slice.len() * 8;
    let expected = WireType::U64.array_descriptor();
    match read_entry(host, MapSide::Input, key.as_bytes(), expected, size) {
        Ok(bytes) => {
            decode_array_u64(bytes.as_slice(), return_slice);
            Ok(())
        },
        Err(e) => Err(e),
    }
}

/// Reads a `i8` array that fills `return_slice` exactly from the input
/// map.
pub fn read_comap_fixed_array_i8(
    host: &mut Host,
    key: &str,
    return_slice: &mut [i8],
) -> (r: Result<(), RecoverableError>)
    requires
        old(host).wf(),
        key.spec_bytes().len() < FRAME_LIMIT,
        old(return_slice)@.len() * 1 <= usize::MAX,
    ensures
        final(host).wf(),
        final(host)@ == old(host)@,
        final(return_slice)@.len() == old(return_slice)@.len(),
        (match r {
            Ok(_) => read_array_outcome(
                old(host)@,
                MapSide::Input,
                key.spec_bytes(),
                WireType::I8,
                old(return_slice)@.len(),
            ) == Ok::<Seq<int>, RecoverableError>(ints_i8(final(return_slice)@)),
            Err(e) => read_array_outcome(
                old(host)@,
                MapSide::Input,
                key.spec_bytes(),
                WireType::I8,
                old(return_slice)@.len(),
            ) == Err::<Seq<int>, RecoverableError>(e) && final(return_slice)@ == old(
                return_slice,
            )@,
        }),
{
    let size: usize = return_slice.len() * 1;
    let expected = WireType::I8.array_descriptor();
    match read_entry(host, MapSide::Input, key.as_bytes(), expected, size) {
        Ok(bytes) => {
            decode_array_i8(bytes.as_slice(), return_slice);
            Ok(())
        },
        Err(e) => Err(e),
    }
}

/// Reads a `i16` array that fills `return_slice` exactly from the input
/// map.
pub fn read_comap_fixed_array_i16(
    host: &mut Host,
    key: &str,
    return_slice: &mut [i16],
) -> (r: Result<(), RecoverableError>)
    requires
        old(host).wf(),
        key.spec_bytes().len() < FRAME_LIMIT,
        old(return_slice)@.len() * 2 <= usize::MAX,
    ensures
        final(host).wf(),
        final(host)@ == old(host)@,
        final(return_slice)@.len() == old(return_slice)@.len(),
        (match r {
            Ok(_) => read_array_outcome(
                old(host)@,
                MapSide::Input,
                key.spec_bytes(),
                WireType::I16,
                old(return_slice)@.len(),
            ) == Ok::<Seq<int>, RecoverableError>(ints_i16(final(return_slice)@)),
            Err(e) => read_array_outcome(
                old(host)@,
                MapSide::Input,
                key.spec_bytes(),
                WireType::I16,
                old(return_slice)@.len(),
            ) == Err::<Seq<int>, RecoverableError>(e) && final(return_slice)@ == old(
                return_slice,
            )@,
        }),
{
    let size: usize = return_slice.len() * 2;
    let expected = WireType::I16.array_descriptor();
    match read_entry(host, MapSide::Input, key.as_bytes(), expected, size) {
        Ok(bytes) => {
            decode_array_i16(bytes.as_slice(), return_slice);
            Ok(())
        },
        Err(e) => Err(e),
    }
}

/// Reads a `i32` array that fills `return_slice` exactly from the input
/// map.
pub fn read_comap_fixed_array_i32(
    host: &mut Host,
    key: &str,
    return_slice: &mut [i32],
) -> (r: Result<(), RecoverableError>)
    requires
        old(host).wf(),
        key.spec_bytes().len() < FRAME_LIMIT,
        old(return_slice)@.len() * 4 <= usize::MAX,
    ensures
        final(host).wf(),
        final(host)@ == old(host)@,
        final(return_slice)@.len() == old(return_slice)@.len(),
        (match r {
            Ok(_) => read_array_outcome(
                old(host)@,
                MapSide::Input,
                key.spec_bytes(),
                WireType::I32,
                old(return_slice)@.len(),
            ) == Ok::<Seq<int>, RecoverableError>(ints_i32(final(return_slice)@)),
            Err(e) => read_array_outcome(
                old(host)@,
                MapSide::Input,
                key.spec_bytes(),
                WireType::I32,
                old(return_slice)@.len(),
            ) == Err::<Seq<int>, RecoverableError>(e) && final(return_slice)@ == old(
                return_slice,
            )@,
        }),
{
    let size: usize = return_slice.len() * 4;
    let expected = WireType::I32.array_descriptor();
    match read_entry(host, MapSide::Input, key.as_bytes(), expected, size) {
        Ok(bytes) => {
            decode_array_i32(bytes.as_slice(), return_slice);
            Ok(())
        },
        Err(e) => Err(e),
    }
}

/// Reads a `i64` array that fills `return_slice` exactly from the input
/// map.
pub fn read_comap_fixed_array_i64(
    host: &mut Host,
    key: &str,
    return_slice: &mut [i64],
) -> (r: Result<(), RecoverableError>)
    requires
        old(host).wf(),
        key.spec_bytes().len() < FRAME_LIMIT,
        old(return_slice)@.len() * 8 <= usize::MAX,
    ensures
        final(host).wf(),
        final(host)@ == old(host)@,
        final(return_slice)@.len() == old(return_slice)@.len(),
        (match r {
            Ok(_) => read_array_outcome(
                old(host)@,
                MapSide::Input,
                key.spec_bytes(),
                WireType::I64,
                old(return_slice)@.len(),
            ) == Ok::<Seq<int>, RecoverableError>(ints_i64(final(return_slice)@)),
            Err(e) => read_array_outcome(
                old(host)@,
                MapSide::Input,
                key.spec_bytes(),
                WireType::I64,
                old(return_slice)@.len(),
            ) == Err::<Seq<int>, RecoverableError>(e) && final(return_slice)@ == old(
                return_slice,
            )@,
        }),
{
    let size: usize = return_slice.len() * 8;
    let expected = WireType::I64.array_descriptor();
    match read_entry(host, MapSide::Input, key.as_bytes(), expected, size) {
        Ok(bytes) => {
            decode_array_i64(bytes.as_slice(), return_slice);
            Ok(())
        },
        Err(e) => Err(e),
    }
}

/// Reads a `u8` array that fills `return_slice` exactly from the result
/// map.
pub fn read_result_comap_fixed_array_u8(
    host: &mut Host,
    key: &str,
    return_slice: &mut [u8],
) -> (r: Result<(), RecoverableError>)
    requires
        old(host).wf(),
        key.spec_bytes().len() < FRAME_LIMIT,
        old(return_slice)@.len() * 1 <= usize::MAX,
    ensures
        final(host).wf(),
        final(host)@ == old(host)@,
        final(return_slice)@.len() == old(return_slice)@.len(),
        (match r {
            Ok(_) => read_array_outcome(
                old(host)@,
                MapSide::Result,
                key.spec_bytes(),
                WireType::U8,
                old(return_slice)@.len(),
            ) == Ok::<Seq<int>, RecoverableError>(ints_u8(final(return_slice)@)),
            Err(e) => read_array_outcome(
                old(host)@,
                MapSide::Result,
                key.spec_bytes(),
                WireType::U8,
                old(return_slice)@.len(),
            ) == Err::<Seq<int>, RecoverableError>(e) && final(return_slice)@ == old(
                return_slice,
            )@,
        }),
{
    let size: usize = return_slice.len() * 1;
    let expected = WireType::U8.array_descriptor();
    match read_entry(host, MapSide::Result, key.as_bytes(), expected, size) {
        Ok(bytes) => {
            decode_array_u8(bytes.as_slice(), return_slice);
            Ok(())
        },
        Err(e) => Err(e),
    }
}

/// Reads a `u16` array that fills `return_slice` exactly from the result
/// map.
pub fn read_result_comap_fixed_array_u16(
    host: &mut Host,
    key: &str,
    return_slice: &mut [u16],
) -> (r: Result<(), RecoverableError>)
    requires
        old(host).wf(),
        key.spec_bytes().len() < FRAME_LIMIT,
        old(return_slice)@.len() * 2 <= usize::MAX,
    ensures
        final(host).wf(),
        final(host)@ == old(host)@,
        final(return_slice)@.len() == old(return_slice)@.len(),
        (match r {
            Ok(_) => read_array_outcome(
                old(host)@,
                MapSide::Result,
                key.spec_bytes(),
                WireType::U16,
                old(return_slice)@.len(),
            ) == Ok::<Seq<int>, RecoverableError>(ints_u16(final(return_slice)@)),
            Err(e) => read_array_outcome(
                old(host)@,
                MapSide::Result,
                key.spec_bytes(),
                WireType::U16,
                old(return_slice)@.len(),
            ) == Err::<Seq<int>, RecoverableError>(e) && final(return_slice)@ == old(
                return_slice,
            )@,
        }),
{
    let size: usize = return_slice.len() * 2;
    let expected = WireType::U16.array_descriptor();
    match read_entry(host, MapSide::Result, key.as_bytes(), expected, size) {
        Ok(bytes) => {
            decode_array_u16(bytes.as_slice(), return_slice);
            Ok(())
        },
        Err(e) => Err(e),
    }
}

/// Reads a `u32` array that fills `return_slice` exactly from the result
/// map.
pub fn read_result_comap_fixed_array_u32(
    host: &mut Host,
    key: &str,
    return_slice: &mut [u32],
) -> (r: Result<(), RecoverableError>)
    requires
        old(host).wf(),
        key.spec_bytes().len() < FRAME_LIMIT,
        old(return_slice)@.len() * 4 <= usize::MAX,
    ensures
        final(host).wf(),
        final(host)@ == old(host)@,
        final(return_slice)@.len() == old(return_slice)@.len(),
        (match r {
            Ok(_) => read_array_outcome(
                old(host)@,
                MapSide::Result,
                key.spec_bytes(),
                WireType::U32,
                old(return_slice)@.len(),
            ) == Ok::<Seq<int>, RecoverableError>(ints_u32(final(return_slice)@)),
            Err(e) => read_array_outcome(
                old(host)@,
                MapSide::Result,
                key.spec_bytes(),
                WireType::U32,
                old(return_slice)@.len(),
            ) == Err::<Seq<int>, RecoverableError>(e) && final(return_slice)@ == old(
                return_slice,
            )@,
        }),
{
    let size: usize = return_slice.len() * 4;
    let expected = WireType::U32.array_descriptor();
    match read_entry(host, MapSide::Result, key.as_bytes(), expected, size) {
        Ok(bytes) => {
            decode_array_u32(bytes.as_slice(), return_slice);
            Ok(())
        },
        Err(e) => Err(e),
    }
}

/// Reads a `u64` array that fills `return_slice` exactly from the result
/// map.
pub fn read_result_comap_fixed_array_u64(
    host: &mut Host,
    key: &str,
    return_slice: &mut [u64],
) -> (r: Result<(), RecoverableError>)
    requires
        old(host).wf(),
        key.spec_bytes().len() < FRAME_LIMIT,
        old(return_slice)@.len() * 8 <= usize::MAX,
    ensures
        final(host).wf(),
        final(host)@ == old(host)@,
        final(return_slice)@.len() == old(return_slice)@.len(),
        (match r {
            Ok(_) => read_array_outcome(
                old(host)@,
                MapSide::Result,
                key.spec_bytes(),
                WireType::U64,
                old(return_slice)@.len(),
            ) == Ok::<Seq<int>, RecoverableError>(ints_u64(final(return_slice)@)),
            Err(e) => read_array_outcome(
                old(host)@,
                MapSide::Result,
                key.spec_bytes(),
                WireType::U64,
                old(return_slice)@.len(),
            ) == Err::<Seq<int>, RecoverableError>(e) && final(return_slice)@ == old(
                return_slice,
            )@,
        }),
{
    let size: usize = return_slice.len() * 8;
    let expected = WireType::U64.array_descriptor();
    match read_entry(host, MapSide::Result, key.as_bytes(), expected, size) {
        Ok(bytes) => {
            decode_array_u64(bytes.as_slice(), return_slice);
            Ok(())
        },
        Err(e) => Err(e),
    }
}

/// Reads a `i8` array that fills `return_slice` exactly from the result
/// map.
pub fn read_result_comap_fixed_array_i8(
    host: &mut Host,
    key: &str,
    return_slice: &mut [i8],
) -> (r: Result<(), RecoverableError>)
    requires
        old(host).wf(),
        key.spec_bytes().len() < FRAME_LIMIT,
        old(return_slice)@.len() * 1 <= usize::MAX,
    ensures
        final(host).wf(),
        final(host)@ == old(host)@,
        final(return_slice)@.len() == old(return_slice)@.len(),
        (match r {
            Ok(_) => read_array_outcome(
                old(host)@,
                MapSide::Result,
                key.spec_bytes(),
                WireType::I8,
                old(return_slice)@.len(),
            ) == Ok::<Seq<int>, RecoverableError>(ints_i8(final(return_slice)@)),
            Err(e) => read_array_outcome(
                old(host)@,
                MapSide::Result,
                key.spec_bytes(),
                WireType::I8,
                old(return_slice)@.len(),
            ) == Err::<Seq<int>, RecoverableError>(e) && final(return_slice)@ == old(
                return_slice,
            )@,
        }),
{
    let size: usize = return_slice.len() * 1;
    let expected = WireType::I8.array_descriptor();
    match read_entry(host, MapSide::Result, key.as_bytes(), expected, size) {
        Ok(bytes) => {
            decode_array_i8(bytes.as_slice(), return_slice);
            Ok(())
        },
        Err(e) => Err(e),
    }
}

/// Reads a `i16` array that fills `return_slice` exactly from the result
/// map.
pub fn read_result_comap_fixed_array_i16(
    host: &mut Host,
    key: &str,
    return_slice: &mut [i16],
) -> (r: Result<(), RecoverableError>)
    requires
        old(host).wf(),
        key.spec_bytes().len() < FRAME_LIMIT,
        old(return_slice)@.len() * 2 <= usize::MAX,
    ensures
        final(host).wf(),
        final(host)@ == old(host)@,
        final(return_slice)@.len() == old(return_slice)@.len(),
        (match r {
            Ok(_) => read_array_outcome(
                old(host)@,
                MapSide::Result,
                key.spec_bytes(),
                WireType::I16,
                old(return_slice)@.len(),
            ) == Ok::<Seq<int>, RecoverableError>(ints_i16(final(return_slice)@)),
            Err(e) => read_array_outcome(
                old(host)@,
                MapSide::Result,
                key.spec_bytes(),
                WireType::I16,
                old(return_slice)@.len(),
            ) == Err::<Seq<int>, RecoverableError>(e) && final(return_slice)@ == old(
                return_slice,
            )@,
        }),
{
    let size: usize = return_slice.len() * 2;
    let expected = WireType::I16.array_descriptor();
    match read_entry(host, MapSide::Result, key.as_bytes(), expected, size) {
        Ok(bytes) => {
            decode_array_i16(bytes.as_slice(), return_slice);
            Ok(())
        },
        Err(e) => Err(e),
    }
}

/// Reads a `i32` array that fills `return_slice` exactly from the result
/// map.
pub fn read_result_comap_fixed_array_i32(
    host: &mut Host,
    key: &str,
    return_slice: &mut [i32],
) -> (r: Result<(), RecoverableError>)
    requires
        old(host).wf(),
        key.spec_bytes().len() < FRAME_LIMIT,
        old(return_slice)@.len() * 4 <= usize::MAX,
    ensures
        final(host).wf(),
        final(host)@ == old(host)@,
        final(return_slice)@.len() == old(return_slice)@.len(),
        (match r {
            Ok(_) => read_array_outcome(
                old(host)@,
                MapSide::Result,
                key.spec_bytes(),
                WireType::I32,
                old(return_slice)@.len(),
            ) == Ok::<Seq<int>, RecoverableError>(ints_i32(final(return_slice)@)),
            Err(e) => read_array_outcome(
                old(host)@,
                MapSide::Result,
                key.spec_bytes(),
                WireType::I32,
                old(return_slice)@.len(),
            ) == Err::<Seq<int>, RecoverableError>(e) && final(return_slice)@ == old(
                return_slice,
            )@,
        }),
{
    let size: usize = return_slice.len() * 4;
    let expected = WireType::I32.array_descriptor();
    match read_entry(host, MapSide::Result, key.as_bytes(), expected, size) {
        Ok(bytes) => {
            decode_array_i32(bytes.as_slice(), return_slice);
            Ok(())
        },
        Err(e) => Err(e),
    }
}

/// Reads a `i64` array that fills `return_slice` exactly from the result
/// map.
pub fn read_result_comap_fixed_array_i64(
    host: &mut Host,
    key: &str,
    return_slice: &mut [i64],
) -> (r: Result<(), RecoverableError>)
    requires
        old(host).wf(),
        key.spec_bytes().len() < FRAME_LIMIT,
        old(return_slice)@.len() * 8 <= usize::MAX,
    ensures
        final(host).wf(),
        final(host)@ == old(host)@,
        final(return_slice)@.len() == old(return_slice)@.len(),
        (match r {
            Ok(_) => read_array_outcome(
                old(host)@,
                MapSide::Result,
                key.spec_bytes(),
                WireType::I64,
                old(return_slice)@.len(),
            ) == Ok::<Seq<int>, RecoverableError>(ints_i64(final(return_slice)@)),
            Err(e) => read_array_outcome(
                old(host)@,
                MapSide::Result,
                key.spec_bytes(),
                WireType::I64,
                old(return_slice)@.len(),
            ) == Err::<Seq<int>, RecoverableError>(e) && final(return_slice)@ == old(
                return_slice,
            )@,
        }),
{
    let size: usize = return_slice.len() * 8;
    let expected = WireType::I64.array_descriptor();
    match read_entry(host, MapSide::Result, key.as_bytes(), expected, size) {
        Ok(bytes) => {
            decode_array_i64(bytes.as_slice(), return_slice);
            Ok(())
        },
        Err(e) => Err(e),
    }
}

} // verus!
