//! What holds of the operations taken together, stated over the same
//! transitions and outcomes that their contracts use.

use vstd::prelude::*;
use crate::abi::{lemma_descriptor_names_type, WireType};
use crate::address::{address_bytes, lemma_address_bytes_injective, NeutronAddress, ADDRESS_SIZE};
use crate::error::RecoverableError;
use crate::fault::{diagnostic, faulted};
use crate::host::{concat, overlay, HostState, MapSide, RecordState, LOG_INFO};
use crate::syscalls::{
    array_outcome, exact_frame, read_array_outcome, read_outcome, read_scalar_outcome,
    scalar_outcome, written,
};
use crate::testing::{batches, printed};
use crate::wire::{
    all_hold, encode, encode_array, lemma_array_round_trip, lemma_codec_round_trip,
    lemma_encode_array_layout,
};

verus! {

/// A pop undoes a push: the channel after both is the channel before.
pub proof fn lemma_push_then_pop_restores(s: HostState, frame: Seq<u8>)
    ensures
        s.pushed(frame).popped() == s,
{
    assert(s.pushed(frame).popped().costack =~= s.costack);
}

/// A value that is pushed and then popped as the same type comes back
/// unchanged, whatever lay on the channel below it, and the channel is left
/// as it was before the push.
pub proof fn lemma_scalar_round_trip(s: HostState, t: WireType, v: int)
    requires
        t.holds(v),
    ensures
        scalar_outcome(s.pushed(encode(t, v)), t) == Ok::<int, RecoverableError>(v),
        s.pushed(encode(t, v)).popped() == s,
{
    lemma_codec_round_trip(t, v);
    lemma_push_then_pop_restores(s, encode(t, v));
}

/// An address that is pushed and then popped comes back unchanged: the pop
/// accepts the frame, and whatever address has the wire bytes of the frame
/// is the address that was pushed.
pub proof fn lemma_address_round_trip(s: HostState, pushed: NeutronAddress, popped: NeutronAddress)
    ensures
        exact_frame(s.pushed(address_bytes(pushed)), ADDRESS_SIZE as nat) == Ok::<
            Seq<u8>,
            RecoverableError,
        >(address_bytes(pushed)),
        address_bytes(popped) == address_bytes(pushed) ==> popped == pushed,
        s.pushed(address_bytes(pushed)).popped() == s,
{
    lemma_push_then_pop_restores(s, address_bytes(pushed));
    if address_bytes(popped) == address_bytes(pushed) {
        lemma_address_bytes_injective(popped, pushed);
    }
}

/// A typed pop accepts a frame only at the exact size of the type: a longer
/// frame is too large, a shorter one too small, and neither is cut or
/// padded into a value.
pub proof fn lemma_size_validation(s: HostState, t: WireType)
    requires
        s.costack.len() > 0,
        s.costack.last().len() != t.spec_width(),
    ensures
        s.costack.last().len() > t.spec_width() ==> scalar_outcome(s, t) == Err::<
            int,
            RecoverableError,
        >(RecoverableError::StackItemTooLarge),
        s.costack.last().len() < t.spec_width() ==> scalar_outcome(s, t) == Err::<
            int,
            RecoverableError,
        >(RecoverableError::StackItemTooSmall),
{
}

/// A typed pop from an empty channel finds nothing.
pub proof fn lemma_pop_from_empty(s: HostState, t: WireType)
    requires
        s.costack.len() == 0,
    ensures
        scalar_outcome(s, t) == Err::<int, RecoverableError>(RecoverableError::ItemDoesntExist),
{
}

/// An array that is pushed and then popped into a buffer of as many
/// elements comes back unchanged. A buffer of fewer elements finds the
/// frame too large, one of more elements too small.
pub proof fn lemma_array_push_pop(s: HostState, t: WireType, values: Seq<int>, count: nat)
    requires
        all_hold(t, values),
    ensures
        array_outcome(s.pushed(encode_array(t, values)), t, values.len()) == Ok::<
            Seq<int>,
            RecoverableError,
        >(values),
        count < values.len() ==> array_outcome(s.pushed(encode_array(t, values)), t, count)
            == Err::<Seq<int>, RecoverableError>(RecoverableError::StackItemTooLarge),
        count > values.len() ==> array_outcome(s.pushed(encode_array(t, values)), t, count)
            == Err::<Seq<int>, RecoverableError>(RecoverableError::StackItemTooSmall),
        s.pushed(encode_array(t, values)).popped() == s,
{
    lemma_array_round_trip(t, values);
    lemma_encode_array_layout(t, values);
    lemma_push_then_pop_restores(s, encode_array(t, values));
    let w = t.spec_width() as int;
    let n = values.len() as int;
    let c = count as int;
    if c < n {
        assert(c * w < n * w) by (nonlinear_arith)
            requires
                c < n,
                w > 0,
        ;
    }
    if c > n {
        assert(c * w > n * w) by (nonlinear_arith)
            requires
                c > n,
                w > 0,
        ;
    }
}

/// A value that was written under a key is read back unchanged by a read
/// of the same type.
pub proof fn lemma_write_then_read(s: HostState, side: MapSide, key: Seq<u8>, t: WireType, v: int)
    requires
        t.holds(v),
    ensures
        read_scalar_outcome(
            written(s, side, key, t.spec_descriptor(), encode(t, v)),
            side,
            key,
            t,
        ) == Ok::<int, RecoverableError>(v),
{
    lemma_codec_round_trip(t, v);
    let after = written(s, side, key, t.spec_descriptor(), encode(t, v));
    assert(after.map(side).last().key == key);
}

/// A read of another type than the one that was written fails with a type
/// mismatch, and so does a read of an array where a scalar was written.
pub proof fn lemma_read_of_other_type(
    s: HostState,
    side: MapSide,
    key: Seq<u8>,
    t: WireType,
    other: WireType,
    v: int,
    count: nat,
)
    ensures
        other != t ==> read_scalar_outcome(
            written(s, side, key, t.spec_descriptor(), encode(t, v)),
            side,
            key,
            other,
        ) == Err::<int, RecoverableError>(RecoverableError::TypeMismatch),
        read_array_outcome(
            written(s, side, key, t.spec_descriptor(), encode(t, v)),
            side,
            key,
            other,
            count,
        ) == Err::<Seq<int>, RecoverableError>(RecoverableError::TypeMismatch),
{
    lemma_descriptor_names_type(t);
    lemma_descriptor_names_type(other);
    let after = written(s, side, key, t.spec_descriptor(), encode(t, v));
    assert(after.map(side).last().key == key);
}

/// An array that was written under a key is read back unchanged by a read
/// of the same type into a buffer of as many elements.
pub proof fn lemma_write_then_read_array(
    s: HostState,
    side: MapSide,
    key: Seq<u8>,
    t: WireType,
    values: Seq<int>,
)
    requires
        all_hold(t, values),
    ensures
        read_array_outcome(
            written(s, side, key, t.spec_array_descriptor(), encode_array(t, values)),
            side,
            key,
            t,
            values.len(),
        ) == Ok::<Seq<int>, RecoverableError>(values),
{
    lemma_array_round_trip(t, values);
    lemma_encode_array_layout(t, values);
    let after = written(s, side, key, t.spec_array_descriptor(), encode_array(t, values));
    assert(after.map(side).last().key == key);
}

/// A write to one map is not seen by a read of the other.
pub proof fn lemma_sides_are_apart(
    s: HostState,
    key: Seq<u8>,
    other: Seq<u8>,
    descriptor: u32,
    value: Seq<u8>,
    expected: u32,
    size: nat,
)
    ensures
        read_outcome(
            written(s, MapSide::Input, key, descriptor, value),
            MapSide::Result,
            other,
            expected,
            size,
        ) == read_outcome(s, MapSide::Result, other, expected, size),
        read_outcome(
            written(s, MapSide::Result, key, descriptor, value),
            MapSide::Input,
            other,
            expected,
            size,
        ) == read_outcome(s, MapSide::Input, other, expected, size),
{
}

/// The channel is a stack: of two frames that were pushed, the second is
/// popped first, and the first is popped next.
pub proof fn lemma_last_in_first_out(s: HostState, first: Seq<u8>, second: Seq<u8>)
    ensures
        exact_frame(s.pushed(first).pushed(second), second.len()) == Ok::<
            Seq<u8>,
            RecoverableError,
        >(second),
        s.pushed(first).pushed(second).popped() == s.pushed(first),
        exact_frame(s.pushed(first), first.len()) == Ok::<Seq<u8>, RecoverableError>(first),
        s.pushed(first).popped() == s,
{
    lemma_push_then_pop_restores(s, first);
    lemma_push_then_pop_restores(s.pushed(first), second);
}

/// A buffer of the frame's own length holds the frame after the pop.
pub proof fn lemma_overlay_exact(buffer: Seq<u8>, frame: Seq<u8>)
    requires
        buffer.len() == frame.len(),
    ensures
        overlay(buffer, frame) == frame,
{
    assert(overlay(buffer, frame) =~= frame);
}

/// A message of at most 255 fragments reaches the sink as one message: its
/// fragments joined in the order in which they were written.
pub proof fn lemma_print_is_one_message(s: HostState, frames: Seq<Seq<u8>>)
    requires
        frames.len() <= 255,
    ensures
        printed(s, frames).log == s.log.push(
            RecordState { level: LOG_INFO, message: concat(frames) },
        ),
        printed(s, frames).costack == s.costack,
{
    assert(printed(s, frames).log =~= s.log.push(
        RecordState { level: LOG_INFO, message: concat(frames) },
    ));
}

/// A message of more than 255 and at most 510 fragments is flushed once on
/// the way: the first 255 fragments reach the sink as a message of their
/// own, the rest as a second one.
pub proof fn lemma_print_flushes_once(s: HostState, frames: Seq<Seq<u8>>)
    requires
        255 < frames.len() <= 510,
    ensures
        printed(s, frames).log == s.log.push(
            RecordState { level: LOG_INFO, message: concat(frames.take(255)) },
        ).push(RecordState { level: LOG_INFO, message: concat(frames.skip(255)) }),
{
    assert(batches(frames.skip(255)) =~= seq![
        RecordState { level: LOG_INFO, message: concat(frames.skip(255)) },
    ]);
    assert(printed(s, frames).log =~= s.log.push(
        RecordState { level: LOG_INFO, message: concat(frames.take(255)) },
    ).push(RecordState { level: LOG_INFO, message: concat(frames.skip(255)) }));
}

/// A fault leaves exactly one more message at the sink, the diagnostic, and
/// exactly one more revert on record, with the code 11; and nothing that
/// the execution stored survives it.
pub proof fn lemma_fault_path(s: HostState, reason: Option<&str>, location: Option<(&str, u32)>)
    requires
        s.wf(),
    ensures
        faulted(s, reason, location).log == s.log.push(
            RecordState { level: LOG_INFO, message: diagnostic(reason, location) },
        ),
        faulted(s, reason, location).reverts == s.reverts.push(11u32),
        faulted(s, reason, location).storage == s.storage.take(s.committed as int),
        faulted(s, reason, location).costack.len() == 0,
{
}

/// Three fragments are joined first to last.
pub proof fn lemma_concat_three(a: Seq<u8>, b: Seq<u8>, c: Seq<u8>)
    ensures
        concat(seq![a, b, c]) == a + b + c,
{
    let all = seq![a, b, c];
    assert(all.drop_last() =~= seq![a, b]);
    assert(all.drop_last().drop_last() =~= seq![a]);
    assert(all.drop_last().drop_last().drop_last() =~= Seq::<Seq<u8>>::empty());
    reveal_with_fuel(concat, 4);
    assert(concat(all) =~= a + b + c);
}

} // verus!
