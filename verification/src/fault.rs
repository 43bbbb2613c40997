//! The terminal path for faults that no caller can receive.
//!
//! The handler emits one diagnostic message through the printer, flushes
//! it, and asks the host to revert with the fixed code. What it returns
//! stands for the end of the execution: the entry point hands it on and runs
//! nothing else.

use vstd::prelude::*;
use vstd::string::*;
use crate::host::{concat, Host, HostState, FRAME_LIMIT, LOG_INFO};
use crate::logging::logged;
use crate::testing::Printer;

verus! {

/// Flag of a fault in the revert code.
pub const FAULT_FLAG: u32 = 8;

/// Flag of an error in the revert code.
pub const ERROR_FLAG: u32 = 1;

/// Flag that asks the host to discard the state changes of the execution.
pub const REVERT_FLAG: u32 = 2;

/// The code of every fault: fault, error and revert together.
pub const FAULT_REVERT_CODE: u32 = FAULT_FLAG + ERROR_FLAG + REVERT_FLAG;

/// The terminal outcome of an execution that faulted.
#[derive(Debug, Clone, Copy, PartialEq, Eq, Structural)]
pub struct FatalFault {
    /// The code that the host was asked to revert with.
    pub code: u32,
}

/// The decimal digits of `n` as ASCII bytes, without leading zeros.
pub open spec fn decimal(n: nat) -> Seq<u8>
    decreases n,
{
    if n < 10 {
        seq![(48 + n) as u8]
    } else {
        decimal(n / 10).push((48 + n % 10) as u8)
    }
}

/// Ten to the power `k`.
pub open spec fn pow10(k: nat) -> nat
    decreases k,
{
    if k == 0 {
        1
    } else {
        10 * pow10((k - 1) as nat)
    }
}

/// A number below `10^k` has at most `k` digits.
pub proof fn lemma_decimal_len(n: nat, k: nat)
    requires
        k >= 1,
        n < pow10(k),
    ensures
        1 <= decimal(n).len() <= k,
    decreases k,
{
    reveal_with_fuel(pow10, 2);
    if n >= 10 {
        assert(k >= 2);
        assert(pow10(k) == 10 * pow10((k - 1) as nat));
        lemma_decimal_len(n / 10, (k - 1) as nat);
    }
}

/// Appends the decimal digits of `n` to `out`.
pub fn push_decimal(out: &mut Vec<u8>, n: u32)
    ensures
        final(out)@ == old(out)@ + decimal(n as nat),
    decreases n,
{
    if n >= 10 {
        push_decimal(out, n / 10);
    }
    out.push(48 + (n % 10) as u8);
    proof {
        assert(out@ =~= old(out)@ + decimal(n as nat));
    }
}

/// The decimal digits of `n`.
pub fn decimal_digits(n: u32) -> (out: Vec<u8>)
    ensures
        out@ == decimal(n as nat),
        1 <= out@.len() <= 10,
{
    let mut out: Vec<u8> = Vec::new();
    push_decimal(&mut out, n);
    proof {
        reveal_with_fuel(pow10, 11);
        lemma_decimal_len(n as nat, 10);
        assert(out@ =~= decimal(n as nat));
    }
    out
}

/// The fragments that say where a fault came from: the file and the line,
/// where they are known.
pub open spec fn location_fragments(location: Option<(&str, u32)>) -> Seq<Seq<u8>> {
    match location {
        Some((file, line)) => seq![
            "panic occurred in file '".spec_bytes(),
            file.spec_bytes(),
            "' at line ".spec_bytes(),
            decimal(line as nat),
            "\n".spec_bytes(),
        ],
        None => seq!["panic occurred but can't get location information...\n".spec_bytes()],
    }
}

/// The fragments that give the reason of a fault, or say that none was
/// given.
pub open spec fn reason_fragments(reason: Option<&str>) -> Seq<Seq<u8>> {
    match reason {
        Some(text) => seq![text.spec_bytes(), "\n".spec_bytes()],
        None => seq!["Contract panic! no reason given".spec_bytes(), "\n".spec_bytes()],
    }
}

/// The fragments of the diagnostic, in the order in which they are written.
pub open spec fn diagnostic_fragments(reason: Option<&str>, location: Option<(&str, u32)>) -> Seq<
    Seq<u8>,
> {
    seq!["CONTRACT PANIC!\n".spec_bytes()] + location_fragments(location) + reason_fragments(
        reason,
    )
}

/// The diagnostic message of a fault.
pub open spec fn diagnostic(reason: Option<&str>, location: Option<(&str, u32)>) -> Seq<u8> {
    concat(diagnostic_fragments(reason, location))
}

/// The state after a fault was handled: the diagnostic reached the sink as
/// one message, and then the execution was reverted with the fault code.
pub open spec fn faulted(
    s: HostState,
    reason: Option<&str>,
    location: Option<(&str, u32)>,
) -> HostState {
    logged(s, LOG_INFO, diagnostic(reason, location)).reverted(FAULT_REVERT_CODE)
}

/// Whether the texts of a fault fit into frames.
pub open spec fn fault_texts_fit(reason: Option<&str>, location: Option<(&str, u32)>) -> bool {
    &&& match reason {
        Some(text) => text.spec_bytes().len() < FRAME_LIMIT,
        None => true,
    }
    &&& match location {
        Some((file, line)) => file.spec_bytes().len() < FRAME_LIMIT,
        None => true,
    }
}

/// Writes where the fault came from.
fn write_location(p: &mut Printer, host: &mut Host, location: Option<(&str, u32)>)
    requires
        old(host).wf(),
        fault_texts_fit(None, location),
        old(p)@ == 1,
        old(host)@.costack.len() >= 1,
    ensures
        final(host).wf(),
        final(host)@ == (HostState {
            costack: old(host)@.costack + location_fragments(location),
            ..old(host)@
        }),
        final(p)@ == 1 + location_fragments(location).len(),
{
    match location {
        Some((file, line)) => {
            proof {
                reveal_strlit("panic occurred in file '");
                reveal_strlit("' at line ");
                reveal_strlit("\n");
                assert(is_ascii("panic occurred in file '"));
                assert(is_ascii("' at line "));
                assert(is_ascii("\n"));
            }
            p.write_str(host, "panic occurred in file '");
            p.write_str(host, file);
            p.write_str(host, "' at line ");
            let digits = decimal_digits(line);
            p.write_bytes(host, digits.as_slice());
            p.write_str(host, "\n");
        },
        None => {
            proof {
                reveal_strlit("panic occurred but can't get location information...\n");
                assert(is_ascii("panic occurred but can't get location information...\n"));
            }
            p.write_str(host, "panic occurred but can't get location information...\n");
        },
    }
    proof {
        assert(host@.costack =~= old(host)@.costack + location_fragments(location));
    }
}

/// Writes the reason of the fault.
fn write_reason(p: &mut Printer, host: &mut Host, reason: Option<&str>)
    requires
        old(host).wf(),
        fault_texts_fit(reason, None),
        old(p)@ <= 6,
        old(p)@ <= old(host)@.costack.len(),
    ensures
        final(host).wf(),
        final(host)@ == (HostState {
            costack: old(host)@.costack + reason_fragments(reason),
            ..old(host)@
        }),
        final(p)@ == old(p)@ + 2,
{
    proof {
        reveal_strlit("Contract panic! no reason given");
        reveal_strlit("\n");
        assert(is_ascii("Contract panic! no reason given"));
        assert(is_ascii("\n"));
    }
    match reason {
        Some(text) => {
            p.write_str(host, text);
        },
        None => {
            p.write_str(host, "Contract panic! no reason given");
        },
    }
    p.write_str(host, "\n");
    proof {
        assert(host@.costack =~= old(host)@.costack + reason_fragments(reason));
    }
}

/// Handles a fault: emits the diagnostic as one message, flushed, then asks
/// the host to revert with the fault code.
pub fn fault_unwind(host: &mut Host, reason: Option<&str>, location: Option<(&str, u32)>) -> (fault:
    FatalFault)
    requires
        old(host).wf(),
        fault_texts_fit(reason, location),
    ensures
        final(host).wf(),
        final(host)@ == faulted(old(host)@, reason, location),
        fault.code == FAULT_REVERT_CODE,
        FAULT_REVERT_CODE == 11,
{
    let mut p = Printer::default();
    proof {
        reveal_strlit("CONTRACT PANIC!\n");
        assert(is_ascii("CONTRACT PANIC!\n"));
    }
    p.write_str(host, "CONTRACT PANIC!\n");
    write_location(&mut p, host, location);
    write_reason(&mut p, host, reason);
    let ghost before = host@;
    let ghost fragments = diagnostic_fragments(reason, location);
    proof {
        assert(before.costack =~= old(host)@.costack + fragments);
        assert(p@ == fragments.len());
        assert(before.costack.skip(before.costack.len() - fragments.len()) =~= fragments);
        assert(before.costack.take(before.costack.len() - fragments.len()) =~= old(
            host,
        )@.costack);
    }
    p.flush(host);
    host.revert(FAULT_REVERT_CODE);
    FatalFault { code: FAULT_REVERT_CODE }
}

/// Handles the failure of an allocation: the same path, with a fixed reason
/// and no location.
pub fn allocation_fault(host: &mut Host) -> (fault: FatalFault)
    requires
        old(host).wf(),
    ensures
        final(host).wf(),
        final(host)@ == faulted(old(host)@, Some("memory allocation failed"), None),
        fault.code == FAULT_REVERT_CODE,
{
    proof {
        reveal_strlit("memory allocation failed");
        assert(is_ascii("memory allocation failed"));
    }
    fault_unwind(host, Some("memory allocation failed"), None)
}

/// Joining two runs of frames joins their bytes.
pub proof fn lemma_concat_add(a: Seq<Seq<u8>>, b: Seq<Seq<u8>>)
    ensures
        concat(a + b) == concat(a) + concat(b),
    decreases b.len(),
{
    if b.len() == 0 {
        assert(a + b =~= a);
        assert(concat(a) + concat(b) =~= concat(a));
    } else {
        assert((a + b).drop_last() =~= a + b.drop_last());
        assert((a + b).last() == b.last());
        lemma_concat_add(a, b.drop_last());
        assert(concat(a + b) =~= concat(a) + concat(b));
    }
}

/// The diagnostic of a fault with a reason holds the reason, byte for byte.
pub proof fn lemma_diagnostic_holds_reason(text: &str, location: Option<(&str, u32)>)
    ensures
        exists|k: int|
            0 <= k && k + text.spec_bytes().len() <= diagnostic(Some(text), location).len()
                && #[trigger] diagnostic(Some(text), location).subrange(
                k,
                k + text.spec_bytes().len(),
            ) == text.spec_bytes(),
{
    let front = seq!["CONTRACT PANIC!\n".spec_bytes()] + location_fragments(location);
    let tail = reason_fragments(Some(text));
    lemma_concat_add(front, tail);
    assert(tail.drop_last() =~= seq![text.spec_bytes()]);
    assert(tail.drop_last().drop_last() =~= Seq::<Seq<u8>>::empty());
    assert(concat(tail.drop_last()) =~= text.spec_bytes()) by {
        assert(concat(tail.drop_last().drop_last()) =~= Seq::<u8>::empty());
    }
    assert(concat(tail) =~= text.spec_bytes() + "\n".spec_bytes());
    let whole = diagnostic(Some(text), location);
    let k = concat(front).len() as int;
    assert(whole =~= concat(front) + (text.spec_bytes() + "\n".spec_bytes()));
    assert(whole.subrange(k, k + text.spec_bytes().len()) =~= text.spec_bytes());
}

} // verus!
