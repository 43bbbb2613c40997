//! Printing through the channel.
//!
//! The channel hands back the frame that was pushed last, but a message is
//! produced piece by piece from its start. The [`Printer`] pushes every
//! fragment as it comes and counts them; a flush tells the host the count,
//! and the host joins that many frames in the order in which they were
//! pushed. The count is one byte, so a writer that already holds 255
//! fragments sends them off as a message of their own before it takes the
//! next one.

use vstd::prelude::*;
use vstd::string::*;
use crate::host::{concat, Host, HostState, RecordState, FRAME_LIMIT, LOG_INFO};
use crate::logging::{flushed, log_info_from_costack};
use crate::syscalls::push_costack;

verus! {

/// The most fragments that one flush can announce.
pub const MAX_PARTS: u8 = 255;

/// A writer that pushes fragments and counts them until they are flushed.
pub struct Printer {
    part_count: u8,
}

impl View for Printer {
    type V = nat;

    /// The fragments that were pushed and not yet flushed.
    closed spec fn view(&self) -> nat {
        self.part_count as nat
    }
}

impl Default for Printer {
    fn default() -> (printer: Printer)
        ensures
            printer@ == 0,
    {
        Printer { part_count: 0 }
    }
}

/// The state after a writer that holds `parts` fragments took one more.
pub open spec fn fragment_written(s: HostState, parts: nat, fragment: Seq<u8>) -> HostState {
    if parts >= MAX_PARTS {
        flushed(s, LOG_INFO, parts).pushed(fragment)
    } else {
        s.pushed(fragment)
    }
}

/// The fragments that a writer holds after it held `parts` and took one
/// more.
pub open spec fn parts_after_write(parts: nat) -> nat {
    if parts >= MAX_PARTS {
        1
    } else {
        parts + 1
    }
}

/// The bytes of each fragment.
pub open spec fn fragments_bytes(fragments: Seq<&str>) -> Seq<Seq<u8>> {
    Seq::new(fragments.len(), |i: int| fragments[i].spec_bytes())
}

/// The messages that reach the sink when `frames` are printed: one message
/// for every full run of 255 fragments that is followed by another
/// fragment, and one for the rest.
pub open spec fn batches(frames: Seq<Seq<u8>>) -> Seq<RecordState>
    decreases frames.len(),
{
    if frames.len() <= MAX_PARTS {
        seq![RecordState { level: LOG_INFO, message: concat(frames) }]
    } else {
        seq![RecordState { level: LOG_INFO, message: concat(frames.take(255)) }] + batches(
            frames.skip(255),
        )
    }
}

/// The state after `frames` were printed: the channel is as it was, and the
/// sink holds the messages of `batches`.
pub open spec fn printed(s: HostState, frames: Seq<Seq<u8>>) -> HostState {
    HostState { log: s.log + batches(frames), ..s }
}

impl Printer {
    /// The number of fragments that wait for a flush.
    pub fn pending(&self) -> (parts: u8)
        ensures
            parts == self@,
    {
        self.part_count
    }

    /// Whether the count is full, so that the pending fragments must be
    /// flushed before another one is pushed.
    pub fn must_flush(&self) -> (full: bool)
        ensures
            full == (self@ >= MAX_PARTS),
            self@ <= MAX_PARTS,
    {
        self.part_count == MAX_PARTS
    }

    /// Counts one fragment that was pushed.
    pub fn count_part(&mut self)
        requires
            old(self)@ < MAX_PARTS,
        ensures
            final(self)@ == old(self)@ + 1,
    {
        self.part_count += 1;
    }

    /// Hands out the count for a flush and starts again at zero.
    pub fn take_parts(&mut self) -> (count: u8)
        ensures
            count == old(self)@,
            final(self)@ == 0,
    {
        let count = self.part_count;
        self.part_count = 0;
        count
    }

    /// Sends the pending fragments to the sink as one message.
    pub fn flush(&mut self, host: &mut Host)
        requires
            old(host).wf(),
            old(self)@ <= old(host)@.costack.len(),
        ensures
            final(host).wf(),
            final(host)@ == flushed(old(host)@, LOG_INFO, old(self)@),
            final(self)@ == 0,
    {
        let count = self.take_parts();
        log_info_from_costack(host, count);
    }

    /// Ends the writer: what is still pending is flushed, and where nothing
    /// is pending nothing reaches the sink.
    pub fn finish(self, host: &mut Host)
        requires
            old(host).wf(),
            self@ <= old(host)@.costack.len(),
        ensures
            final(host).wf(),
            final(host)@ == (if self@ > 0 {
                flushed(old(host)@, LOG_INFO, self@)
            } else {
                old(host)@
            }),
    {
        let mut p = self;
        if p.part_count > 0 {
            p.flush(host);
        }
    }

    /// Takes one more fragment, as bytes.
    pub fn write_bytes(&mut self, host: &mut Host, fragment: &[u8])
        requires
            old(host).wf(),
            fragment@.len() < FRAME_LIMIT,
            old(self)@ <= old(host)@.costack.len(),
        ensures
            final(host).wf(),
            final(host)@ == fragment_written(old(host)@, old(self)@, fragment@),
            final(self)@ == parts_after_write(old(self)@),
            final(self)@ <= final(host)@.costack.len(),
            old(self)@ <= MAX_PARTS,
    {
        if self.must_flush() {
            self.flush(host);
        }
        push_costack(host, fragment);
        self.count_part();
    }

    /// Takes one more fragment.
    pub fn write_str(&mut self, host: &mut Host, s: &str)
        requires
            old(host).wf(),
            s.spec_bytes().len() < FRAME_LIMIT,
            old(self)@ <= old(host)@.costack.len(),
        ensures
            final(host).wf(),
            final(host)@ == fragment_written(old(host)@, old(self)@, s.spec_bytes()),
            final(self)@ == parts_after_write(old(self)@),
            final(self)@ <= final(host)@.costack.len(),
            old(self)@ <= MAX_PARTS,
    {
        self.write_bytes(host, s.as_bytes());
    }
}

/// Prints a message that comes as a sequence of fragments, and flushes it
/// before it returns.
pub fn _print(host: &mut Host, fragments: &[&str])
    requires
        old(host).wf(),
        forall|i: int|
            0 <= i < fragments@.len() ==> (#[trigger] fragments@[i]).spec_bytes().len()
                < FRAME_LIMIT,
    ensures
        final(host).wf(),
        final(host)@ == printed(old(host)@, fragments_bytes(fragments@)),
{
    let ghost frames = fragments_bytes(fragments@);
    let ghost start = old(host)@;
    let mut p = Printer::default();
    let mut i: usize = 0;
    proof {
        assert(frames.skip(0) =~= frames);
        assert(start.costack + frames.subrange(0, 0) =~= start.costack);
        assert(start.log + batches(frames) =~= host@.log + batches(frames.skip(0)));
    }
    while i < fragments.len()
        invariant
            i <= fragments@.len(),
            frames == fragments_bytes(fragments@),
            forall|j: int|
                0 <= j < fragments@.len() ==> (#[trigger] fragments@[j]).spec_bytes().len()
                    < FRAME_LIMIT,
            host.wf(),
            p@ <= MAX_PARTS,
            p@ <= i,
            i > 0 ==> p@ >= 1,
            host@.costack == start.costack + frames.subrange(i - p@, i as int),
            start.log + batches(frames) == host@.log + batches(frames.skip(i - p@)),
            host@.input_map == start.input_map,
            host@.result_map == start.result_map,
            host@.storage == start.storage,
            host@.committed == start.committed,
            host@.reverts == start.reverts,
        decreases fragments@.len() - i,
    {
        let ghost before = host@;
        let ghost parts = p@;
        p.write_str(host, fragments[i]);
        proof {
            let k = i as int;
            assert(frames[k] == fragments@[k].spec_bytes());
            if parts >= MAX_PARTS {
                let rest = frames.skip(k - 255);
                assert(rest.len() > 255);
                assert(rest.take(255) =~= frames.subrange(k - 255, k));
                assert(rest.skip(255) =~= frames.skip(k));
                assert(before.costack.skip(before.costack.len() - 255) =~= frames.subrange(
                    k - 255,
                    k,
                ));
                assert(before.costack.take(before.costack.len() - 255) =~= start.costack);
                assert(host@.costack =~= start.costack + frames.subrange(k, k + 1));
                assert(before.log + batches(rest) =~= host@.log + batches(frames.skip(k)));
            } else {
                assert(host@.costack =~= start.costack + frames.subrange(k - parts, k + 1));
            }
        }
        i += 1;
    }
    let ghost before = host@;
    let ghost parts = p@;
    p.flush(host);
    proof {
        let n = frames.len() as int;
        assert(before.costack.skip(before.costack.len() - parts) =~= frames.skip(n - parts));
        assert(before.costack.take(before.costack.len() - parts) =~= start.costack);
        assert(frames.subrange(n - parts, n) =~= frames.skip(n - parts));
        assert(batches(frames.skip(n - parts)) =~= seq![
            RecordState { level: LOG_INFO, message: concat(frames.skip(n - parts)) },
        ]);
        assert(host@.log =~= before.log + batches(frames.skip(n - parts)));
        assert(host@.costack =~= start.costack);
    }
}

} // verus!
