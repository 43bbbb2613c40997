//! The execution context: the channel of byte frames, the two keyed maps of
//! a call boundary, the global store, the log sink and the record of
//! reverts, held in memory.
//!
//! [`HostState`] is the mathematical state and says, transition by
//! transition, what each host primitive does. [`Host`] is the executable
//! context, and each of its methods is proved to make exactly that
//! transition.

use vstd::prelude::*;
use vstd::slice::slice_to_vec;
use crate::abi::ABI_DESCRIPTOR_MAX;

verus! {

/// A frame must be shorter than this, so that its length can be told apart
/// from a failure code.
pub const FRAME_LIMIT: usize = 0x8000_0000;

/// Status of a call that succeeded with nothing to count.
pub const HOST_OK: u32 = 0;

/// The channel held no frame to take.
pub const HOST_ERR_EMPTY_STACK: u32 = 0x8000_0001;

/// No entry is stored under the key.
pub const HOST_ERR_MISSING_KEY: u32 = 0x8000_0002;

/// The frames on the channel are not the operands that the call takes.
pub const HOST_ERR_BAD_OPERAND: u32 = 0x8000_0003;

/// No operation has this feature and function number.
pub const HOST_ERR_UNKNOWN_CALL: u32 = 0x8000_0004;

/// Feature number of the global store.
pub const FEATURE_STORAGE: u32 = 1;

/// Feature number of the log sink.
pub const FEATURE_LOGGING: u32 = 4;

/// Function number of the store operation.
pub const STORAGE_STORE: u32 = 1;

/// Function number of the load operation.
pub const STORAGE_LOAD: u32 = 2;

/// Function number of the exists operation.
pub const STORAGE_EXISTS: u32 = 3;

/// Function number of the debug level.
pub const LOG_DEBUG: u32 = 1;

/// Function number of the info level.
pub const LOG_INFO: u32 = 2;

/// Function number of the warning level.
pub const LOG_WARNING: u32 = 3;

/// Function number of the error level.
pub const LOG_ERROR: u32 = 4;

/// Which of the two keyed maps of a call boundary is meant.
#[derive(Debug, Clone, Copy, PartialEq, Eq, Structural)]
pub enum MapSide {
    /// Parameters: written by the caller, read by the callee.
    Input,
    /// Results: written by the callee, read by the caller.
    Result,
}

/// One keyed, tagged value.
#[derive(Debug)]
pub struct ComapEntry {
    pub key: Vec<u8>,
    pub descriptor: u32,
    pub value: Vec<u8>,
}

/// One item of the global store.
#[derive(Debug)]
pub struct StoredItem {
    pub key: Vec<u8>,
    pub value: Vec<u8>,
}

/// One message at the log sink.
#[derive(Debug)]
pub struct LogRecord {
    pub level: u32,
    pub message: Vec<u8>,
}

/// What a keyed, tagged value is.
pub struct EntryState {
    pub key: Seq<u8>,
    pub descriptor: u32,
    pub value: Seq<u8>,
}

/// What an item of the global store is.
pub struct ItemState {
    pub key: Seq<u8>,
    pub value: Seq<u8>,
}

/// What a message at the log sink is.
pub struct RecordState {
    pub level: u32,
    pub message: Seq<u8>,
}

impl View for ComapEntry {
    type V = EntryState;

    open spec fn view(&self) -> EntryState {
        EntryState { key: self.key@, descriptor: self.descriptor, value: self.value@ }
    }
}

impl View for StoredItem {
    type V = ItemState;

    open spec fn view(&self) -> ItemState {
        ItemState { key: self.key@, value: self.value@ }
    }
}

impl View for LogRecord {
    type V = RecordState;

    open spec fn view(&self) -> RecordState {
        RecordState { level: self.level, message: self.message@ }
    }
}

/// The state of an execution context.
pub struct HostState {
    /// The channel, bottom first: the last frame is the top.
    pub costack: Seq<Seq<u8>>,
    /// The input map, oldest entry first.
    pub input_map: Seq<EntryState>,
    /// The result map, oldest entry first.
    pub result_map: Seq<EntryState>,
    /// The global store, oldest item first.
    pub storage: Seq<ItemState>,
    /// The messages that reached the log sink, oldest first.
    pub log: Seq<RecordState>,
    /// How many items of the store were there when the execution began.
    /// What lies behind them was stored by this execution and is discarded
    /// by a revert.
    pub committed: nat,
    /// The codes of the reverts that were asked for, oldest first.
    pub reverts: Seq<u32>,
}

/// The frames in order, joined into one byte string.
pub open spec fn concat(frames: Seq<Seq<u8>>) -> Seq<u8>
    decreases frames.len(),
{
    if frames.len() == 0 {
        Seq::empty()
    } else {
        concat(frames.drop_last()) + frames.last()
    }
}

/// The entry that was written last under `key`, if any.
pub open spec fn find_entry(entries: Seq<EntryState>, key: Seq<u8>) -> Option<EntryState>
    decreases entries.len(),
{
    if entries.len() == 0 {
        None
    } else if entries.last().key == key {
        Some(entries.last())
    } else {
        find_entry(entries.drop_last(), key)
    }
}

/// An entry that a lookup finds is an entry of the map and has the key; a
/// lookup that finds nothing means that no entry has the key.
pub proof fn lemma_find_entry(entries: Seq<EntryState>, key: Seq<u8>)
    ensures
        (match find_entry(entries, key) {
            Some(entry) => entry.key == key && exists|i: int|
                0 <= i < entries.len() && entries[i] == entry,
            None => forall|i: int| 0 <= i < entries.len() ==> (#[trigger] entries[i]).key != key,
        }),
    decreases entries.len(),
{
    if entries.len() > 0 {
        if entries.last().key == key {
            assert(entries[entries.len() - 1] == entries.last());
        } else {
            lemma_find_entry(entries.drop_last(), key);
            match find_entry(entries.drop_last(), key) {
                Some(entry) => {
                    let i = choose|i: int|
                        0 <= i < entries.drop_last().len() && entries.drop_last()[i] == entry;
                    assert(entries[i] == entry);
                },
                None => {
                    assert forall|i: int| 0 <= i < entries.len() implies (#[trigger] entries[i]).key
                        != key by {
                        if i < entries.len() - 1 {
                            assert(entries.drop_last()[i].key != key);
                        }
                    }
                },
            }
        }
    }
}

/// The item that was stored last under `key`, if any.
pub open spec fn find_item(items: Seq<ItemState>, key: Seq<u8>) -> Option<ItemState>
    decreases items.len(),
{
    if items.len() == 0 {
        None
    } else if items.last().key == key {
        Some(items.last())
    } else {
        find_item(items.drop_last(), key)
    }
}

/// Whether two states agree on everything but the channel, the log and the
/// reverts.
pub open spec fn same_tables(a: HostState, b: HostState) -> bool {
    a.input_map == b.input_map && a.result_map == b.result_map && a.storage == b.storage
}

/// What is in `buffer` after a frame was popped into it: the frame's bytes
/// as far as the buffer reaches, and the buffer's old bytes behind them.
pub open spec fn overlay(buffer: Seq<u8>, frame: Seq<u8>) -> Seq<u8> {
    Seq::new(
        buffer.len(),
        |i: int|
            if i < frame.len() {
                frame[i]
            } else {
                buffer[i]
            },
    )
}

impl HostState {
    /// Every frame that is on the channel, or that a lookup can put there,
    /// is shorter than the frame limit, and every tag is one byte.
    pub open spec fn wf(self) -> bool {
        &&& forall|i: int|
            0 <= i < self.costack.len() ==> (#[trigger] self.costack[i]).len() < FRAME_LIMIT
        &&& forall|i: int|
            0 <= i < self.input_map.len() ==> (#[trigger] self.input_map[i]).value.len()
                < FRAME_LIMIT && self.input_map[i].descriptor <= ABI_DESCRIPTOR_MAX
        &&& forall|i: int|
            0 <= i < self.result_map.len() ==> (#[trigger] self.result_map[i]).value.len()
                < FRAME_LIMIT && self.result_map[i].descriptor <= ABI_DESCRIPTOR_MAX
        &&& forall|i: int|
            0 <= i < self.storage.len() ==> (#[trigger] self.storage[i]).value.len() < FRAME_LIMIT
        &&& self.committed <= self.storage.len()
    }

    /// The state with nothing on the channel and nothing stored or logged.
    pub open spec fn empty() -> HostState {
        HostState {
            costack: Seq::empty(),
            input_map: Seq::empty(),
            result_map: Seq::empty(),
            storage: Seq::empty(),
            log: Seq::empty(),
            committed: 0,
            reverts: Seq::empty(),
        }
    }

    /// The state after `frame` was pushed.
    pub open spec fn pushed(self, frame: Seq<u8>) -> HostState {
        HostState { costack: self.costack.push(frame), ..self }
    }

    /// The state after the top `n` frames were taken off.
    pub open spec fn dropped(self, n: nat) -> HostState
        recommends
            n <= self.costack.len(),
    {
        HostState { costack: self.costack.take(self.costack.len() - n), ..self }
    }

    /// The state after one pop: the top frame is gone, if there was one.
    pub open spec fn popped(self) -> HostState {
        if self.costack.len() == 0 {
            self
        } else {
            self.dropped(1)
        }
    }

    /// What a pop reports: the true length of the top frame, or a failure
    /// code where there is none.
    pub open spec fn pop_status(self) -> u32 {
        if self.costack.len() == 0 {
            HOST_ERR_EMPTY_STACK
        } else {
            self.costack.last().len() as u32
        }
    }

    /// The keyed map of one side.
    pub open spec fn map(self, side: MapSide) -> Seq<EntryState> {
        match side {
            MapSide::Input => self.input_map,
            MapSide::Result => self.result_map,
        }
    }

    /// The state with one more entry in the map of `side`.
    pub open spec fn with_entry(self, side: MapSide, entry: EntryState) -> HostState {
        match side {
            MapSide::Input => HostState { input_map: self.input_map.push(entry), ..self },
            MapSide::Result => HostState { result_map: self.result_map.push(entry), ..self },
        }
    }

    /// A peek by key: the top frame is the key. Where the map of `side` holds
    /// an entry under it, the key is replaced by a copy of the stored value
    /// and the status is the stored tag; the entry stays. Otherwise nothing
    /// changes and the status is a failure code.
    pub open spec fn peek(self, side: MapSide) -> (HostState, u32) {
        if self.costack.len() == 0 {
            (self, HOST_ERR_EMPTY_STACK)
        } else {
            match find_entry(self.map(side), self.costack.last()) {
                None => (self, HOST_ERR_MISSING_KEY),
                Some(entry) => (self.dropped(1).pushed(entry.value), entry.descriptor),
            }
        }
    }

    /// A commit: the top frame is the value, the one below it the key. Both
    /// leave the channel and become an entry, tagged `descriptor`, of the map
    /// of `side`. With fewer than two frames, or a tag of more than one
    /// byte, nothing changes and the status is a failure code.
    pub open spec fn commit(self, side: MapSide, descriptor: u32) -> (HostState, u32) {
        let n = self.costack.len() as int;
        if n < 2 || descriptor > ABI_DESCRIPTOR_MAX {
            (self, HOST_ERR_BAD_OPERAND)
        } else {
            (
                self.dropped(2).with_entry(
                    side,
                    EntryState {
                        key: self.costack[n - 2],
                        descriptor,
                        value: self.costack[n - 1],
                    },
                ),
                HOST_OK,
            )
        }
    }

    /// A log call: the top frame is one byte, the count of fragments. That
    /// many frames below it leave the channel and reach the sink as one
    /// message, joined in the order in which they were pushed.
    pub open spec fn log_call(self, level: u32) -> (HostState, u32) {
        let n = self.costack.len() as int;
        if n == 0 || self.costack[n - 1].len() != 1 {
            (self, HOST_ERR_BAD_OPERAND)
        } else {
            let count = self.costack[n - 1][0] as int;
            if n - 1 < count {
                (self, HOST_ERR_BAD_OPERAND)
            } else {
                (
                    HostState {
                        costack: self.costack.take(n - 1 - count),
                        log: self.log.push(
                            RecordState {
                                level,
                                message: concat(self.costack.subrange(n - 1 - count, n - 1)),
                            },
                        ),
                        ..self
                    },
                    HOST_OK,
                )
            }
        }
    }

    /// A store call: the top frame is the key, the one below it the value.
    pub open spec fn store_call(self) -> (HostState, u32) {
        let n = self.costack.len() as int;
        if n < 2 {
            (self, HOST_ERR_BAD_OPERAND)
        } else {
            (
                HostState {
                    costack: self.costack.take(n - 2),
                    storage: self.storage.push(
                        ItemState { key: self.costack[n - 1], value: self.costack[n - 2] },
                    ),
                    ..self
                },
                HOST_OK,
            )
        }
    }

    /// A load call: the top frame is the key; the stored value takes its
    /// place. Where nothing is stored under the key, nothing changes.
    pub open spec fn load_call(self) -> (HostState, u32) {
        if self.costack.len() == 0 {
            (self, HOST_ERR_BAD_OPERAND)
        } else {
            match find_item(self.storage, self.costack.last()) {
                None => (self, HOST_ERR_MISSING_KEY),
                Some(item) => (self.dropped(1).pushed(item.value), HOST_OK),
            }
        }
    }

    /// An exists call: the top frame is the key; it leaves the channel, and
    /// the status is 1 where something is stored under it, else 0.
    pub open spec fn exists_call(self) -> (HostState, u32) {
        if self.costack.len() == 0 {
            (self, HOST_ERR_BAD_OPERAND)
        } else {
            (
                self.dropped(1),
                if find_item(self.storage, self.costack.last()).is_some() {
                    1u32
                } else {
                    0u32
                },
            )
        }
    }

    /// The numbered operation `(feature, function)`: the state after it and
    /// its status. A call that fails leaves the state as it was.
    pub open spec fn call(self, feature: u32, function: u32) -> (HostState, u32) {
        if feature == FEATURE_LOGGING && LOG_DEBUG <= function <= LOG_ERROR {
            self.log_call(function)
        } else if feature == FEATURE_STORAGE && function == STORAGE_STORE {
            self.store_call()
        } else if feature == FEATURE_STORAGE && function == STORAGE_LOAD {
            self.load_call()
        } else if feature == FEATURE_STORAGE && function == STORAGE_EXISTS {
            self.exists_call()
        } else {
            (self, HOST_ERR_UNKNOWN_CALL)
        }
    }

    /// The state after a revert with `code`: what the execution stored is
    /// discarded, the channel and both maps are gone with the execution, and
    /// the code is on record. What reached the log sink stays.
    pub open spec fn reverted(self, code: u32) -> HostState
        recommends
            self.committed <= self.storage.len(),
    {
        HostState {
            costack: Seq::empty(),
            input_map: Seq::empty(),
            result_map: Seq::empty(),
            storage: self.storage.take(self.committed as int),
            reverts: self.reverts.push(code),
            ..self
        }
    }

    /// The state after the execution ended in the ordinary way: what it
    /// stored is kept, and the channel and both maps are gone with it.
    pub open spec fn exited(self) -> HostState {
        HostState {
            costack: Seq::empty(),
            input_map: Seq::empty(),
            result_map: Seq::empty(),
            committed: self.storage.len(),
            ..self
        }
    }
}

/// The executable execution context.
pub struct Host {
    /// The channel, bottom first.
    pub costack: Vec<Vec<u8>>,
    pub input_map: Vec<ComapEntry>,
    pub result_map: Vec<ComapEntry>,
    pub storage: Vec<StoredItem>,
    pub log: Vec<LogRecord>,
    /// The number of stored items that a revert keeps.
    pub committed: usize,
    pub reverts: Vec<u32>,
}

/// What the frames are, bottom first.
pub open spec fn frames_view(frames: Seq<Vec<u8>>) -> Seq<Seq<u8>> {
    Seq::new(frames.len(), |i: int| frames[i]@)
}

/// What the entries are, oldest first.
pub open spec fn entries_view(entries: Seq<ComapEntry>) -> Seq<EntryState> {
    Seq::new(entries.len(), |i: int| entries[i]@)
}

/// What the stored items are, oldest first.
pub open spec fn items_view(items: Seq<StoredItem>) -> Seq<ItemState> {
    Seq::new(items.len(), |i: int| items[i]@)
}

/// What the messages are, oldest first.
pub open spec fn records_view(records: Seq<LogRecord>) -> Seq<RecordState> {
    Seq::new(records.len(), |i: int| records[i]@)
}

impl View for Host {
    type V = HostState;

    open spec fn view(&self) -> HostState {
        HostState {
            costack: frames_view(self.costack@),
            input_map: entries_view(self.input_map@),
            result_map: entries_view(self.result_map@),
            storage: items_view(self.storage@),
            log: records_view(self.log@),
            committed: self.committed as nat,
            reverts: self.reverts@,
        }
    }
}

/// Whether two byte strings are equal.
pub fn bytes_equal(a: &[u8], b: &[u8]) -> (r: bool)
    ensures
        r == (a@ == b@),
{
    if a.len() != b.len() {
        return false;
    }
    let mut i: usize = 0;
    while i < a.len()
        invariant
            i <= a@.len(),
            a@.len() == b@.len(),
            forall|j: int| 0 <= j < i ==> a@[j] == b@[j],
        decreases a@.len() - i,
    {
        if a[i] != b[i] {
            return false;
        }
        i += 1;
    }
    proof {
        assert(a@ =~= b@);
    }
    true
}

/// The place of the entry that was written last under `key`.
pub fn locate_entry(entries: &Vec<ComapEntry>, key: &[u8]) -> (r: Option<usize>)
    ensures
        (match r {
            None => find_entry(entries_view(entries@), key@).is_none(),
            Some(i) => i < entries@.len() && find_entry(entries_view(entries@), key@) == Some(
                entries@[i as int]@,
            ),
        }),
{
    let ghost all = entries_view(entries@);
    let mut i: usize = entries.len();
    proof {
        assert(all.take(i as int) =~= all);
    }
    while i > 0
        invariant
            i <= entries@.len(),
            all == entries_view(entries@),
            find_entry(all, key@) == find_entry(all.take(i as int), key@),
        decreases i,
    {
        i -= 1;
        proof {
            assert(all.take(i + 1).drop_last() =~= all.take(i as int));
            assert(all.take(i + 1).last() == entries@[i as int]@);
        }
        if bytes_equal(entries[i].key.as_slice(), key) {
            return Some(i);
        }
    }
    None
}

/// The place of the item that was stored last under `key`.
pub fn locate_item(items: &Vec<StoredItem>, key: &[u8]) -> (r: Option<usize>)
    ensures
        (match r {
            None => find_item(items_view(items@), key@).is_none(),
            Some(i) => i < items@.len() && find_item(items_view(items@), key@) == Some(
                items@[i as int]@,
            ),
        }),
{
    let ghost all = items_view(items@);
    let mut i: usize = items.len();
    proof {
        assert(all.take(i as int) =~= all);
    }
    while i > 0
        invariant
            i <= items@.len(),
            all == items_view(items@),
            find_item(all, key@) == find_item(all.take(i as int), key@),
        decreases i,
    {
        i -= 1;
        proof {
            assert(all.take(i + 1).drop_last() =~= all.take(i as int));
            assert(all.take(i + 1).last() == items@[i as int]@);
        }
        if bytes_equal(items[i].key.as_slice(), key) {
            return Some(i);
        }
    }
    None
}

impl Host {
    /// Whether the context is in a well-formed state.
    pub open spec fn wf(&self) -> bool {
        self@.wf()
    }

    /// A fresh context: nothing on the channel, nothing stored or logged.
    pub fn new() -> (host: Host)
        ensures
            host.wf(),
            host@ == HostState::empty(),
    {
        let host = Host {
            costack: Vec::new(),
            input_map: Vec::new(),
            result_map: Vec::new(),
            storage: Vec::new(),
            log: Vec::new(),
            committed: 0,
            reverts: Vec::new(),
        };
        proof {
            assert(host@.costack =~= Seq::empty());
            assert(host@.input_map =~= Seq::empty());
            assert(host@.result_map =~= Seq::empty());
            assert(host@.storage =~= Seq::empty());
            assert(host@.log =~= Seq::empty());
        }
        host
    }

    /// Pushes a copy of `data` as one frame.
    pub fn push_frame(&mut self, data: &[u8])
        requires
            old(self).wf(),
            data@.len() < FRAME_LIMIT,
        ensures
            final(self).wf(),
            final(self)@ == old(self)@.pushed(data@),
    {
        let frame = slice_to_vec(data);
        self.costack.push(frame);
        proof {
            assert(self@.costack =~= old(self)@.costack.push(data@));
            assert(same_tables(self@, old(self)@));
        }
    }

    /// Pops the top frame into `buffer` and reports its true length. Bytes
    /// that the buffer cannot hold are lost with the frame.
    pub fn pop_frame(&mut self, buffer: &mut [u8]) -> (status: u32)
        requires
            old(self).wf(),
        ensures
            final(self).wf(),
            final(self)@ == old(self)@.popped(),
            status == old(self)@.pop_status(),
            final(buffer)@ == (if old(self)@.costack.len() == 0 {
                old(buffer)@
            } else {
                overlay(old(buffer)@, old(self)@.costack.last())
            }),
    {
        match self.costack.pop() {
            None => HOST_ERR_EMPTY_STACK,
            Some(frame) => {
                proof {
                    let before = old(self)@.costack;
                    assert(self@.costack =~= before.take(before.len() - 1));
                    assert(frame@ == before[before.len() - 1]);
                    assert(same_tables(self@, old(self)@));
                }
                let n: usize = if frame.len() < buffer.len() {
                    frame.len()
                } else {
                    buffer.len()
                };
                let mut i: usize = 0;
                while i < n
                    invariant
                        i <= n,
                        n <= frame@.len(),
                        n <= buffer@.len(),
                        buffer@.len() == old(buffer)@.len(),
                        forall|j: int| 0 <= j < i ==> buffer@[j] == frame@[j],
                        forall|j: int| i <= j < buffer@.len() ==> buffer@[j] == old(buffer)@[j],
                    decreases n - i,
                {
                    buffer[i] = frame[i];
                    i += 1;
                }
                proof {
                    assert(buffer@ =~= overlay(old(buffer)@, frame@));
                }
                frame.len() as u32
            },
        }
    }

    /// Pops the top frame and drops it.
    pub fn discard_frame(&mut self)
        requires
            old(self).wf(),
        ensures
            final(self).wf(),
            final(self)@ == old(self)@.popped(),
    {
        self.costack.pop();
        proof {
            let before = old(self)@.costack;
            if before.len() > 0 {
                assert(self@.costack =~= before.take(before.len() - 1));
            }
            assert(same_tables(self@, old(self)@));
        }
    }

    /// Looks the top frame up as a key in the map of `side`.
    pub fn peek_comap(&mut self, side: MapSide) -> (status: u32)
        requires
            old(self).wf(),
        ensures
            final(self).wf(),
            final(self)@ == old(self)@.peek(side).0,
            status == old(self)@.peek(side).1,
    {
        let n: usize = self.costack.len();
        if n == 0 {
            return HOST_ERR_EMPTY_STACK;
        }
        proof {
            assert(self.costack@[n - 1]@ == self@.costack.last());
        }
        let found = match side {
            MapSide::Input => locate_entry(&self.input_map, self.costack[n - 1].as_slice()),
            MapSide::Result => locate_entry(&self.result_map, self.costack[n - 1].as_slice()),
        };
        match found {
            None => HOST_ERR_MISSING_KEY,
            Some(i) => {
                let descriptor: u32 = match side {
                    MapSide::Input => self.input_map[i].descriptor,
                    MapSide::Result => self.result_map[i].descriptor,
                };
                let value = match side {
                    MapSide::Input => slice_to_vec(self.input_map[i].value.as_slice()),
                    MapSide::Result => slice_to_vec(self.result_map[i].value.as_slice()),
                };
                proof {
                    let entry = self@.map(side)[i as int];
                    assert(find_entry(self@.map(side), self@.costack.last()) == Some(entry));
                    assert(value@ == entry.value);
                    assert(descriptor == entry.descriptor);
                }
                self.costack.pop();
                self.costack.push(value);
                proof {
                    let before = old(self)@.costack;
                    assert(self@.costack =~= before.take(before.len() - 1).push(value@));
                    assert(same_tables(self@, old(self)@));
                }
                descriptor
            },
        }
    }

    /// Turns the two top frames into an entry of the map of `side`.
    pub fn commit_comap(&mut self, side: MapSide, descriptor: u32) -> (status: u32)
        requires
            old(self).wf(),
        ensures
            final(self).wf(),
            final(self)@ == old(self)@.commit(side, descriptor).0,
            status == old(self)@.commit(side, descriptor).1,
    {
        let n: usize = self.costack.len();
        if n < 2 || descriptor > ABI_DESCRIPTOR_MAX {
            return HOST_ERR_BAD_OPERAND;
        }
        let value = slice_to_vec(self.costack[n - 1].as_slice());
        let key = slice_to_vec(self.costack[n - 2].as_slice());
        proof {
            assert(value@ == old(self)@.costack[n - 1]);
            assert(key@ == old(self)@.costack[n - 2]);
        }
        self.costack.truncate(n - 2);
        let entry = ComapEntry { key, descriptor, value };
        match side {
            MapSide::Input => {
                self.input_map.push(entry);
                proof {
                    assert(self@.input_map =~= old(self)@.input_map.push(entry@));
                    assert(self@.result_map == old(self)@.result_map);
                }
            },
            MapSide::Result => {
                self.result_map.push(entry);
                proof {
                    assert(self@.result_map =~= old(self)@.result_map.push(entry@));
                    assert(self@.input_map == old(self)@.input_map);
                }
            },
        }
        proof {
            assert(self@.costack =~= old(self)@.costack.take(n - 2));
            assert(self@.storage == old(self)@.storage);
            assert(self@.wf());
        }
        HOST_OK
    }

    /// The log operation of level `level`.
    fn log_operation(&mut self, level: u32) -> (status: u32)
        requires
            old(self).wf(),
        ensures
            final(self).wf(),
            final(self)@ == old(self)@.log_call(level).0,
            status == old(self)@.log_call(level).1,
    {
        let n: usize = self.costack.len();
        if n == 0 || self.costack[n - 1].len() != 1 {
            return HOST_ERR_BAD_OPERAND;
        }
        let count: usize = self.costack[n - 1][0] as usize;
        if n - 1 < count {
            return HOST_ERR_BAD_OPERAND;
        }
        let start: usize = n - 1 - count;
        let ghost frames = self@.costack;
        let mut message: Vec<u8> = Vec::new();
        let mut i: usize = start;
        proof {
            assert(frames.subrange(start as int, i as int) =~= Seq::<Seq<u8>>::empty());
        }
        while i < n - 1
            invariant
                start <= i <= n - 1,
                n == self.costack@.len(),
                frames == frames_view(self.costack@),
                message@ == concat(frames.subrange(start as int, i as int)),
            decreases n - 1 - i,
        {
            let mut piece = slice_to_vec(self.costack[i].as_slice());
            proof {
                let next = frames.subrange(start as int, i + 1);
                assert(next.drop_last() =~= frames.subrange(start as int, i as int));
                assert(next.last() == piece@);
            }
            message.append(&mut piece);
            i += 1;
        }
        self.costack.truncate(start);
        let record = LogRecord { level, message };
        self.log.push(record);
        proof {
            assert(self@.costack =~= frames.take(start as int));
            assert(self@.log =~= old(self)@.log.push(record@));
            assert(same_tables(self@, old(self)@));
        }
        HOST_OK
    }

    /// The store operation of the global store.
    fn store_operation(&mut self) -> (status: u32)
        requires
            old(self).wf(),
        ensures
            final(self).wf(),
            final(self)@ == old(self)@.store_call().0,
            status == old(self)@.store_call().1,
    {
        let n: usize = self.costack.len();
        if n < 2 {
            return HOST_ERR_BAD_OPERAND;
        }
        let key = slice_to_vec(self.costack[n - 1].as_slice());
        let value = slice_to_vec(self.costack[n - 2].as_slice());
        proof {
            assert(key@ == old(self)@.costack[n - 1]);
            assert(value@ == old(self)@.costack[n - 2]);
        }
        self.costack.truncate(n - 2);
        let item = StoredItem { key, value };
        self.storage.push(item);
        proof {
            assert(self@.costack =~= old(self)@.costack.take(n - 2));
            assert(self@.storage =~= old(self)@.storage.push(item@));
            assert(self@.input_map == old(self)@.input_map);
            assert(self@.result_map == old(self)@.result_map);
        }
        HOST_OK
    }

    /// The load operation of the global store.
    fn load_operation(&mut self) -> (status: u32)
        requires
            old(self).wf(),
        ensures
            final(self).wf(),
            final(self)@ == old(self)@.load_call().0,
            status == old(self)@.load_call().1,
    {
        let n: usize = self.costack.len();
        if n == 0 {
            return HOST_ERR_BAD_OPERAND;
        }
        proof {
            assert(self.costack@[n - 1]@ == self@.costack.last());
        }
        match locate_item(&self.storage, self.costack[n - 1].as_slice()) {
            None => HOST_ERR_MISSING_KEY,
            Some(i) => {
                let value = slice_to_vec(self.storage[i].value.as_slice());
                proof {
                    assert(value@ == self@.storage[i as int].value);
                }
                self.costack.pop();
                self.costack.push(value);
                proof {
                    let before = old(self)@.costack;
                    assert(self@.costack =~= before.take(before.len() - 1).push(value@));
                    assert(same_tables(self@, old(self)@));
                }
                HOST_OK
            },
        }
    }

    /// The exists operation of the global store.
    fn exists_operation(&mut self) -> (status: u32)
        requires
            old(self).wf(),
        ensures
            final(self).wf(),
            final(self)@ == old(self)@.exists_call().0,
            status == old(self)@.exists_call().1,
    {
        let n: usize = self.costack.len();
        if n == 0 {
            return HOST_ERR_BAD_OPERAND;
        }
        proof {
            assert(self.costack@[n - 1]@ == self@.costack.last());
        }
        let found = locate_item(&self.storage, self.costack[n - 1].as_slice());
        self.costack.pop();
        proof {
            let before = old(self)@.costack;
            assert(self@.costack =~= before.take(before.len() - 1));
            assert(same_tables(self@, old(self)@));
        }
        match found {
            None => 0,
            Some(_) => 1,
        }
    }

    /// Performs the numbered operation `(feature, function)` on the frames
    /// that the caller left on the channel.
    pub fn system_call(&mut self, feature: u32, function: u32) -> (status: u32)
        requires
            old(self).wf(),
        ensures
            final(self).wf(),
            final(self)@ == old(self)@.call(feature, function).0,
            status == old(self)@.call(feature, function).1,
    {
        if feature == FEATURE_LOGGING && LOG_DEBUG <= function && function <= LOG_ERROR {
            self.log_operation(function)
        } else if feature == FEATURE_STORAGE && function == STORAGE_STORE {
            self.store_operation()
        } else if feature == FEATURE_STORAGE && function == STORAGE_LOAD {
            self.load_operation()
        } else if feature == FEATURE_STORAGE && function == STORAGE_EXISTS {
            self.exists_operation()
        } else {
            HOST_ERR_UNKNOWN_CALL
        }
    }

    /// Reverts the execution with `code`.
    pub fn revert(&mut self, code: u32)
        requires
            old(self).wf(),
        ensures
            final(self).wf(),
            final(self)@ == old(self)@.reverted(code),
    {
        self.costack.clear();
        self.input_map.clear();
        self.result_map.clear();
        self.storage.truncate(self.committed);
        self.reverts.push(code);
        proof {
            assert(self@.costack =~= Seq::<Seq<u8>>::empty());
            assert(self@.input_map =~= Seq::<EntryState>::empty());
            assert(self@.result_map =~= Seq::<EntryState>::empty());
            assert(self@.storage =~= old(self)@.storage.take(old(self)@.committed as int));
            assert(self@.log == old(self)@.log);
        }
    }

    /// Ends the execution in the ordinary way.
    pub fn exit(&mut self)
        requires
            old(self).wf(),
        ensures
            final(self).wf(),
            final(self)@ == old(self)@.exited(),
    {
        self.costack.clear();
        self.input_map.clear();
        self.result_map.clear();
        self.committed = self.storage.len();
        proof {
            assert(self@.costack =~= Seq::<Seq<u8>>::empty());
            assert(self@.input_map =~= Seq::<EntryState>::empty());
            assert(self@.result_map =~= Seq::<EntryState>::empty());
            assert(self@.storage == old(self)@.storage);
            assert(self@.log == old(self)@.log);
        }
    }
}

} // verus!
