//! The global store of the host.

use vstd::prelude::*;
use crate::error::SystemError;
use crate::host::{
    find_item, overlay, Host, HostState, ItemState, FEATURE_STORAGE, FRAME_LIMIT,
    HOST_ERR_MISSING_KEY, STORAGE_EXISTS, STORAGE_LOAD, STORAGE_STORE,
};
use crate::syscalls::{_system_call, discard_costack, pop_costack_fixed, push_costack};

verus! {

/// The operations of the global store.
#[derive(Debug, Clone, Copy, PartialEq, Eq, Structural)]
pub enum GlobalStorageFunctions {
    /// Reserved.
    Available,
    StoreState,
    LoadState,
    KeyExists,
}

impl GlobalStorageFunctions {
    /// The function number of the operation.
    pub open spec fn spec_number(self) -> u32 {
        match self {
            GlobalStorageFunctions::Available => 0,
            GlobalStorageFunctions::StoreState => STORAGE_STORE,
            GlobalStorageFunctions::LoadState => STORAGE_LOAD,
            GlobalStorageFunctions::KeyExists => STORAGE_EXISTS,
        }
    }

    #[verifier::when_used_as_spec(spec_number)]
    pub fn number(self) -> (n: u32)
        ensures
            n == self.spec_number(),
    {
        match self {
            GlobalStorageFunctions::Available => 0,
            GlobalStorageFunctions::StoreState => STORAGE_STORE,
            GlobalStorageFunctions::LoadState => STORAGE_LOAD,
            GlobalStorageFunctions::KeyExists => STORAGE_EXISTS,
        }
    }

    /// The operation with the function number `n`, if there is one.
    pub fn from_number(n: u32) -> (function: Option<GlobalStorageFunctions>)
        ensures
            (match function {
                Some(f) => f.spec_number() == n,
                None => n > STORAGE_EXISTS,
            }),
    {
        if n == 0 {
            Some(GlobalStorageFunctions::Available)
        } else if n == STORAGE_STORE {
            Some(GlobalStorageFunctions::StoreState)
        } else if n == STORAGE_LOAD {
            Some(GlobalStorageFunctions::LoadState)
        } else if n == STORAGE_EXISTS {
            Some(GlobalStorageFunctions::KeyExists)
        } else {
            None
        }
    }
}

/// The state after `value` was stored under `key`.
pub open spec fn stored(s: HostState, key: Seq<u8>, value: Seq<u8>) -> HostState {
    HostState { storage: s.storage.push(ItemState { key, value }), ..s }
}

/// Stores `value` under `key`.
pub fn store_state(host: &mut Host, key: &[u8], value: &[u8]) -> (r: Result<(), SystemError>)
    requires
        old(host).wf(),
        key@.len() < FRAME_LIMIT,
        value@.len() < FRAME_LIMIT,
    ensures
        final(host).wf(),
        r == Ok::<(), SystemError>(()),
        final(host)@ == stored(old(host)@, key@, value@),
{
    push_costack(host, value);
    push_costack(host, key);
    let status = _system_call(host, FEATURE_STORAGE, GlobalStorageFunctions::StoreState.number());
    proof {
        let pushed = old(host)@.pushed(value@).pushed(key@);
        assert(pushed.costack.take(pushed.costack.len() - 2) =~= old(host)@.costack);
    }
    match status {
        Ok(_) => Ok(()),
        Err(e) => Err(e),
    }
}

/// Loads what is stored under `key` into `value` and returns its true
/// length. Bytes that `value` cannot hold are not delivered. Where nothing
/// is stored under the key, the host's failure code comes back and `value`
/// keeps its bytes. The context is left as it was.
pub fn load_state_fixed(host: &mut Host, key: &[u8], value: &mut [u8]) -> (r: Result<
    usize,
    SystemError,
>)
    requires
        old(host).wf(),
        key@.len() < FRAME_LIMIT,
    ensures
        final(host).wf(),
        final(host)@ == old(host)@,
        final(value)@.len() == old(value)@.len(),
        (match find_item(old(host)@.storage, key@) {
            Some(item) => r == Ok::<usize, SystemError>(item.value.len() as usize)
                && item.value.len() < FRAME_LIMIT && final(value)@ == overlay(
                old(value)@,
                item.value,
            ),
            None => r == Err::<usize, SystemError>(SystemError::Generic(HOST_ERR_MISSING_KEY))
                && final(value)@ == old(value)@,
        }),
{
    push_costack(host, key);
    proof {
        let with_key = old(host)@.pushed(key@);
        assert(with_key.costack.last() == key@);
        assert(with_key.dropped(1).costack =~= old(host)@.costack);
    }
    match _system_call(host, FEATURE_STORAGE, GlobalStorageFunctions::LoadState.number()) {
        Err(e) => {
            discard_costack(host);
            Err(e)
        },
        Ok(_) => {
            proof {
                let item = find_item(old(host)@.storage, key@).unwrap();
                assert(host@.costack.last() == item.value);
                assert(host@.costack[host@.costack.len() - 1].len() < FRAME_LIMIT);
                assert(host@.popped().costack =~= old(host)@.costack);
            }
            match pop_costack_fixed(host, value) {
                Ok(size) => Ok(size as usize),
                Err(e) => Err(e),
            }
        },
    }
}

/// Loads what is stored under `key`, whole: a first load into an empty
/// buffer learns the true length, a second one into a buffer of that length
/// takes the bytes. The context is left as it was.
pub fn load_state(host: &mut Host, key: &[u8]) -> (r: Result<Vec<u8>, SystemError>)
    requires
        old(host).wf(),
        key@.len() < FRAME_LIMIT,
    ensures
        final(host).wf(),
        final(host)@ == old(host)@,
        (match r {
            Ok(bytes) => find_item(old(host)@.storage, key@).is_some() && bytes@ == find_item(
                old(host)@.storage,
                key@,
            ).unwrap().value,
            Err(e) => find_item(old(host)@.storage, key@).is_none() && e == SystemError::Generic(
                HOST_ERR_MISSING_KEY,
            ),
        }),
{
    let mut buffer: Vec<u8> = Vec::new();
    let size: usize = match load_state_fixed(host, key, buffer.as_mut_slice()) {
        Ok(size) => size,
        Err(e) => {
            return Err(e);
        },
    };
    buffer.resize(size, 0u8);
    match load_state_fixed(host, key, buffer.as_mut_slice()) {
        Ok(_) => {
            proof {
                let item = find_item(old(host)@.storage, key@).unwrap();
                assert(buffer@ =~= item.value);
            }
            Ok(buffer)
        },
        Err(e) => Err(e),
    }
}

} // verus!
