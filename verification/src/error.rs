//! Failures that are handed back to the immediate caller.

use vstd::prelude::*;

verus! {

/// The host's reserved high bit: a status at or above it is a failure code,
/// one below it a length or a count.
pub const HOST_ERROR_THRESHOLD: u32 = 0x8000_0000;

/// A failure signalled by the host itself.
#[derive(Debug, Clone, Copy, PartialEq, Eq, Structural)]
pub enum SystemError {
    /// The host answered with this failure code.
    Generic(u32),
    /// The host handed back a frame of a size the caller cannot hold.
    UnexpectedSize,
}

/// A failure of a typed read.
#[derive(Debug, Clone, Copy, PartialEq, Eq, Structural)]
pub enum RecoverableError {
    /// Nothing was there to pop or to look up.
    ItemDoesntExist,
    /// The frame holds more bytes than the type asked for.
    StackItemTooLarge,
    /// The frame holds fewer bytes than the type asked for.
    StackItemTooSmall,
    /// The stored type tag is not the one asked for.
    TypeMismatch,
}

/// What a raw host status means: a success value below the threshold, a
/// failure code at or above it.
pub open spec fn status_outcome(status: u32) -> Result<u32, SystemError> {
    if status >= HOST_ERROR_THRESHOLD {
        Err(SystemError::Generic(status))
    } else {
        Ok(status)
    }
}

/// Sorts a raw host status into success and failure.
pub fn classify_status(status: u32) -> (r: Result<u32, SystemError>)
    ensures
        r == status_outcome(status),
{
    if status >= HOST_ERROR_THRESHOLD {
        Err(SystemError::Generic(status))
    } else {
        Ok(status)
    }
}

/// What a frame of `actual` bytes means to a reader that wants exactly
/// `expected` bytes.
pub open spec fn size_outcome(actual: nat, expected: nat) -> Result<(), RecoverableError> {
    if actual > expected {
        Err(RecoverableError::StackItemTooLarge)
    } else if actual < expected {
        Err(RecoverableError::StackItemTooSmall)
    } else {
        Ok(())
    }
}

/// Accepts a frame only if it has exactly the expected size.
pub fn check_frame_size(actual: usize, expected: usize) -> (r: Result<(), RecoverableError>)
    ensures
        r == size_outcome(actual as nat, expected as nat),
{
    if actual > expected {
        Err(RecoverableError::StackItemTooLarge)
    } else if actual < expected {
        Err(RecoverableError::StackItemTooSmall)
    } else {
        Ok(())
    }
}

/// What the status of a peek by key means to a reader that expects the
/// tag `expected`: a failure code says that nothing is stored under the key,
/// another tag that what is stored has another type.
pub open spec fn descriptor_outcome(status: u32, expected: u32) -> Result<(), RecoverableError> {
    if status >= HOST_ERROR_THRESHOLD {
        Err(RecoverableError::ItemDoesntExist)
    } else if status != expected {
        Err(RecoverableError::TypeMismatch)
    } else {
        Ok(())
    }
}

/// Accepts the status of a peek by key only if it is the expected tag.
pub fn check_descriptor(status: u32, expected: u32) -> (r: Result<(), RecoverableError>)
    ensures
        r == descriptor_outcome(status, expected),
{
    if status >= HOST_ERROR_THRESHOLD {
        Err(RecoverableError::ItemDoesntExist)
    } else if status != expected {
        Err(RecoverableError::TypeMismatch)
    } else {
        Ok(())
    }
}

} // verus!
