//! Marshalling core of a contract SDK: typed values travel between contract
//! code and its host over one shared, stack-shaped channel of byte frames.
//!
//! The execution context is an explicit [`host::Host`] value. Everything that
//! reads or writes the channel takes it by reference, so that the effect of
//! each operation on the channel can be stated and proved.
//!
//! - [`wire`], [`codec`], [`address`]: the wire format and its encoders.
//! - [`abi`]: the type tag of keyed values.
//! - [`error`]: the failures, and how statuses and sizes are judged.
//! - [`host`]: the execution context and the host's primitives.
//! - [`syscalls`]: typed access to the channel and to the keyed maps.
//! - [`logging`], [`storage`]: the numbered operations of the host.
//! - [`testing`]: printing a message fragment by fragment.
//! - [`fault`]: the terminal path of a fault.
//! - [`laws`]: what holds of the operations taken together.

pub mod abi;
pub mod address;
pub mod codec;
pub mod error;
pub mod fault;
pub mod host;
pub mod laws;
pub mod logging;
pub mod storage;
pub mod syscalls;
pub mod testing;
pub mod wire;
