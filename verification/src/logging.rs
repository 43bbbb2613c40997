//! The log operations of the host.
//!
//! A message reaches the sink either whole, as one fragment, or as a count
//! of fragments that are already on the channel. The host takes the
//! fragments off the channel and joins them in the order in which they were
//! pushed, so that writing a message piece by piece needs no buffer.

use vstd::prelude::*;
use vstd::string::*;
use crate::host::{
    concat, Host, HostState, RecordState, FEATURE_LOGGING, FRAME_LIMIT, LOG_DEBUG, LOG_ERROR,
    LOG_INFO, LOG_WARNING,
};
use crate::syscalls::{_system_call, push_costack};

verus! {

/// The levels of the log sink.
#[derive(Debug, Clone, Copy, PartialEq, Eq, Structural)]
pub enum LoggingFunctions {
    LogDebug,
    LogInfo,
    LogWarning,
    LogError,
}

impl LoggingFunctions {
    /// The function number of the level.
    pub open spec fn spec_number(self) -> u32 {
        match self {
            LoggingFunctions::LogDebug => LOG_DEBUG,
            LoggingFunctions::LogInfo => LOG_INFO,
            LoggingFunctions::LogWarning => LOG_WARNING,
            LoggingFunctions::LogError => LOG_ERROR,
        }
    }

    #[verifier::when_used_as_spec(spec_number)]
    pub fn number(self) -> (n: u32)
        ensures
            n == self.spec_number(),
    {
        match self {
            LoggingFunctions::LogDebug => LOG_DEBUG,
            LoggingFunctions::LogInfo => LOG_INFO,
            LoggingFunctions::LogWarning => LOG_WARNING,
            LoggingFunctions::LogError => LOG_ERROR,
        }
    }

    /// The level with the function number `n`, if there is one.
    pub fn from_number(n: u32) -> (level: Option<LoggingFunctions>)
        ensures
            (match level {
                Some(l) => l.spec_number() == n,
                None => n < LOG_DEBUG || n > LOG_ERROR,
            }),
    {
        if n == LOG_DEBUG {
            Some(LoggingFunctions::LogDebug)
        } else if n == LOG_INFO {
            Some(LoggingFunctions::LogInfo)
        } else if n == LOG_WARNING {
            Some(LoggingFunctions::LogWarning)
        } else if n == LOG_ERROR {
            Some(LoggingFunctions::LogError)
        } else {
            None
        }
    }
}

/// The state after `message` reached the sink at `level`.
pub open spec fn logged(s: HostState, level: u32, message: Seq<u8>) -> HostState {
    HostState { log: s.log.push(RecordState { level, message }), ..s }
}

/// The state after the top `count` frames left the channel and reached the
/// sink at `level` as one message, joined in the order in which they were
/// pushed.
pub open spec fn flushed(s: HostState, level: u32, count: nat) -> HostState
    recommends
        count <= s.costack.len(),
{
    HostState {
        costack: s.costack.take(s.costack.len() - count),
        log: s.log.push(
            RecordState { level, message: concat(s.costack.skip(s.costack.len() - count)) },
        ),
        ..s
    }
}

/// Sends `message` to the sink at `level` as a single fragment.
pub fn log_message(host: &mut Host, level: LoggingFunctions, message: &[u8])
    requires
        old(host).wf(),
        message@.len() < FRAME_LIMIT,
    ensures
        final(host).wf(),
        final(host)@ == logged(old(host)@, level.spec_number(), message@),
{
    push_costack(host, message);
    log_from_costack(host, level, 1);
    proof {
        let with_message = old(host)@.pushed(message@);
        let n = with_message.costack.len() as int;
        assert(with_message.costack.take(n - 1) =~= old(host)@.costack);
        let top = with_message.costack.skip(n - 1);
        assert(top.drop_last() =~= Seq::<Seq<u8>>::empty());
        assert(concat(top.drop_last()) =~= Seq::<u8>::empty());
        assert(concat(top) =~= message@);
    }
}

/// Sends the top `count` frames of the channel to the sink at `level` as
/// one message.
pub fn log_from_costack(host: &mut Host, level: LoggingFunctions, count: u8)
    requires
        old(host).wf(),
        count <= old(host)@.costack.len(),
    ensures
        final(host).wf(),
        final(host)@ == flushed(old(host)@, level.spec_number(), count as nat),
{
    let mut operand: Vec<u8> = Vec::new();
    operand.push(count);
    push_costack(host, operand.as_slice());
    let _ = _system_call(host, FEATURE_LOGGING, level.number());
    proof {
        let before = old(host)@.costack;
        let with_count = old(host)@.pushed(operand@);
        let n = with_count.costack.len() as int;
        assert(with_count.costack[n - 1] == operand@);
        assert(with_count.costack.take(n - 1 - count) =~= before.take(before.len() - count));
        assert(with_count.costack.subrange(n - 1 - count, n - 1) =~= before.skip(
            before.len() - count,
        ));
    }
}

/// Sends `msg` to the sink at the debug level.
pub fn log_debug(host: &mut Host, msg: &str)
    requires
        old(host).wf(),
        msg.spec_bytes().len() < FRAME_LIMIT,
    ensures
        final(host).wf(),
        final(host)@ == logged(old(host)@, LOG_DEBUG, msg.spec_bytes()),
{
    log_message(host, LoggingFunctions::LogDebug, msg.as_bytes());
}

/// Sends `msg` to the sink at the info level.
pub fn log_info(host: &mut Host, msg: &str)
    requires
        old(host).wf(),
        msg.spec_bytes().len() < FRAME_LIMIT,
    ensures
        final(host).wf(),
        final(host)@ == logged(old(host)@, LOG_INFO, msg.spec_bytes()),
{
    log_message(host, LoggingFunctions::LogInfo, msg.as_bytes());
}

/// Sends `msg` to the sink at the warning level.
pub fn log_warning(host: &mut Host, msg: &str)
    requires
        old(host).wf(),
        msg.spec_bytes().len() < FRAME_LIMIT,
    ensures
        final(host).wf(),
        final(host)@ == logged(old(host)@, LOG_WARNING, msg.spec_bytes()),
{
    log_message(host, LoggingFunctions::LogWarning, msg.as_bytes());
}

/// Sends `msg` to the sink at the error level.
pub fn log_error(host: &mut Host, msg: &str)
    requires
        old(host).wf(),
        msg.spec_bytes().len() < FRAME_LIMIT,
    ensures
        final(host).wf(),
        final(host)@ == logged(old(host)@, LOG_ERROR, msg.spec_bytes()),
{
    log_message(host, LoggingFunctions::LogError, msg.as_bytes());
}

/// Sends the top `count` frames to the sink at the debug level as one message.
pub fn log_debug_from_costack(host: &mut Host, count: u8)
    requires
        old(host).wf(),
        count <= old(host)@.costack.len(),
    ensures
        final(host).wf(),
        final(host)@ == flushed(old(host)@, LOG_DEBUG, count as nat),
{
    log_from_costack(host, LoggingFunctions::LogDebug, count);
}

/// Sends the top `count` frames to the sink at the info level as one message.
pub fn log_info_from_costack(host: &mut Host, count: u8)
    requires
        old(host).wf(),
        count <= old(host)@.costack.len(),
    ensures
        final(host).wf(),
        final(host)@ == flushed(old(host)@, LOG_INFO, count as nat),
{
    log_from_costack(host, LoggingFunctions::LogInfo, count);
}

/// Sends the top `count` frames to the sink at the warning level as one message.
pub fn log_warning_from_costack(host: &mut Host, count: u8)
    requires
        old(host).wf(),
        count <= old(host)@.costack.len(),
    ensures
        final(host).wf(),
        final(host)@ == flushed(old(host)@, LOG_WARNING, count as nat),
{
    log_from_costack(host, LoggingFunctions::LogWarning, count);
}

/// Sends the top `count` frames to the sink at the error level as one message.
pub fn log_error_from_costack(host: &mut Host, count: u8)
    requires
        old(host).wf(),
        count <= old(host)@.costack.len(),
    ensures
        final(host).wf(),
        final(host)@ == flushed(old(host)@, LOG_ERROR, count as nat),
{
    log_from_costack(host, LoggingFunctions::LogError, count);
}

} // verus!
