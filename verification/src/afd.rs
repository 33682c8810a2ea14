//! The vocabulary of the socket poll request: event flags, the request
//! descriptor and the status block in which the kernel answers.

use vstd::prelude::*;

verus! {

/// Data can be received.
pub const POLL_RECEIVE: u32 = 0x001;

/// Expedited data can be received.
pub const POLL_RECEIVE_EXPEDITED: u32 = 0x002;

/// Data can be sent.
pub const POLL_SEND: u32 = 0x004;

/// The peer closed its side of the connection.
pub const POLL_DISCONNECT: u32 = 0x008;

/// The connection was aborted.
pub const POLL_ABORT: u32 = 0x010;

/// The socket was closed on this side.
pub const POLL_LOCAL_CLOSE: u32 = 0x020;

/// A connection can be accepted.
pub const POLL_ACCEPT: u32 = 0x080;

/// An outgoing connection failed.
pub const POLL_CONNECT_FAIL: u32 = 0x100;

/// Every flag that a poll request may carry.
pub const KNOWN_EVENTS: u32 = POLL_RECEIVE | POLL_RECEIVE_EXPEDITED | POLL_SEND | POLL_DISCONNECT
    | POLL_ABORT | POLL_LOCAL_CLOSE | POLL_ACCEPT | POLL_CONNECT_FAIL;

/// The flags that stand for readable.
pub const READABLE_FLAGS: u32 = POLL_RECEIVE | POLL_ACCEPT | POLL_DISCONNECT;

/// The flags that stand for writable.
pub const WRITABLE_FLAGS: u32 = POLL_SEND;

/// The flags that are reported whether or not the caller asked for them.
pub const ALWAYS_FLAGS: u32 = POLL_CONNECT_FAIL | POLL_ABORT;

/// The status with which a cancelled request completes.
pub const STATUS_CANCELLED: i32 = -1073741536;

/// The error with which a submission reports that it is under way.
pub const ERROR_IO_PENDING: i32 = 997;

/// The error with which a submission reports a closed handle.
pub const ERROR_INVALID_HANDLE: i32 = 6;

/// The error with which a wait on the completion port reports that its time
/// ran out.
pub const WAIT_TIMEOUT: i32 = 258;

/// A poll request never times out by itself.
pub const POLL_TIMEOUT_INFINITE: i64 = 0x7fff_ffff_ffff_ffff;

/// Whether a kernel status denotes success.
pub open spec fn spec_nt_success(status: i32) -> bool {
    status >= 0
}

/// Whether a kernel status denotes success.
#[verifier::when_used_as_spec(spec_nt_success)]
pub fn nt_success(status: i32) -> (ok: bool)
    ensures
        ok == spec_nt_success(status),
{
    status >= 0
}

/// The status block that the kernel fills in when a request completes.
#[derive(Clone, Copy, Debug, PartialEq, Eq, Structural)]
pub struct IoStatusBlock {
    pub status: i32,
    pub information: usize,
}

impl IoStatusBlock {
    /// A block in which nothing has been reported yet.
    pub fn zeroed() -> (block: IoStatusBlock)
        ensures
            block == (IoStatusBlock { status: 0, information: 0 }),
    {
        IoStatusBlock { status: 0, information: 0 }
    }
}

/// One handle of a poll request: what is asked of it, and what is reported.
#[derive(Clone, Copy, Debug, PartialEq, Eq, Structural)]
pub struct AfdPollHandleInfo {
    pub handle: u64,
    pub events: u32,
    pub status: i32,
}

/// The descriptor of a poll request. It holds one handle slot.
#[derive(Clone, Copy, Debug, PartialEq, Eq, Structural)]
pub struct AfdPollInfo {
    pub timeout: i64,
    pub number_of_handles: u32,
    pub exclusive: u32,
    pub handles: AfdPollHandleInfo,
}

impl AfdPollInfo {
    /// A descriptor with every field zero.
    pub fn zeroed() -> (info: AfdPollInfo)
        ensures
            info == (AfdPollInfo {
                timeout: 0,
                number_of_handles: 0,
                exclusive: 0,
                handles: AfdPollHandleInfo { handle: 0, events: 0, status: 0 },
            }),
    {
        AfdPollInfo {
            timeout: 0,
            number_of_handles: 0,
            exclusive: 0,
            handles: AfdPollHandleInfo { handle: 0, events: 0, status: 0 },
        }
    }
}

} // verus!
