//! Pipe policies: the settings of a pipe that a driver lets its user read and write.

use vstd::prelude::*;

verus! {

/// Identifies which pipe policy to read (used with `get_pipe_policy`).
///
/// Each variant corresponds to one of the WinUSB `PIPE_TRANSFER_*` policy
/// constants; other platforms may support a subset of these.
#[derive(Debug, Clone, Copy, PartialEq, Eq, Structural)]
pub enum PipePolicyKind {
    /// Terminate an OUT transfer with a zero-length packet when the transfer
    /// length is a multiple of the max packet size (OUT pipes only).
    ShortPacketTerminate,
    /// Automatically issue a clear-stall request when an IN pipe stalls,
    /// without requiring a `reset_pipe` call (IN pipes only).
    AutoClearStall,
    /// Per-pipe I/O timeout in milliseconds. 0 disables the timeout.
    TransferTimeout,
    /// Allow short IN packets; if false the pipe returns an error on short reads.
    AllowPartialReads,
    /// When `AllowPartialReads` is true, automatically flush unread partial
    /// data at the start of the next transfer (IN pipes only).
    AutoFlush,
    /// Enable raw I/O mode: transfers go directly to the kernel, bypassing
    /// buffering (IN pipes only; requires `AllowPartialReads = false`).
    RawIo,
    /// Reset the pipe state when the device resumes from suspend.
    ResetPipeOnResume,
}

/// A pipe policy value, returned by `get_pipe_policy` and accepted by
/// `set_pipe_policy`. Each variant carries its own payload so callers never
/// need to handle raw bytes.
#[derive(Debug, Clone, Copy, PartialEq, Eq, Structural)]
pub enum PipePolicy {
    ShortPacketTerminate(bool),
    AutoClearStall(bool),
    /// Transfer timeout in milliseconds (`0` = no timeout).
    TransferTimeout(u32),
    AllowPartialReads(bool),
    AutoFlush(bool),
    RawIo(bool),
    ResetPipeOnResume(bool),
}

/// Which policy a value belongs to.
pub open spec fn policy_kind(policy: PipePolicy) -> PipePolicyKind {
    match policy {
        PipePolicy::ShortPacketTerminate(_) => PipePolicyKind::ShortPacketTerminate,
        PipePolicy::AutoClearStall(_) => PipePolicyKind::AutoClearStall,
        PipePolicy::TransferTimeout(_) => PipePolicyKind::TransferTimeout,
        PipePolicy::AllowPartialReads(_) => PipePolicyKind::AllowPartialReads,
        PipePolicy::AutoFlush(_) => PipePolicyKind::AutoFlush,
        PipePolicy::RawIo(_) => PipePolicyKind::RawIo,
        PipePolicy::ResetPipeOnResume(_) => PipePolicyKind::ResetPipeOnResume,
    }
}

/// The payload of a boolean policy value.
pub open spec fn policy_bool(policy: PipePolicy) -> Option<bool> {
    match policy {
        PipePolicy::ShortPacketTerminate(v) => Some(v),
        PipePolicy::AutoClearStall(v) => Some(v),
        PipePolicy::TransferTimeout(_) => None,
        PipePolicy::AllowPartialReads(v) => Some(v),
        PipePolicy::AutoFlush(v) => Some(v),
        PipePolicy::RawIo(v) => Some(v),
        PipePolicy::ResetPipeOnResume(v) => Some(v),
    }
}

/// The value of a boolean policy of the given kind.
pub open spec fn bool_policy(kind: PipePolicyKind, v: bool) -> PipePolicy
    recommends
        kind != PipePolicyKind::TransferTimeout,
{
    match kind {
        PipePolicyKind::ShortPacketTerminate => PipePolicy::ShortPacketTerminate(v),
        PipePolicyKind::AutoClearStall => PipePolicy::AutoClearStall(v),
        PipePolicyKind::TransferTimeout => PipePolicy::TransferTimeout(0),
        PipePolicyKind::AllowPartialReads => PipePolicy::AllowPartialReads(v),
        PipePolicyKind::AutoFlush => PipePolicy::AutoFlush(v),
        PipePolicyKind::RawIo => PipePolicy::RawIo(v),
        PipePolicyKind::ResetPipeOnResume => PipePolicy::ResetPipeOnResume(v),
    }
}

impl PipePolicy {
    /// Return the `PipePolicyKind` discriminant for this policy value.
    pub fn kind(&self) -> (kind: PipePolicyKind)
        ensures
            kind == policy_kind(*self),
    {
        match self {
            PipePolicy::ShortPacketTerminate(_) => PipePolicyKind::ShortPacketTerminate,
            PipePolicy::AutoClearStall(_) => PipePolicyKind::AutoClearStall,
            PipePolicy::TransferTimeout(_) => PipePolicyKind::TransferTimeout,
            PipePolicy::AllowPartialReads(_) => PipePolicyKind::AllowPartialReads,
            PipePolicy::AutoFlush(_) => PipePolicyKind::AutoFlush,
            PipePolicy::RawIo(_) => PipePolicyKind::RawIo,
            PipePolicy::ResetPipeOnResume(_) => PipePolicyKind::ResetPipeOnResume,
        }
    }

    /// Extract the boolean payload for bool-valued policies.
    /// Returns `None` for `TransferTimeout` (which is u32-valued).
    pub fn as_bool(&self) -> (v: Option<bool>)
        ensures
            v == policy_bool(*self),
    {
        match self {
            PipePolicy::ShortPacketTerminate(v) => Some(*v),
            PipePolicy::AutoClearStall(v) => Some(*v),
            PipePolicy::TransferTimeout(_) => None,
            PipePolicy::AllowPartialReads(v) => Some(*v),
            PipePolicy::AutoFlush(v) => Some(*v),
            PipePolicy::RawIo(v) => Some(*v),
            PipePolicy::ResetPipeOnResume(v) => Some(*v),
        }
    }
}

/// Every policy but the transfer timeout is boolean, and a boolean policy value is made of its
/// kind and its payload.
pub proof fn law_policy_is_kind_and_payload(policy: PipePolicy)
    ensures
        policy_bool(policy) is None <==> policy_kind(policy) == PipePolicyKind::TransferTimeout,
        policy_bool(policy) is Some ==> bool_policy(policy_kind(policy), policy_bool(policy)->0)
            == policy,
{
}

/// Each policy value has the kind and the payload of its own variant, and is made of them.
pub proof fn law_each_policy_has_its_own_kind(v: bool, ms: u32)
    ensures
        policy_kind(PipePolicy::ShortPacketTerminate(v)) == PipePolicyKind::ShortPacketTerminate,
        policy_kind(PipePolicy::AutoClearStall(v)) == PipePolicyKind::AutoClearStall,
        policy_kind(PipePolicy::TransferTimeout(ms)) == PipePolicyKind::TransferTimeout,
        policy_kind(PipePolicy::AllowPartialReads(v)) == PipePolicyKind::AllowPartialReads,
        policy_kind(PipePolicy::AutoFlush(v)) == PipePolicyKind::AutoFlush,
        policy_kind(PipePolicy::RawIo(v)) == PipePolicyKind::RawIo,
        policy_kind(PipePolicy::ResetPipeOnResume(v)) == PipePolicyKind::ResetPipeOnResume,
        policy_bool(PipePolicy::ShortPacketTerminate(v)) == Some(v),
        policy_bool(PipePolicy::AutoClearStall(v)) == Some(v),
        policy_bool(PipePolicy::TransferTimeout(ms)) == None::<bool>,
        policy_bool(PipePolicy::AllowPartialReads(v)) == Some(v),
        policy_bool(PipePolicy::AutoFlush(v)) == Some(v),
        policy_bool(PipePolicy::RawIo(v)) == Some(v),
        policy_bool(PipePolicy::ResetPipeOnResume(v)) == Some(v),
{
}

} // verus!
