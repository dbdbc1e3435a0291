//! Pipe policies as WinUSB stores them.

use vstd::prelude::*;

use crate::protocol::pipe_policy::{
    bool_policy, policy_bool, policy_kind, PipePolicy, PipePolicyKind,
};

verus! {

/// The number of the policy that holds the timeout of a pipe.
pub const PIPE_TRANSFER_TIMEOUT: u32 = 0x03;

/// The pipe of control transfers.
pub const CONTROL_PIPE_ID: u8 = 0x00;

/// The number of a policy, and whether its value is a 4-byte integer instead of one byte.
pub open spec fn policy_params(kind: PipePolicyKind) -> (u32, bool) {
    match kind {
        PipePolicyKind::ShortPacketTerminate => (0x01, false),
        PipePolicyKind::AutoClearStall => (0x02, false),
        PipePolicyKind::TransferTimeout => (PIPE_TRANSFER_TIMEOUT, true),
        PipePolicyKind::AllowPartialReads => (0x05, false),
        PipePolicyKind::AutoFlush => (0x06, false),
        PipePolicyKind::RawIo => (0x07, false),
        PipePolicyKind::ResetPipeOnResume => (0x09, false),
    }
}

/// Map a [`PipePolicyKind`] to its WinUSB policy constant and whether the
/// value is a 4-byte ULONG (`true`) or a 1-byte UCHAR (`false`).
pub fn winusb_policy_params(kind: PipePolicyKind) -> (r: (u32, bool))
    ensures
        r == policy_params(kind),
{
    match kind {
        PipePolicyKind::ShortPacketTerminate => (0x01, false),
        PipePolicyKind::AutoClearStall => (0x02, false),
        PipePolicyKind::TransferTimeout => (PIPE_TRANSFER_TIMEOUT, true),
        PipePolicyKind::AllowPartialReads => (0x05, false),
        PipePolicyKind::AutoFlush => (0x06, false),
        PipePolicyKind::RawIo => (0x07, false),
        PipePolicyKind::ResetPipeOnResume => (0x09, false),
    }
}

/// The four bytes of an integer, the least significant first.
pub open spec fn le32_bytes(n: u32) -> Seq<u8> {
    seq![
        (n % 0x100) as u8,
        (n / 0x100 % 0x100) as u8,
        (n / 0x1_0000 % 0x100) as u8,
        (n / 0x100_0000) as u8,
    ]
}

/// The integer of four bytes, the least significant first.
pub open spec fn le32(b: Seq<u8>) -> u32 {
    (b[0] + 0x100 * b[1] + 0x1_0000 * b[2] + 0x100_0000 * b[3]) as u32
}

/// A policy as it is written.
#[derive(Debug)]
pub struct PolicyValue {
    pub id: u32,
    pub bytes: Vec<u8>,
}

/// The number of bytes of a policy.
pub open spec fn policy_size(kind: PipePolicyKind) -> int {
    if policy_params(kind).1 {
        4
    } else {
        1
    }
}

/// The bytes of a policy value.
pub open spec fn policy_bytes(policy: PipePolicy) -> Seq<u8> {
    match policy {
        PipePolicy::TransferTimeout(ms) => le32_bytes(ms),
        _ => seq![
            if policy_bool(policy) == Some(true) {
                1u8
            } else {
                0u8
            },
        ],
    }
}

/// The policy value that bytes tell. Any byte but 0 stands for true.
pub open spec fn policy_of(kind: PipePolicyKind, bytes: Seq<u8>) -> PipePolicy {
    match kind {
        PipePolicyKind::TransferTimeout => PipePolicy::TransferTimeout(le32(bytes)),
        _ => bool_policy(kind, bytes[0] != 0),
    }
}

/// Writes the four bytes of an integer.
fn write_le32(n: u32) -> (bytes: Vec<u8>)
    ensures
        bytes@ == le32_bytes(n),
{
    let mut bytes: Vec<u8> = Vec::new();
    bytes.push((n % 0x100) as u8);
    bytes.push((n / 0x100 % 0x100) as u8);
    bytes.push((n / 0x1_0000 % 0x100) as u8);
    bytes.push((n / 0x100_0000) as u8);
    assert(bytes@ =~= le32_bytes(n));
    bytes
}

/// The number and the bytes that set a policy.
pub fn set_pipe_policy(policy: PipePolicy) -> (v: PolicyValue)
    ensures
        v.id == policy_params(policy_kind(policy)).0,
        v.bytes@ == policy_bytes(policy),
{
    let (id, _) = winusb_policy_params(policy.kind());
    let bytes: Vec<u8> = match policy {
        PipePolicy::TransferTimeout(ms) => write_le32(ms),
        _ => {
            let mut bytes: Vec<u8> = Vec::new();
            match policy.as_bool() {
                Some(true) => bytes.push(1),
                _ => bytes.push(0),
            }
            assert(bytes@ =~= policy_bytes(policy));
            bytes
        },
    };
    PolicyValue { id, bytes }
}

/// The number of a policy, and the number of bytes to read of it.
pub fn policy_request(kind: PipePolicyKind) -> (r: (u32, usize))
    ensures
        r.0 == policy_params(kind).0,
        r.1 == policy_size(kind),
{
    let (id, is_u32) = winusb_policy_params(kind);
    if is_u32 {
        (id, 4)
    } else {
        (id, 1)
    }
}

/// Takes a policy from the bytes that were read of it.
pub fn get_pipe_policy(kind: PipePolicyKind, bytes: &[u8]) -> (policy: PipePolicy)
    requires
        bytes@.len() == policy_size(kind),
    ensures
        policy == policy_of(kind, bytes@),
{
    match kind {
        PipePolicyKind::TransferTimeout => PipePolicy::TransferTimeout(
            bytes[0] as u32 + 0x100 * (bytes[1] as u32) + 0x1_0000 * (bytes[2] as u32) + 0x100_0000
                * (bytes[3] as u32),
        ),
        PipePolicyKind::ShortPacketTerminate => PipePolicy::ShortPacketTerminate(bytes[0] != 0),
        PipePolicyKind::AutoClearStall => PipePolicy::AutoClearStall(bytes[0] != 0),
        PipePolicyKind::AllowPartialReads => PipePolicy::AllowPartialReads(bytes[0] != 0),
        PipePolicyKind::AutoFlush => PipePolicy::AutoFlush(bytes[0] != 0),
        PipePolicyKind::RawIo => PipePolicy::RawIo(bytes[0] != 0),
        PipePolicyKind::ResetPipeOnResume => PipePolicy::ResetPipeOnResume(bytes[0] != 0),
    }
}

/// The policy that sets the timeout of a pipe before a transfer. A timeout of 0 leaves the pipe
/// as it is.
pub fn set_pipe_timeout(timeout_ms: u32) -> (r: Option<PolicyValue>)
    ensures
        match r {
            Some(v) => timeout_ms > 0 && v.id == PIPE_TRANSFER_TIMEOUT && v.bytes@ == le32_bytes(
                timeout_ms,
            ),
            None => timeout_ms == 0,
        },
{
    if timeout_ms > 0 {
        Some(PolicyValue { id: PIPE_TRANSFER_TIMEOUT, bytes: write_le32(timeout_ms) })
    } else {
        None
    }
}

/// A policy is read as it was set.
pub proof fn law_policy_reads_back(policy: PipePolicy)
    ensures
        policy_bytes(policy).len() == policy_size(policy_kind(policy)),
        policy_of(policy_kind(policy), policy_bytes(policy)) == policy,
{
    if let PipePolicy::TransferTimeout(ms) = policy {
        let b = le32_bytes(ms);
        assert(b[0] + 0x100 * b[1] + 0x1_0000 * b[2] + 0x100_0000 * b[3] == ms);
    }
}

/// No two policies have the same number.
pub proof fn law_policies_have_distinct_numbers(a: PipePolicyKind, b: PipePolicyKind)
    requires
        policy_params(a).0 == policy_params(b).0,
    ensures
        a == b,
{
}

/// Each policy has the number that WinUSB gives it. Only the timeout takes four bytes.
pub proof fn law_policies_have_their_numbers(kind: PipePolicyKind)
    ensures
        policy_params(PipePolicyKind::ShortPacketTerminate).0 == 1,
        policy_params(PipePolicyKind::AutoClearStall).0 == 2,
        policy_params(PipePolicyKind::TransferTimeout).0 == 3,
        policy_params(PipePolicyKind::AllowPartialReads).0 == 5,
        policy_params(PipePolicyKind::AutoFlush).0 == 6,
        policy_params(PipePolicyKind::RawIo).0 == 7,
        policy_params(PipePolicyKind::ResetPipeOnResume).0 == 9,
        policy_params(kind).1 <==> kind is TransferTimeout,
        kind is TransferTimeout ==> policy_size(kind) == 4,
        !(kind is TransferTimeout) ==> policy_size(kind) == 1,
{
}

/// A timeout is written in four bytes that make its number of milliseconds, and a switch in one
/// that is 1 where it is on and 0 where it is off. Any byte but 0 is read as on.
pub proof fn law_policy_bytes(policy: PipePolicy, kind: PipePolicyKind, bytes: Seq<u8>)
    ensures
        policy matches PipePolicy::TransferTimeout(ms) ==> {
            let b = policy_bytes(policy);
            &&& b.len() == 4
            &&& b[0] + 0x100 * b[1] + 0x1_0000 * b[2] + 0x100_0000 * b[3] == ms
        },
        policy !is TransferTimeout ==> {
            let b = policy_bytes(policy);
            b.len() == 1 && b[0] == if policy_bool(policy) == Some(true) {
                1int
            } else {
                0int
            }
        },
        kind is TransferTimeout ==> (policy_of(kind, bytes) matches PipePolicy::TransferTimeout(ms)
            && ms == bytes[0] + 0x100 * bytes[1] + 0x1_0000 * bytes[2] + 0x100_0000 * bytes[3]),
        kind !is TransferTimeout ==> policy_kind(policy_of(kind, bytes)) == kind && policy_bool(
            policy_of(kind, bytes),
        ) == Some(bytes[0] != 0),
{
}

} // verus!
