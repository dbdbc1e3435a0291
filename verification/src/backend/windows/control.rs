//! Synchronous transfers: the timeout of the pipe is set, and the transfer is issued.

use vstd::prelude::*;
use std::time::Duration;

use crate::backend::windows::policy::{
    le32_bytes, set_pipe_timeout, PolicyValue, CONTROL_PIPE_ID, PIPE_TRANSFER_TIMEOUT,
};
use crate::backend::windows::transfer::transferred;
use crate::error::{hresult_meaning, HresultError, UsbError};
use crate::protocol::control::{clamped_millis, duration_millis, timeout_millis, ControlSetup};

verus! {

/// How long a read of a descriptor may take, in milliseconds.
pub const DESCRIPTOR_TIMEOUT_MS: u32 = 1000;

/// A transfer that is ready to be issued on a pipe. A policy that is present is set before,
/// and it does not matter whether that succeeds.
#[derive(Debug)]
pub struct PipeCall {
    pub pipe: u8,
    pub policy: Option<PolicyValue>,
}

/// Whether a call sets the timeout of its pipe. A timeout of 0 leaves the pipe as it is.
pub open spec fn sets_timeout(c: PipeCall, pipe: u8, timeout_ms: u32) -> bool {
    &&& c.pipe == pipe
    &&& match c.policy {
        Some(v) => timeout_ms > 0 && v.id == PIPE_TRANSFER_TIMEOUT && v.bytes@ == le32_bytes(
            timeout_ms,
        ),
        None => timeout_ms == 0,
    }
}

/// Prepares a transfer on the pipe of an endpoint. Bulk and interrupt endpoints are alike.
pub fn pipe_call(endpoint: u8, timeout: Duration) -> (c: PipeCall)
    ensures
        sets_timeout(c, endpoint, clamped_millis(duration_millis(timeout))),
{
    PipeCall { pipe: endpoint, policy: set_pipe_timeout(timeout_millis(timeout)) }
}

/// A control transfer that is ready to be issued. Its packet is the one that the caller gave.
/// Where there is no data buffer, an empty one is used.
#[derive(Debug)]
pub struct ControlCall {
    pub call: PipeCall,
    pub packet: ControlSetup,
}

/// Prepares a control transfer.
pub fn do_control_transfer(setup: ControlSetup, timeout_ms: u32) -> (c: ControlCall)
    ensures
        sets_timeout(c.call, CONTROL_PIPE_ID, timeout_ms),
        c.packet == setup,
{
    ControlCall {
        call: PipeCall { pipe: CONTROL_PIPE_ID, policy: set_pipe_timeout(timeout_ms) },
        packet: setup,
    }
}

/// Prepares a control transfer with the timeout of the caller.
pub fn control_transfer(setup: ControlSetup, timeout: Duration) -> (c: ControlCall)
    ensures
        sets_timeout(c.call, CONTROL_PIPE_ID, clamped_millis(duration_millis(timeout))),
        c.packet == setup,
{
    do_control_transfer(setup, timeout_millis(timeout))
}

/// How many bytes a transfer has moved.
pub fn transfer_count(r: Result<u32, HresultError>) -> (n: Result<usize, UsbError>)
    ensures
        n == transferred(r),
        r matches Ok(count) ==> n is Ok && n->Ok_0 == count,
        r matches Err(e) ==> n == Err::<usize, UsbError>(hresult_meaning(e)),
{
    match r {
        Ok(n) => Ok(n as usize),
        Err(e) => Err(UsbError::from(e)),
    }
}

/// For every number of bytes that the system tells, that number comes out, and two different
/// numbers never come out alike.
pub proof fn law_transfer_count_is_the_number(m: u32, n: u32)
    ensures
        ({
            let r = transferred(Ok(n));
            r is Ok && r->Ok_0 == n
        }),
        transferred(Ok(m)) == transferred(Ok(n)) ==> m == n,
{
}

/// A call that sets the timeout of its pipe does so with the policy for timeouts, whose four
/// bytes make the number of milliseconds. Only where that is 0 there is no policy.
pub proof fn law_timeout_is_set_in_full(c: PipeCall, pipe: u8, timeout_ms: u32)
    requires
        sets_timeout(c, pipe, timeout_ms),
    ensures
        c.pipe == pipe,
        c.policy is None <==> timeout_ms == 0,
        c.policy matches Some(v) ==> {
            &&& v.id == 3
            &&& v.bytes@.len() == 4
            &&& v.bytes@[0] + 0x100 * v.bytes@[1] + 0x1_0000 * v.bytes@[2] + 0x100_0000 * v.bytes@[3]
                == timeout_ms
        },
{
}

/// Control transfers go through pipe 0, and descriptors are waited for one second.
pub proof fn law_control_pipe()
    ensures
        CONTROL_PIPE_ID == 0,
        DESCRIPTOR_TIMEOUT_MS == 1000,
{
}

/// Counting gives back the number of bytes that the system told, and the meaning of a failure.
pub proof fn law_counting_gives_the_number(
    n: u32,
    e: HresultError,
    counted: Result<usize, UsbError>,
    failed: Result<usize, UsbError>,
)
    requires
        call_ensures(transfer_count, (Ok::<u32, HresultError>(n),), counted),
        call_ensures(transfer_count, (Err::<u32, HresultError>(e),), failed),
    ensures
        counted is Ok && counted->Ok_0 == n,
        failed == Err::<usize, UsbError>(hresult_meaning(e)),
{
}

} // verus!
