//! Transfers that run as a task of their own.
//!
//! The task owns its data: a read takes the buffer of the caller, and gives it back with the
//! result. Where the task is lost, so is the buffer.

use vstd::prelude::*;
use vstd::string::StringExecFns;
use std::time::Duration;

use crate::api::device_handle::DeviceHandle;
use crate::backend::UsbDevice;
use crate::error::{ErrorView, UsbError};

verus! {

broadcast use vstd::string::group_string_axioms;

/// Which transfer a task makes.
#[derive(Debug, Clone, Copy, PartialEq, Eq, Structural)]
pub enum TransferKind {
    Bulk,
    Interrupt,
}

/// The complaint about a task that was lost.
pub open spec fn lost_task_text(reason: Seq<char>) -> Seq<char> {
    "spawn_blocking failed: "@ + reason
}

/// The error of a task that was lost.
fn lost_task(reason: &str) -> (e: UsbError)
    ensures
        e@ == ErrorView::Other(lost_task_text(reason@)),
{
    UsbError::Other("spawn_blocking failed: ".to_owned().concat(reason))
}

/// Takes the buffer of the caller for a read, and leaves an empty one.
pub fn take_buffer(buf: &mut Vec<u8>) -> (taken: Vec<u8>)
    ensures
        taken@ == old(buf)@,
        final(buf)@ == Seq::<u8>::empty(),
{
    let mut taken: Vec<u8> = Vec::new();
    std::mem::swap(&mut taken, buf);
    taken
}

/// The task of a read into a buffer that the task owns.
pub fn read_task<D: UsbDevice>(
    handle: &DeviceHandle<D>,
    kind: TransferKind,
    endpoint: u8,
    buf: &mut Vec<u8>,
    timeout: Duration,
) -> (r: Result<usize, UsbError>)
    ensures
        final(buf)@.len() == old(buf)@.len(),
        kind == TransferKind::Bulk ==> exists|b: &mut [u8]|
            {
                &&& (*b)@ == old(buf)@
                &&& final(b)@ == final(buf)@
                &&& #[trigger] call_ensures(
                    D::async_bulk_read,
                    (&handle.device(), endpoint, b, timeout),
                    r,
                )
            },
        kind == TransferKind::Interrupt ==> exists|b: &mut [u8]|
            {
                &&& (*b)@ == old(buf)@
                &&& final(b)@ == final(buf)@
                &&& #[trigger] call_ensures(
                    D::async_interrupt_read,
                    (&handle.device(), endpoint, b, timeout),
                    r,
                )
            },
{
    match kind {
        TransferKind::Bulk => {
            let r: Result<usize, UsbError> = handle.async_bulk_read(
                endpoint,
                buf.as_mut_slice(),
                timeout,
            );
            assert(exists|b: &mut [u8]|
                (*b)@ == old(buf)@ && final(b)@ == buf@ && #[trigger] call_ensures(
                    D::async_bulk_read,
                    (&handle.device(), endpoint, b, timeout),
                    r,
                ));
            r
        },
        TransferKind::Interrupt => {
            let r: Result<usize, UsbError> = handle.async_interrupt_read(
                endpoint,
                buf.as_mut_slice(),
                timeout,
            );
            assert(exists|b: &mut [u8]|
                (*b)@ == old(buf)@ && final(b)@ == buf@ && #[trigger] call_ensures(
                    D::async_interrupt_read,
                    (&handle.device(), endpoint, b, timeout),
                    r,
                ));
            r
        },
    }
}

/// Ends a read, given how its task ended: the caller gets the buffer back.
pub fn finish_read(
    buf: &mut Vec<u8>,
    joined: Result<(Vec<u8>, Result<usize, UsbError>), String>,
) -> (r: Result<usize, UsbError>)
    ensures
        match joined {
            Ok((b, result)) => r == result && final(buf)@ == b@,
            Err(reason) => {
                &&& r is Err
                &&& r->Err_0@ == ErrorView::Other(lost_task_text(reason@))
                &&& final(buf)@ == old(buf)@
            },
        },
{
    match joined {
        Ok((b, result)) => {
            *buf = b;
            result
        },
        Err(reason) => Err(lost_task(reason.as_str())),
    }
}

/// The task of a write.
pub fn write_task<D: UsbDevice>(
    handle: &DeviceHandle<D>,
    kind: TransferKind,
    endpoint: u8,
    data: &[u8],
    timeout: Duration,
) -> (r: Result<usize, UsbError>)
    ensures
        match kind {
            TransferKind::Bulk => call_ensures(
                D::async_bulk_write,
                (&handle.device(), endpoint, data, timeout),
                r,
            ),
            TransferKind::Interrupt => call_ensures(
                D::async_interrupt_write,
                (&handle.device(), endpoint, data, timeout),
                r,
            ),
        },
{
    match kind {
        TransferKind::Bulk => handle.async_bulk_write(endpoint, data, timeout),
        TransferKind::Interrupt => handle.async_interrupt_write(endpoint, data, timeout),
    }
}

/// Ends a write, given how its task ended.
pub fn finish_write(joined: Result<Result<usize, UsbError>, String>) -> (r: Result<usize, UsbError>)
    ensures
        match joined {
            Ok(result) => r == result,
            Err(reason) => r is Err && r->Err_0@ == ErrorView::Other(lost_task_text(reason@)),
        },
{
    match joined {
        Ok(result) => result,
        Err(reason) => Err(lost_task(reason.as_str())),
    }
}

/// The complaint about a lost task ends with the whole reason.
pub proof fn law_lost_task_tells_the_reason(reason: Seq<char>)
    ensures
        lost_task_text(reason).take("spawn_blocking failed: "@.len() as int)
            == "spawn_blocking failed: "@,
        lost_task_text(reason).skip("spawn_blocking failed: "@.len() as int) == reason,
{
    let label = "spawn_blocking failed: "@;
    assert(lost_task_text(reason).take(label.len() as int) =~= label);
    assert(lost_task_text(reason).skip(label.len() as int) =~= reason);
}

} // verus!
