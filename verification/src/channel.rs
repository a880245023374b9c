//! The administrative channel: the control boundary between the
//! privileged core and the decision engine.
//!
//! Each control operation arrives with an opaque operation code, an input
//! buffer, and the capacity of the caller's output buffer, and is answered
//! with a status and output bytes — or queued, for the operation that
//! waits for the next intercepted syscall. Protocol errors (a buffer too
//! small, a count that does not match, nothing to drain, an unsupported
//! code) are reported to the caller and have no wider effect.

use vstd::bytes::{spec_u64_from_le_bytes, spec_u64_to_le_bytes, u64_from_le_bytes, u64_to_le_bytes};
use vstd::prelude::*;
use vstd::slice::slice_subrange;

use crate::cache::TelemetryCache;
use crate::codec::{
    decode_verdict, encode_entries, spec_decode_verdict, spec_encode_entries,
    TELEMETRY_ENTRY_BYTES,
};
use crate::pool::{spec_release, ReleaseOutcome, SuspensionPool};
use crate::queue::{contains_handle, CancelOutcome, PendingQueue, PendingRequest};
use crate::telemetry::EdrResult;

verus! {

// Each control code packs an unknown device type (34) into bits 16 and
// up, a function number into bits 2 to 13, and the buffered transfer
// method (0) into the low bits.
/// Control code for reading the buffered telemetry log's item count
/// (function number 0x800).
pub const IOCTL_SNAPSHOT_QUE_LOG: u32 = 0x222000;

/// Control code for draining the buffered telemetry log (function number
/// 0x802).
pub const IOCTL_DRAIN_LOG_SNAPSHOT: u32 = 0x222008;

/// Control code for parking a request until the next intercepted syscall
/// (function number 0x803).
pub const AWAIT_PSO: u32 = 0x22200C;

/// Control code that carries the engine's verdict for a suspended
/// syscall (function number 0x804).
pub const SUBMIT_EDR_RESULT: u32 = 0x222010;

/// The status a control operation is answered with.
#[derive(Clone, Copy, Debug, PartialEq, Eq, Structural)]
pub enum NtStatus {
    /// The operation completed and its output is valid.
    Success,
    /// The request was queued and will complete asynchronously.
    Pending,
    /// The operation code is not part of the control interface.
    NotSupported,
    /// The input buffer is too short for the operation.
    InvalidBufferSize,
    /// The caller's output buffer cannot hold the answer.
    BufferTooSmall,
    /// There is nothing to drain.
    BadData,
    /// The verdict named an identifier with no registered waiter.
    NotFound,
    /// The request was cancelled before it was serviced.
    Cancelled,
    /// The operation failed; for a drain, the expected count did not
    /// match the buffered count.
    Unsuccessful,
}

/// How a control operation was answered.
#[derive(Debug, PartialEq, Eq)]
pub enum IoctlOutcome {
    /// Answered now, with this status and output.
    Complete { status: NtStatus, output: Vec<u8> },
    /// Parked in the pending-request queue; the underlying call is marked
    /// pending and completes once a syscall is intercepted.
    Queued,
}

/// Whether `r` is an immediate completion with this status and output.
pub open spec fn spec_complete(r: IoctlOutcome, status: NtStatus, output: Seq<u8>) -> bool {
    &&& r matches IoctlOutcome::Complete { status: s, output: o }
    &&& s == status
    &&& o@ == output
}

/// Parks an awaiting-syscall request in the pending-request queue, after
/// checking that its output buffer can hold one full telemetry record; a
/// buffer too small fails the request immediately and queues nothing.
pub fn queue_pso(queue: &mut PendingQueue, handle: u64, output_capacity: usize) -> (r:
    IoctlOutcome)
    requires
        old(queue).wf(),
        !contains_handle(old(queue)@, handle),
    ensures
        final(queue).wf(),
        output_capacity < TELEMETRY_ENTRY_BYTES ==> spec_complete(
            r,
            NtStatus::BufferTooSmall,
            Seq::<u8>::empty(),
        ) && final(queue)@ == old(queue)@,
        output_capacity >= TELEMETRY_ENTRY_BYTES ==> r == IoctlOutcome::Queued && final(queue)@
            == old(queue)@.push(PendingRequest { handle, capacity: output_capacity }),
{
    if output_capacity < TELEMETRY_ENTRY_BYTES {
        return IoctlOutcome::Complete { status: NtStatus::BufferTooSmall, output: Vec::new() };
    }
    queue.insert(PendingRequest { handle, capacity: output_capacity });
    IoctlOutcome::Queued
}

/// The status the dispatcher hands back to the platform for an outcome:
/// a parked request reports pending, an answered one its own status.
pub fn dispatch_status(r: &IoctlOutcome) -> (s: NtStatus)
    ensures
        s == (match *r {
            IoctlOutcome::Complete { status, .. } => status,
            IoctlOutcome::Queued => NtStatus::Pending,
        }),
{
    match r {
        IoctlOutcome::Complete { status, .. } => *status,
        IoctlOutcome::Queued => NtStatus::Pending,
    }
}

/// The platform's out-of-band cancellation of a queued request: unlinks
/// the handle and answers the underlying call with the cancellation
/// status and no output. A handle already removed for service yields
/// nothing here — the service path owns it and will complete it.
pub fn cancel_pending_request(queue: &mut PendingQueue, handle: u64) -> (r: Option<IoctlOutcome>)
    requires
        old(queue).wf(),
    ensures
        final(queue).wf(),
        final(queue)@ == crate::queue::spec_remove_handle(old(queue)@, handle).0,
        match crate::queue::spec_remove_handle(old(queue)@, handle).1 {
            Some(_) => r matches Some(c) && spec_complete(
                c,
                NtStatus::Cancelled,
                Seq::<u8>::empty(),
            ),
            None => r is None,
        },
{
    match queue.on_cancel(handle) {
        CancelOutcome::Cancelled(_) => Some(
            IoctlOutcome::Complete { status: NtStatus::Cancelled, output: Vec::new() },
        ),
        CancelOutcome::NotQueued => None,
    }
}

/// Delivers the engine's verdict by releasing the suspended thread
/// registered under its identifier, reporting whether one was found.
pub fn submit_verdict(pool: &mut SuspensionPool, result: EdrResult) -> (r: ReleaseOutcome)
    requires
        old(pool).wf(),
    ensures
        final(pool).wf(),
        final(pool)@ == spec_release(old(pool)@, result.uuid).0,
        r == spec_release(old(pool)@, result.uuid).1,
{
    pool.release(result.uuid)
}

/// The control-channel dispatcher.
///
/// `handle` names the underlying administrative call object, `input` its
/// input bytes, and `output_capacity` how many output bytes the caller can
/// accept. Exactly one of the four operations runs; an unknown code is
/// answered as unsupported with no effect.
pub fn handle_ioctl(
    cache: &mut TelemetryCache,
    queue: &mut PendingQueue,
    pool: &mut SuspensionPool,
    code: u32,
    handle: u64,
    input: &[u8],
    output_capacity: usize,
) -> (r: IoctlOutcome)
    requires
        old(queue).wf(),
        old(pool).wf(),
        code == AWAIT_PSO ==> !contains_handle(old(queue)@, handle),
    ensures
        final(queue).wf(),
        final(pool).wf(),
        // Reading the count answers the buffered total and changes nothing.
        code == IOCTL_SNAPSHOT_QUE_LOG ==> spec_complete(
            r,
            NtStatus::Success,
            spec_u64_to_le_bytes(old(cache)@.len() as u64),
        ) && final(cache)@ == old(cache)@ && final(queue)@ == old(queue)@ && final(pool)@ == old(pool)@,
        // Draining hands out everything if and only if the caller's count
        // matches the buffered count exactly; every error leaves the log
        // untouched and returns no data, partial or otherwise.
        code == IOCTL_DRAIN_LOG_SNAPSHOT ==> final(queue)@ == old(queue)@ && final(pool)@ == old(pool)@ && ({
            if input@.len() < 8 {
                spec_complete(r, NtStatus::InvalidBufferSize, Seq::<u8>::empty()) && final(cache)@
                    == old(cache)@
            } else {
                let expected = spec_u64_from_le_bytes(input@.subrange(0, 8));
                if old(cache)@.len() == 0 {
                    spec_complete(r, NtStatus::BadData, Seq::<u8>::empty()) && final(cache)@ == old(cache)@
                } else if expected != old(cache)@.len() {
                    spec_complete(r, NtStatus::Unsuccessful, Seq::<u8>::empty()) && final(cache)@
                        == old(cache)@
                } else {
                    spec_complete(r, NtStatus::Success, spec_encode_entries(old(cache)@)) && final(cache)@ == Seq::<crate::telemetry::TelemetryEntry>::empty()
                }
            }
        }),
        // Awaiting a syscall queues the request, unless its buffer cannot
        // hold a record.
        code == AWAIT_PSO ==> final(cache)@ == old(cache)@ && final(pool)@ == old(pool)@ && ({
            if output_capacity < TELEMETRY_ENTRY_BYTES {
                spec_complete(r, NtStatus::BufferTooSmall, Seq::<u8>::empty()) && final(queue)@
                    == old(queue)@
            } else {
                r == IoctlOutcome::Queued && final(queue)@ == old(queue)@.push(
                    PendingRequest { handle, capacity: output_capacity },
                )
            }
        }),
        // A verdict releases exactly the named waiter, and reports an
        // unknown identifier as not found without crashing or changing
        // anything.
        code == SUBMIT_EDR_RESULT ==> final(cache)@ == old(cache)@ && final(queue)@ == old(queue)@
            && ({
            match spec_decode_verdict(input@) {
                None => spec_complete(r, NtStatus::InvalidBufferSize, Seq::<u8>::empty()) && final(pool)@ == old(pool)@,
                Some(v) => final(pool)@ == spec_release(old(pool)@, v.uuid).0 && spec_complete(
                    r,
                    if spec_release(old(pool)@, v.uuid).1 is Released {
                        NtStatus::Success
                    } else {
                        NtStatus::NotFound
                    },
                    Seq::<u8>::empty(),
                ),
            }
        }),
        // Anything else is answered as unsupported, with no effect.
        (code != IOCTL_SNAPSHOT_QUE_LOG && code != IOCTL_DRAIN_LOG_SNAPSHOT && code != AWAIT_PSO
            && code != SUBMIT_EDR_RESULT) ==> spec_complete(
            r,
            NtStatus::NotSupported,
            Seq::<u8>::empty(),
        ) && final(cache)@ == old(cache)@ && final(queue)@ == old(queue)@ && final(pool)@ == old(pool)@,
{
    if code == IOCTL_SNAPSHOT_QUE_LOG {
        let count = cache.snapshot_count();
        let output = u64_to_le_bytes(count as u64);
        IoctlOutcome::Complete { status: NtStatus::Success, output }
    } else if code == IOCTL_DRAIN_LOG_SNAPSHOT {
        if input.len() < 8 {
            return IoctlOutcome::Complete {
                status: NtStatus::InvalidBufferSize,
                output: Vec::new(),
            };
        }
        let expected = u64_from_le_bytes(slice_subrange(input, 0, 8));
        let count = cache.snapshot_count();
        if count == 0 {
            return IoctlOutcome::Complete { status: NtStatus::BadData, output: Vec::new() };
        }
        if expected != count as u64 {
            return IoctlOutcome::Complete { status: NtStatus::Unsuccessful, output: Vec::new() };
        }
        let drained = match cache.drain_snapshot(count) {
            Ok(v) => v,
            Err(_) => {
                return IoctlOutcome::Complete {
                    status: NtStatus::Unsuccessful,
                    output: Vec::new(),
                };
            },
        };
        let output = encode_entries(&drained);
        IoctlOutcome::Complete { status: NtStatus::Success, output }
    } else if code == AWAIT_PSO {
        queue_pso(queue, handle, output_capacity)
    } else if code == SUBMIT_EDR_RESULT {
        let verdict = match decode_verdict(input) {
            Some(v) => v,
            None => {
                return IoctlOutcome::Complete {
                    status: NtStatus::InvalidBufferSize,
                    output: Vec::new(),
                };
            },
        };
        let released = submit_verdict(pool, verdict);
        IoctlOutcome::Complete {
            status: match released {
                ReleaseOutcome::Released => NtStatus::Success,
                ReleaseOutcome::NotFound => NtStatus::NotFound,
            },
            output: Vec::new(),
        }
    } else {
        IoctlOutcome::Complete { status: NtStatus::NotSupported, output: Vec::new() }
    }
}

} // verus!
