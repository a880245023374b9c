//! Verified core of a syscall-interception telemetry driver.
//!
//! The library models the authorization protocol of an endpoint-security
//! interceptor: a suspension pool keyed by request identifier, a cancel-safe
//! FIFO of pending administrative requests, the interception state machine
//! that pairs a syscall with a pending request and parks the calling thread,
//! the administrative control channel, and the user-mode pairing loop that
//! answers completed requests with verdicts.

use vstd::prelude::*;
use vstd::string::StringSliceAdditionalSpecFns;

pub mod cache;
pub mod channel;
pub mod codec;
pub mod interceptor;
pub mod pairing;
pub mod pool;
pub mod queue;
pub mod telemetry;

verus! {

/// Device path of the driver object, as seen from kernel mode.
pub const NT_DEVICE_NAME: &'static str = "\\Device\\ScilDriver";

/// Symbolic-link path of the driver object.
pub const DOS_DEVICE_NAME: &'static str = "\\??\\ScilDriver";

/// Path used by the user-mode engine to open a handle to the driver.
pub const DRIVER_NAME: &'static str = "\\\\.\\ScilDriver";

/// The driver path as the platform's file-open call wants it: its UTF-16
/// code units followed by a terminating nul. The path is ASCII, so each
/// code unit is one byte of the path.
pub fn driver_name() -> (r: Vec<u16>)
    ensures
        r@ == DRIVER_NAME.spec_bytes().map_values(|b: u8| b as u16).push(0u16),
{
    let bytes = DRIVER_NAME.as_bytes();
    let n = bytes.len();
    let mut r: Vec<u16> = Vec::new();
    let mut i: usize = 0;
    while i < n
        invariant
            n == bytes@.len(),
            i <= n,
            r@.len() == i,
            forall|j: int| 0 <= j < i ==> r@[j] == bytes@[j] as u16,
        decreases n - i,
    {
        let b = *vstd::slice::slice_index_get(bytes, i);
        r.push(b as u16);
        i = i + 1;
    }
    r.push(0u16);
    proof {
        assert(r@ =~= DRIVER_NAME.spec_bytes().map_values(|b: u8| b as u16).push(0u16));
    }
    r
}

} // verus!
