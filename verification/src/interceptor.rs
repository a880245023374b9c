//! The syscall interception hot path.
//!
//! Invoked on every dispatched syscall of every thread, so it filters on
//! the target process identity first and leaves every irrelevant call
//! untouched. For a matched call it dequeues one pending administrative
//! request, builds the telemetry record, registers a wait entry in the
//! suspension pool, and only then surfaces the completed request — this
//! register-before-signal order guarantees that a verdict prompted by the
//! completion always finds a registered waiter. The caller then parks the
//! thread and, once woken, runs the resume step.
//!
//! Every soft failure (no pending request, a duplicate identifier)
//! degrades to an allow outcome; the hot path never blocks the system
//! merely because the administrative machinery is not ready.

use vstd::prelude::*;

use crate::codec::{encode_entry, spec_encode};
use crate::pool::{spec_release, SuspensionPool, WaitState};
use crate::queue::PendingQueue;
use crate::telemetry::{
    build_entry, spec_ssn_to_nt_function, ssn_to_nt_function, Args, NtFunction, SyscallAllowed,
    TelemetryEntry, SSN_NT_OPEN_PROCESS,
};

verus! {

/// ASCII lowercase of one byte.
pub open spec fn spec_lower(b: u8) -> u8 {
    if 65 <= b <= 90 {
        (b + 32) as u8
    } else {
        b
    }
}

/// ASCII lowercase of a byte string.
pub open spec fn spec_lower_seq(s: Seq<u8>) -> Seq<u8> {
    s.map_values(|b: u8| spec_lower(b))
}

/// Whether `n` occurs in `h` starting at position `i`.
pub open spec fn spec_match_at(h: Seq<u8>, n: Seq<u8>, i: int) -> bool {
    0 <= i && i + n.len() <= h.len() && h.subrange(i, i + n.len()) == n
}

/// Whether `n` occurs anywhere in `h`.
pub open spec fn spec_contains_seq(h: Seq<u8>, n: Seq<u8>) -> bool {
    exists|i: int| spec_match_at(h, n, i)
}

/// The process-identity filter: case-insensitive containment of the
/// configured target name in the process name.
pub open spec fn spec_name_matches(name: Seq<u8>, target: Seq<u8>) -> bool {
    spec_contains_seq(spec_lower_seq(name), spec_lower_seq(target))
}

/// ASCII lowercase of one byte.
fn lower_byte(b: u8) -> (r: u8)
    ensures
        r == spec_lower(b),
{
    if b >= 65 && b <= 90 {
        b + 32
    } else {
        b
    }
}

/// ASCII lowercase of a byte string.
fn lower_bytes(s: &[u8]) -> (v: Vec<u8>)
    ensures
        v@ == spec_lower_seq(s@),
{
    let n = s.len();
    let mut v: Vec<u8> = Vec::new();
    let mut i: usize = 0;
    while i < n
        invariant
            n == s@.len(),
            i <= n,
            v@.len() == i,
            forall|j: int| 0 <= j < i ==> v@[j] == spec_lower(s@[j]),
        decreases n - i,
    {
        let b = *vstd::slice::slice_index_get(s, i);
        v.push(lower_byte(b));
        i = i + 1;
    }
    proof {
        assert(v@ =~= spec_lower_seq(s@));
    }
    v
}

/// Whether the needle occurs in the haystack starting at position `i`.
fn matches_at(h: &Vec<u8>, n: &Vec<u8>, i: usize) -> (r: bool)
    requires
        i + n@.len() <= h@.len(),
    ensures
        r == spec_match_at(h@, n@, i as int),
{
    let h_len = h.len();
    let n_len = n.len();
    let mut j: usize = 0;
    while j < n_len
        invariant
            i + n@.len() <= h@.len(),
            h_len == h@.len(),
            n_len == n@.len(),
            j <= n_len,
            forall|q: int| 0 <= q < j ==> h@[i + q] == n@[q],
        decreases n_len - j,
    {
        if h[i + j] != n[j] {
            proof {
                if spec_match_at(h@, n@, i as int) {
                    assert(h@.subrange(i as int, i + n@.len())[j as int] == n@[j as int]);
                    assert(h@.subrange(i as int, i + n@.len())[j as int] == h@[i + j]);
                }
            }
            return false;
        }
        j = j + 1;
    }
    proof {
        assert(h@.subrange(i as int, i + n@.len()) =~= n@);
    }
    true
}

/// Whether the needle occurs anywhere in the haystack, byte for byte.
fn contains_subslice(h: &Vec<u8>, n: &Vec<u8>) -> (r: bool)
    ensures
        r == spec_contains_seq(h@, n@),
{
    let h_len = h.len();
    let n_len = n.len();
    if n_len > h_len {
        proof {
            assert forall|i: int| !spec_match_at(h@, n@, i) by {}
        }
        return false;
    }
    if n_len == 0 {
        proof {
            assert(h@.subrange(0, 0) =~= n@);
            assert(spec_match_at(h@, n@, 0));
        }
        return true;
    }
    let mut i: usize = 0;
    while i <= h_len - n_len
        invariant
            h_len == h@.len(),
            n_len == n@.len(),
            1 <= n_len <= h_len,
            i <= h_len - n_len + 1,
            forall|k: int| 0 <= k < i ==> !spec_match_at(h@, n@, k),
        decreases h_len - n_len - i + 1,
    {
        if matches_at(h, n, i) {
            return true;
        }
        i = i + 1;
    }
    proof {
        assert forall|k: int| !spec_match_at(h@, n@, k) by {
            if 0 <= k <= h@.len() - n@.len() {
                assert(!spec_match_at(h@, n@, k));
            }
        }
    }
    false
}

/// The process-identity filter: whether the configured target name occurs
/// in the process name, ignoring ASCII case.
pub fn process_name_matches(name: &[u8], target: &[u8]) -> (r: bool)
    ensures
        r == spec_name_matches(name@, target@),
{
    let h = lower_bytes(name);
    let n = lower_bytes(target);
    contains_subslice(&h, &n)
}

/// The four syscall argument registers captured from the trap frame by the
/// platform layer.
#[derive(Clone, Copy, Debug, PartialEq, Eq, Structural)]
pub struct TrapFrame {
    pub rcx: u64,
    pub rdx: u64,
    pub r8: u64,
    pub r9: u64,
}

/// The argument capture built from a trap frame: the four register slots
/// present, the stack slots absent.
pub open spec fn spec_captured_args(t: TrapFrame) -> Args {
    Args {
        rcx: Some(t.rcx),
        rdx: Some(t.rdx),
        r8: Some(t.r8),
        r9: Some(t.r9),
        stack1: None,
        stack2: None,
        stack3: None,
        stack4: None,
        stack5: None,
        stack6: None,
        stack7: None,
    }
}

/// The argument capture built from a trap frame.
pub fn capture_args(t: TrapFrame) -> (a: Args)
    ensures
        a == spec_captured_args(t),
{
    Args {
        rcx: Some(t.rcx),
        rdx: Some(t.rdx),
        r8: Some(t.r8),
        r9: Some(t.r9),
        stack1: None,
        stack2: None,
        stack3: None,
        stack4: None,
        stack5: None,
        stack6: None,
        stack7: None,
    }
}

/// The function a matched syscall denotes: for a process-open call the
/// target process identifier is taken from the dereferenced client
/// identity argument, zero when that pointer was null.
pub open spec fn spec_intercepted_function(ssn: u32, open_target_pid: Option<u32>) -> Option<
    NtFunction,
> {
    match spec_ssn_to_nt_function(ssn) {
        None => None,
        Some(f) => if ssn == SSN_NT_OPEN_PROCESS {
            Some(
                NtFunction::NtOpenProcess(
                    match open_target_pid {
                        Some(p) => p,
                        None => 0,
                    },
                ),
            )
        } else {
            Some(f)
        },
    }
}

/// A pending request that has been filled and detached, ready for the
/// administrative layer to complete: the request's handle and the encoded
/// telemetry record to place in its output buffer.
#[derive(Debug, PartialEq, Eq)]
pub struct CompletedRequest {
    pub handle: u64,
    pub data: Vec<u8>,
}

/// What one run of the interception entry step did.
#[derive(Debug, PartialEq, Eq)]
pub enum EnterOutcome {
    /// The calling process is not the configured target: allow, zero work.
    FilteredOut,
    /// The syscall number is outside the supported set: allow.
    NotIntercepted,
    /// No pending administrative request was queued: allow and log rather
    /// than stall the call.
    NoPendingRequest,
    /// The freshly generated identifier collided with a registered one —
    /// an invariant violation handled by degrading: the request is still
    /// completed, but the thread is not parked and the call is allowed.
    DuplicateId { completed: CompletedRequest, entry: TelemetryEntry },
    /// The wait entry is registered and the request completed; the caller
    /// must now park the thread on `entry.uuid` and run
    /// `intercept_resume` once woken.
    Blocked { completed: CompletedRequest, entry: TelemetryEntry },
}

/// The interception entry step, from syscall dispatch to the point where
/// the calling thread would park.
///
/// The filter admits only processes whose name contains the configured
/// target; every other call returns with nothing touched. For an admitted,
/// matched call the head pending request is dequeued, the telemetry record
/// is built and encoded into the request's buffer, the wait entry is
/// registered in the pool, and only after registration is the completed
/// request surfaced to the administrative layer.
pub fn intercept_enter(
    pool: &mut SuspensionPool,
    queue: &mut PendingQueue,
    target: &[u8],
    process_name: &[u8],
    ssn: u32,
    pid: u32,
    trap: TrapFrame,
    open_target_pid: Option<u32>,
) -> (r: EnterOutcome)
    requires
        old(pool).wf(),
        old(queue).wf(),
    ensures
        final(pool).wf(),
        final(queue).wf(),
        r is FilteredOut <==> !spec_name_matches(process_name@, target@),
        r is NotIntercepted <==> spec_name_matches(process_name@, target@)
            && spec_intercepted_function(ssn, open_target_pid) is None,
        r is NoPendingRequest <==> spec_name_matches(process_name@, target@)
            && spec_intercepted_function(ssn, open_target_pid) is Some && old(queue)@.len() == 0,
        (r is FilteredOut || r is NotIntercepted || r is NoPendingRequest) ==> final(pool)@ == old(
            pool,
        )@ && final(queue)@ == old(queue)@,
        (r is Blocked || r is DuplicateId) ==> old(queue)@.len() > 0 && final(queue)@ == old(
            queue,
        )@.drop_first(),
        r matches EnterOutcome::Blocked { completed, entry } ==> ({
            &&& entry.nt_function == spec_intercepted_function(ssn, open_target_pid).unwrap()
            &&& entry.args == spec_captured_args(trap)
            &&& entry.pid == pid
            &&& completed.handle == old(queue)@[0].handle
            &&& completed.data@ == spec_encode(entry)
            &&& !old(pool)@.dom().contains(entry.uuid)
            &&& final(pool)@ == old(pool)@.insert(entry.uuid, WaitState::Waiting)
        }),
        r matches EnterOutcome::DuplicateId { completed, entry } ==> ({
            &&& entry.nt_function == spec_intercepted_function(ssn, open_target_pid).unwrap()
            &&& entry.args == spec_captured_args(trap)
            &&& entry.pid == pid
            &&& completed.handle == old(queue)@[0].handle
            &&& completed.data@ == spec_encode(entry)
            &&& old(pool)@.dom().contains(entry.uuid)
            &&& final(pool)@ == old(pool)@
        }),
{
    if !process_name_matches(process_name, target) {
        return EnterOutcome::FilteredOut;
    }
    let nt_function = match ssn_to_nt_function(ssn) {
        None => {
            return EnterOutcome::NotIntercepted;
        },
        Some(f) => {
            if ssn == SSN_NT_OPEN_PROCESS {
                NtFunction::NtOpenProcess(
                    match open_target_pid {
                        Some(p) => p,
                        None => 0,
                    },
                )
            } else {
                f
            }
        },
    };
    let request = match queue.dequeue() {
        None => {
            return EnterOutcome::NoPendingRequest;
        },
        Some(r) => r,
    };
    let entry = build_entry(nt_function, capture_args(trap), pid);
    let data = encode_entry(&entry);
    let completed = CompletedRequest { handle: request.handle, data };
    match pool.register(entry.uuid) {
        Ok(()) => EnterOutcome::Blocked { completed, entry },
        Err(_) => EnterOutcome::DuplicateId { completed, entry },
    }
}

/// The interception resume step, run by the parked thread once its wait is
/// signaled: removes its own pool entry — tolerating its absence, since a
/// verdict release already removes the entry — and reports the verdict
/// value for the dispatcher. Deny is a defined but unenforced protocol
/// value, so the dispatcher is always handed an allow.
pub fn intercept_resume(pool: &mut SuspensionPool, id: u128) -> (r: SyscallAllowed)
    requires
        old(pool).wf(),
    ensures
        final(pool).wf(),
        final(pool)@ == spec_release(old(pool)@, id).0,
        r == SyscallAllowed::Yes,
{
    let _ = pool.deregister(id);
    SyscallAllowed::Yes
}

} // verus!
