//! Telemetry record types shared between the interception hot path and the
//! administrative channel, and the syscall-number mapping.

use vstd::bytes::{spec_u128_from_le_bytes, spec_u128_to_le_bytes};
use vstd::prelude::*;

verus! {

/// Syscall number of the process-open service.
pub const SSN_NT_OPEN_PROCESS: u32 = 0x26;

/// Syscall number of the virtual-memory allocation service.
pub const SSN_NT_ALLOCATE_VIRTUAL_MEMORY: u32 = 0x18;

/// Syscall number of the remote-thread creation service.
pub const SSN_NT_CREATE_THREAD_EX: u32 = 0x00c9;

/// Syscall number of the virtual-memory write service.
pub const SSN_NT_WRITE_VM: u32 = 0x003a;

/// Which intercepted syscall fired; the process-open variant carries the
/// target process identifier because the decision engine needs the argument
/// value, not only the fact that the call occurred.
#[derive(Clone, Copy, Debug, PartialEq, Eq, Structural)]
pub enum NtFunction {
    NtOpenProcess(u32),
    NtAllocateVM,
    NtCreateThreadEx,
    NtWriteVM,
}

/// The captured syscall arguments: four register slots and up to seven
/// stack-passed slots, each independently present or absent.
#[derive(Clone, Copy, Debug, PartialEq, Eq)]
pub struct Args {
    pub rcx: Option<u64>,
    pub rdx: Option<u64>,
    pub r8: Option<u64>,
    pub r9: Option<u64>,
    pub stack1: Option<u64>,
    pub stack2: Option<u64>,
    pub stack3: Option<u64>,
    pub stack4: Option<u64>,
    pub stack5: Option<u64>,
    pub stack6: Option<u64>,
    pub stack7: Option<u64>,
}

impl Args {
    /// The all-absent argument capture.
    pub fn empty() -> (a: Args)
        ensures
            a == (Args {
                rcx: None,
                rdx: None,
                r8: None,
                r9: None,
                stack1: None,
                stack2: None,
                stack3: None,
                stack4: None,
                stack5: None,
                stack6: None,
                stack7: None,
            }),
    {
        Args {
            rcx: None,
            rdx: None,
            r8: None,
            r9: None,
            stack1: None,
            stack2: None,
            stack3: None,
            stack4: None,
            stack5: None,
            stack6: None,
            stack7: None,
        }
    }
}

/// The syscall numbers this interceptor matches, mapped to their tagged
/// function variant.
pub open spec fn spec_ssn_to_nt_function(ssn: u32) -> Option<NtFunction> {
    if ssn == SSN_NT_OPEN_PROCESS {
        Some(NtFunction::NtOpenProcess(0))
    } else if ssn == SSN_NT_ALLOCATE_VIRTUAL_MEMORY {
        Some(NtFunction::NtAllocateVM)
    } else if ssn == SSN_NT_CREATE_THREAD_EX {
        Some(NtFunction::NtCreateThreadEx)
    } else if ssn == SSN_NT_WRITE_VM {
        Some(NtFunction::NtWriteVM)
    } else {
        None
    }
}

/// Maps a syscall number to the intercepted function it denotes, or `None`
/// for every syscall number outside the supported set.
pub fn ssn_to_nt_function(ssn: u32) -> (r: Option<NtFunction>)
    ensures
        r == spec_ssn_to_nt_function(ssn),
{
    match ssn {
        SSN_NT_OPEN_PROCESS => Some(NtFunction::NtOpenProcess(0)),
        SSN_NT_ALLOCATE_VIRTUAL_MEMORY => Some(NtFunction::NtAllocateVM),
        SSN_NT_CREATE_THREAD_EX => Some(NtFunction::NtCreateThreadEx),
        SSN_NT_WRITE_VM => Some(NtFunction::NtWriteVM),
        _ => None,
    }
}

/// One intercepted syscall event: a globally unique identifier, the function
/// that fired with its payload, the captured arguments, the originating
/// process, and the capture timestamp.
#[derive(Clone, Copy, Debug, PartialEq, Eq)]
pub struct TelemetryEntry {
    pub uuid: u128,
    pub nt_function: NtFunction,
    pub args: Args,
    pub pid: u32,
    pub time: i64,
}

/// The identifier bits produced from a 128-bit pseudo-random value: the
/// value is laid out as its sixteen little-endian bytes, the random-based
/// builder stamps the version-4 nibble into byte 6 and the standard
/// variant bits into byte 8, and the finished identifier reads the stamped
/// bytes back big-endian.
pub open spec fn spec_uuid_v4_of(x: u128) -> u128 {
    let b = spec_u128_to_le_bytes(x);
    let stamped = b.update(6, (b[6] & 0x0f) | 0x40).update(8, (b[8] & 0x3f) | 0x80);
    spec_u128_from_le_bytes(stamped.reverse())
}

/// Relies on `uuid::Builder::from_random_bytes` and `uuid::Uuid::as_u128`:
/// the builder keeps the given bytes except for stamping the version-4 and
/// standard-variant bits, and `as_u128` reads the sixteen identifier bytes
/// big-endian. The result is a function of the argument alone.
#[verifier::external_body]
fn uuid_v4_from_bits(x: u128) -> (r: u128)
    ensures
        r == spec_uuid_v4_of(x),
{
    uuid::Builder::from_random_bytes(x.to_le_bytes()).into_uuid().as_u128()
}

/// Relies on `std::time::SystemTime::now` for the capture timestamp: the
/// wall clock at the call, in nanoseconds since the epoch. Nothing is
/// promised of the value; every consumer of a timestamp must work for any
/// value.
#[verifier::external_body]
fn current_time() -> i64 {
    match std::time::SystemTime::now().duration_since(std::time::UNIX_EPOCH) {
        Ok(d) => d.as_nanos() as i64,
        Err(_) => 0,
    }
}

/// One step of the clock-seeded pseudo-random sequence the identifier is
/// drawn from. Collisions only have to be negligible, not impossible; a
/// duplicate identifier is caught and degraded at registration.
fn next_seed(seed: u32) -> u32 {
    seed.wrapping_mul(1103515245).wrapping_add(12345)
}

/// Builds the telemetry record of one intercepted syscall: the function,
/// arguments and process are taken as given; the capture time is read from
/// the clock, and the identifier is drawn from a clock-seeded
/// pseudo-random sequence run through the version-4 identifier builder.
pub fn build_entry(nt_function: NtFunction, args: Args, pid: u32) -> (e: TelemetryEntry)
    ensures
        e.nt_function == nt_function,
        e.args == args,
        e.pid == pid,
        exists|x: u128| e.uuid == spec_uuid_v4_of(x),
{
    let time = current_time();
    let seed0: u32 = #[verifier::truncate] (time as u32);
    let p1 = next_seed(seed0);
    let p2 = next_seed(p1);
    let p3 = next_seed(p2);
    let p4 = next_seed(p3);
    let raw: u128 = ((p1 as u128) << 96) | ((p2 as u128) << 64) | ((p3 as u128) << 32) | (
    p4 as u128);
    let uuid = uuid_v4_from_bits(raw);
    proof {
        assert(exists|x: u128| uuid == spec_uuid_v4_of(x)) by {
            assert(uuid == spec_uuid_v4_of(raw));
        }
    }
    TelemetryEntry { uuid, nt_function, args, pid, time }
}

/// Construction interface for telemetry records, kept apart from the
/// record type itself so consumers that only read records never touch the
/// clock and identifier machinery.
pub trait TelemetryEntryOrphan: Sized {
    fn new(nt_function: NtFunction, args: Args, pid: u32) -> Self;
}

impl TelemetryEntryOrphan for TelemetryEntry {
    fn new(nt_function: NtFunction, args: Args, pid: u32) -> Self {
        build_entry(nt_function, args, pid)
    }
}

/// The allow/deny verdict for one intercepted call.
#[derive(Clone, Copy, Debug, PartialEq, Eq, Structural)]
pub enum SyscallAllowed {
    Yes,
    No,
}

/// A verdict keyed by the identifier of the entry it answers; produced by
/// the decision engine, consumed by the suspension pool.
#[derive(Clone, Copy, Debug, PartialEq, Eq, Structural)]
pub struct EdrResult {
    pub uuid: u128,
    pub allowed: SyscallAllowed,
}

} // verus!
