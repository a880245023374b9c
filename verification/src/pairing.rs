//! The user-mode pairing loop's decisions.
//!
//! The loop keeps an ordered collection of outstanding asynchronous
//! request handles. Each step looks at the head-of-line handle: if its
//! completion has not been signaled yet, the handle is rotated to the tail
//! so one slow entry never blocks the loop; if it has completed, the
//! handle is taken out, its telemetry record decoded, and a verdict keyed
//! by the record's identifier sent back.

use vstd::prelude::*;

use crate::telemetry::{EdrResult, SyscallAllowed, TelemetryEntry};

verus! {

/// What one step of the round-robin did.
#[derive(Clone, Copy, Debug, PartialEq, Eq, Structural)]
pub enum PairingAction {
    /// No outstanding handles; the loop should replenish or rest.
    Idle,
    /// The head handle has not completed; it was rotated to the tail and
    /// the next one will be looked at.
    Rotated { handle: u64 },
    /// The head handle has completed and was taken out; its filled record
    /// should be retrieved, decided, and answered.
    Ready { handle: u64 },
}

/// One step of the round-robin over the outstanding handles, given
/// whether the head handle's completion has been signaled.
pub fn pairing_step(outstanding: &mut Vec<u64>, head_complete: bool) -> (r: PairingAction)
    ensures
        old(outstanding)@.len() == 0 ==> r == PairingAction::Idle && final(outstanding)@ == old(
            outstanding,
        )@,
        old(outstanding)@.len() > 0 && !head_complete ==> r == (PairingAction::Rotated {
            handle: old(outstanding)@[0],
        }) && final(outstanding)@ == old(outstanding)@.drop_first().push(old(outstanding)@[0]),
        old(outstanding)@.len() > 0 && head_complete ==> r == (PairingAction::Ready {
            handle: old(outstanding)@[0],
        }) && final(outstanding)@ == old(outstanding)@.drop_first(),
{
    if outstanding.len() == 0 {
        return PairingAction::Idle;
    }
    let head = outstanding.remove(0);
    proof {
        assert(outstanding@ =~= old(outstanding)@.drop_first());
    }
    if head_complete {
        PairingAction::Ready { handle: head }
    } else {
        outstanding.push(head);
        PairingAction::Rotated { handle: head }
    }
}

/// The decision policy applied to one completed record. The policy itself
/// is out of scope — every intercepted call is currently allowed — but the
/// verdict is keyed by the record's own identifier, so it releases exactly
/// the waiter of the call it answers.
pub fn decide(entry: &TelemetryEntry) -> (r: EdrResult)
    ensures
        r.uuid == entry.uuid,
        r.allowed == SyscallAllowed::Yes,
{
    EdrResult { uuid: entry.uuid, allowed: SyscallAllowed::Yes }
}

} // verus!
