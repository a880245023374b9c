//! The passively buffered telemetry log behind the administrative
//! snapshot/drain interface, distinct from the per-call blocking protocol.

use vstd::prelude::*;

use crate::telemetry::TelemetryEntry;

verus! {

/// Why a telemetry-log operation failed.
#[derive(Clone, Copy, Debug, PartialEq, Eq, Structural)]
pub enum TelemetryError {
    /// The expected count handed to a drain does not equal the buffered
    /// count; no data is returned, partial or otherwise.
    CountMismatch { expected: usize, actual: usize },
    /// Nothing is buffered, so there is no snapshot to drain.
    NothingToDrain,
}

/// The buffered telemetry log. Its view is the sequence of buffered
/// records in arrival order.
pub struct TelemetryCache {
    entries: Vec<TelemetryEntry>,
}

impl TelemetryCache {
    /// The buffered records in arrival order.
    pub closed spec fn view(self) -> Seq<TelemetryEntry> {
        self.entries@
    }

    /// An empty log.
    pub fn new() -> (c: TelemetryCache)
        ensures
            c@ == Seq::<TelemetryEntry>::empty(),
    {
        TelemetryCache { entries: Vec::new() }
    }

    /// An empty log.
    pub fn default() -> (c: TelemetryCache)
        ensures
            c@ == Seq::<TelemetryEntry>::empty(),
    {
        Self::new()
    }

    /// Appends one record to the log.
    pub fn push(&mut self, telemetry_entry: TelemetryEntry)
        ensures
            final(self)@ == old(self)@.push(telemetry_entry),
    {
        self.entries.push(telemetry_entry);
    }

    /// Empties the log, returning everything buffered so far in order.
    pub fn drain(&mut self) -> (v: Vec<TelemetryEntry>)
        ensures
            v@ == old(self)@,
            final(self)@ == Seq::<TelemetryEntry>::empty(),
    {
        let v = self.entries.split_off(0);
        proof {
            assert(v@ =~= old(self)@);
            assert(self.entries@ =~= Seq::<TelemetryEntry>::empty());
        }
        v
    }

    /// The number of buffered records: the snapshot a caller must present
    /// back when draining.
    pub fn snapshot_count(&self) -> (n: usize)
        ensures
            n == self@.len(),
    {
        self.entries.len()
    }

    /// Drains the snapshot, but only when the caller's expected count
    /// matches the buffered count exactly; a mismatch or an empty log is
    /// an error and returns no data, partial or otherwise.
    pub fn drain_snapshot(&mut self, expected_count: usize) -> (r: Result<
        Vec<TelemetryEntry>,
        TelemetryError,
    >)
        ensures
            match r {
                Ok(v) => old(self)@.len() > 0 && expected_count == old(self)@.len() && v@ == old(
                    self,
                )@ && final(self)@ == Seq::<TelemetryEntry>::empty(),
                Err(TelemetryError::NothingToDrain) => old(self)@.len() == 0 && final(self)@ == old(
                    self,
                )@,
                Err(TelemetryError::CountMismatch { expected, actual }) => old(self)@.len() > 0
                    && expected == expected_count && actual == old(self)@.len() && expected
                    != actual && final(self)@ == old(self)@,
            },
    {
        let actual = self.entries.len();
        if actual == 0 {
            return Err(TelemetryError::NothingToDrain);
        }
        if expected_count != actual {
            return Err(TelemetryError::CountMismatch { expected: expected_count, actual });
        }
        Ok(self.drain())
    }
}

} // verus!
