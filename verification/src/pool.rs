//! The suspension pool: a registry mapping the identifier of an in-flight
//! intercepted syscall to the wait state of the thread parked on it.
//!
//! The platform's wait primitive is stack-local to the blocked call, so the
//! pool stores only the identifier and whether the waiter has been signaled.
//! Registration fails on a duplicate identifier; releasing an identifier
//! removes exactly that entry; shutdown first signals every entry and then
//! waits for each departing waiter to deregister itself before the backing
//! storage may be freed.

use vstd::prelude::*;

verus! {

/// Execution priority at or below which the shutdown drain may touch the
/// pool; above it the teardown step must be aborted.
pub const DISPATCH_LEVEL: u8 = 2;

/// Whether a registered waiter is still parked or has already been told to
/// resume.
#[derive(Clone, Copy, Debug, PartialEq, Eq, Structural)]
pub enum WaitState {
    Waiting,
    Signaled,
}

/// One pool entry: the identifier of an in-flight intercepted syscall and
/// the state of the thread parked on it.
#[derive(Clone, Copy, Debug, PartialEq, Eq, Structural)]
pub struct WaitEntry {
    pub id: u128,
    pub state: WaitState,
}

/// Why a pool operation was refused.
#[derive(Clone, Copy, Debug, PartialEq, Eq, Structural)]
pub enum PoolError {
    /// The identifier is already registered; identifiers are never reused
    /// while live, so hitting this marks an invariant violation in the
    /// caller, handled by degrading rather than by blocking.
    DuplicateId,
}

/// Outcome of delivering a verdict to the pool.
#[derive(Clone, Copy, Debug, PartialEq, Eq, Structural)]
pub enum ReleaseOutcome {
    /// The waiter with that identifier existed and was released.
    Released,
    /// No waiter with that identifier was registered; the verdict is a
    /// no-op, reported to the caller.
    NotFound,
}

/// The effect of releasing `id` on a pool abstracted as a map: if present,
/// exactly that entry is removed and its waiter signaled; otherwise nothing
/// changes.
pub open spec fn spec_release(m: Map<u128, WaitState>, id: u128) -> (Map<u128, WaitState>,
    ReleaseOutcome) {
    if m.dom().contains(id) {
        (m.remove(id), ReleaseOutcome::Released)
    } else {
        (m, ReleaseOutcome::NotFound)
    }
}

/// The effect of the shutdown broadcast: every registered identifier is
/// moved to the signaled state; the domain does not change.
pub open spec fn spec_signal_all(m: Map<u128, WaitState>) -> Map<u128, WaitState> {
    Map::new(|id: u128| m.dom().contains(id), |id: u128| WaitState::Signaled)
}

/// No two entries of the backing storage share an identifier.
spec fn seq_wf(s: Seq<WaitEntry>) -> bool {
    forall|i: int, j: int| 0 <= i < j < s.len() ==> s[i].id != s[j].id
}

/// The backing storage abstracted as a map from identifier to wait state.
spec fn map_of(s: Seq<WaitEntry>) -> Map<u128, WaitState> {
    Map::new(
        |id: u128| exists|i: int| 0 <= i < s.len() && s[i].id == id,
        |id: u128|
            {
                let i = choose|i: int| 0 <= i < s.len() && s[i].id == id;
                s[i].state
            },
    )
}

/// Each entry of well-formed storage is in the abstract map, with its own
/// state.
proof fn lemma_map_of_index(s: Seq<WaitEntry>, i: int)
    requires
        seq_wf(s),
        0 <= i < s.len(),
    ensures
        map_of(s).dom().contains(s[i].id),
        map_of(s)[s[i].id] == s[i].state,
{
    assert(exists|j: int| 0 <= j < s.len() && s[j].id == s[i].id);
    let j = choose|j: int| 0 <= j < s.len() && s[j].id == s[i].id;
    assert(j == i);
}

/// Appending an entry with a fresh identifier inserts it into the abstract
/// map.
proof fn lemma_map_of_push(s: Seq<WaitEntry>, e: WaitEntry)
    requires
        seq_wf(s),
        forall|i: int| 0 <= i < s.len() ==> s[i].id != e.id,
    ensures
        seq_wf(s.push(e)),
        map_of(s.push(e)) =~= map_of(s).insert(e.id, e.state),
{
    let t = s.push(e);
    let m2 = map_of(s).insert(e.id, e.state);
    assert forall|i: int, j: int| 0 <= i < j < t.len() implies t[i].id != t[j].id by {
        if j < s.len() {
            assert(t[i] == s[i] && t[j] == s[j]);
        } else {
            assert(t[j] == e && t[i] == s[i]);
        }
    }
    assert forall|id: u128| map_of(t).dom().contains(id) implies m2.dom().contains(id) && map_of(
        t,
    )[id] == m2[id] by {
        let j = choose|j: int| 0 <= j < t.len() && t[j].id == id;
        lemma_map_of_index(t, j);
        if j < s.len() {
            assert(s[j].id == id);
            lemma_map_of_index(s, j);
        } else {
            assert(t[j] == e);
        }
    }
    assert forall|id: u128| m2.dom().contains(id) implies map_of(t).dom().contains(id) by {
        if id == e.id {
            assert(t[s.len() as int].id == id);
            lemma_map_of_index(t, s.len() as int);
        } else {
            let j = choose|j: int| 0 <= j < s.len() && s[j].id == id;
            assert(t[j].id == id);
            lemma_map_of_index(t, j);
        }
    }
    assert(map_of(t).dom() =~= m2.dom());
    assert(map_of(t) =~= m2);
}

/// Removing an entry deletes exactly its identifier from the abstract map.
proof fn lemma_map_of_remove(s: Seq<WaitEntry>, i: int)
    requires
        seq_wf(s),
        0 <= i < s.len(),
    ensures
        seq_wf(s.remove(i)),
        map_of(s.remove(i)) =~= map_of(s).remove(s[i].id),
{
    let t = s.remove(i);
    let m2 = map_of(s).remove(s[i].id);
    assert forall|j: int, k: int| 0 <= j < k < t.len() implies t[j].id != t[k].id by {
        let j0 = if j < i {
            j
        } else {
            j + 1
        };
        let k0 = if k < i {
            k
        } else {
            k + 1
        };
        assert(t[j] == s[j0] && t[k] == s[k0]);
    }
    assert forall|id: u128| map_of(t).dom().contains(id) implies m2.dom().contains(id) && map_of(
        t,
    )[id] == m2[id] by {
        let j = choose|j: int| 0 <= j < t.len() && t[j].id == id;
        let j0 = if j < i {
            j
        } else {
            j + 1
        };
        assert(t[j] == s[j0]);
        assert(s[j0].id == id);
        assert(id != s[i].id);
        lemma_map_of_index(t, j);
        lemma_map_of_index(s, j0);
    }
    assert forall|id: u128| m2.dom().contains(id) implies map_of(t).dom().contains(id) by {
        let j0 = choose|j0: int| 0 <= j0 < s.len() && s[j0].id == id;
        assert(j0 != i);
        let j = if j0 < i {
            j0
        } else {
            j0 - 1
        };
        assert(t[j] == s[j0]);
        lemma_map_of_index(t, j);
    }
    assert(map_of(t).dom() =~= m2.dom());
    assert(map_of(t) =~= m2);
}

/// The suspension pool. Its view is the map from registered identifier to
/// wait state.
pub struct SuspensionPool {
    entries: Vec<WaitEntry>,
}

impl SuspensionPool {
    /// No two live entries share an identifier.
    pub closed spec fn wf(self) -> bool {
        seq_wf(self.entries@)
    }

    /// The abstract contents of the pool.
    pub closed spec fn view(self) -> Map<u128, WaitState> {
        map_of(self.entries@)
    }

    /// Index of the entry carrying `id`, if any.
    fn find_index(&self, id: u128) -> (r: Option<usize>)
        requires
            self.wf(),
        ensures
            match r {
                Some(i) => i < self.entries@.len() && self.entries@[i as int].id == id
                    && self@.dom().contains(id),
                None => !self@.dom().contains(id),
            },
    {
        let n = self.entries.len();
        let mut i: usize = 0;
        while i < n
            invariant
                n == self.entries@.len(),
                i <= n,
                self.wf(),
                forall|j: int| 0 <= j < i ==> self.entries@[j].id != id,
            decreases n - i,
        {
            if self.entries[i].id == id {
                proof {
                    lemma_map_of_index(self.entries@, i as int);
                }
                return Some(i);
            }
            i = i + 1;
        }
        proof {
            assert(!map_of(self.entries@).dom().contains(id));
        }
        None
    }

    /// Inserts a fresh waiter in the waiting state.
    ///
    /// Succeeds exactly when `id` is not yet registered; a duplicate is
    /// refused and leaves the pool unchanged.
    pub fn register(&mut self, id: u128) -> (r: Result<(), PoolError>)
        requires
            old(self).wf(),
        ensures
            final(self).wf(),
            match r {
                Ok(()) => !old(self)@.dom().contains(id) && final(self)@ == old(self)@.insert(
                    id,
                    WaitState::Waiting,
                ),
                Err(e) => e == PoolError::DuplicateId && old(self)@.dom().contains(id)
                    && final(self)@ == old(self)@,
            },
    {
        match self.find_index(id) {
            Some(_) => Err(PoolError::DuplicateId),
            None => {
                let ghost s_old = self.entries@;
                self.entries.push(WaitEntry { id, state: WaitState::Waiting });
                proof {
                    assert forall|i: int| 0 <= i < s_old.len() implies s_old[i].id != id by {
                        lemma_map_of_index(s_old, i);
                    }
                    lemma_map_of_push(s_old, WaitEntry { id, state: WaitState::Waiting });
                }
                Ok(())
            },
        }
    }

    /// Removes the entry for `id` without signaling: the departing waiter's
    /// own cleanup after it has been woken.
    ///
    /// Returns whether an entry existed; a missing entry is reported and
    /// nothing changes.
    pub fn deregister(&mut self, id: u128) -> (found: bool)
        requires
            old(self).wf(),
        ensures
            final(self).wf(),
            found <==> old(self)@.dom().contains(id),
            final(self)@ == spec_release(old(self)@, id).0,
    {
        match self.find_index(id) {
            Some(i) => {
                let ghost s_old = self.entries@;
                let _ = self.entries.remove(i);
                proof {
                    lemma_map_of_remove(s_old, i as int);
                }
                true
            },
            None => false,
        }
    }

    /// Delivers the verdict for `id` — if a waiter is registered, its
    /// entry is removed and its wait primitive signaled; an unknown `id`
    /// is a no-op reported as not found.
    pub fn release(&mut self, id: u128) -> (r: ReleaseOutcome)
        requires
            old(self).wf(),
        ensures
            final(self).wf(),
            final(self)@ == spec_release(old(self)@, id).0,
            r == spec_release(old(self)@, id).1,
    {
        if self.deregister(id) {
            ReleaseOutcome::Released
        } else {
            ReleaseOutcome::NotFound
        }
    }

    /// The shutdown broadcast: signals every registered waiter so each
    /// trapped thread can resume and deregister itself.
    ///
    /// Touching the pool is only safe at or below the deferred-procedure
    /// priority; above it the step is aborted and the pool is untouched.
    pub fn begin_drain(&mut self, irql: u8) -> (started: bool)
        requires
            old(self).wf(),
        ensures
            final(self).wf(),
            started <==> irql <= DISPATCH_LEVEL,
            started ==> final(self)@ == spec_signal_all(old(self)@),
            !started ==> final(self)@ == old(self)@,
    {
        if irql > DISPATCH_LEVEL {
            return false;
        }
        let ghost s_old = self.entries@;
        let n = self.entries.len();
        let mut i: usize = 0;
        while i < n
            invariant
                n == self.entries@.len(),
                i <= n,
                self.entries@.len() == s_old.len(),
                forall|j: int| 0 <= j < n ==> self.entries@[j].id == s_old[j].id,
                forall|j: int| 0 <= j < i ==> self.entries@[j].state == WaitState::Signaled,
                forall|j: int| i <= j < n ==> self.entries@[j] == s_old[j],
            decreases n - i,
        {
            let id = self.entries[i].id;
            self.entries.set(i, WaitEntry { id, state: WaitState::Signaled });
            i = i + 1;
        }
        proof {
            let s_new = self.entries@;
            assert forall|a: int, b: int| 0 <= a < b < s_new.len() implies s_new[a].id
                != s_new[b].id by {
                assert(s_old[a].id != s_old[b].id);
            }
            let m2 = spec_signal_all(map_of(s_old));
            assert forall|id: u128| #![auto]
                (map_of(s_new).dom().contains(id) <==> m2.dom().contains(id)) && (map_of(
                    s_new,
                ).dom().contains(id) ==> map_of(s_new)[id] == WaitState::Signaled) by {
                if map_of(s_new).dom().contains(id) {
                    let j = choose|j: int| 0 <= j < s_new.len() && s_new[j].id == id;
                    assert(s_old[j].id == id);
                    lemma_map_of_index(s_old, j);
                    lemma_map_of_index(s_new, j);
                }
                if m2.dom().contains(id) {
                    let j = choose|j: int| 0 <= j < s_old.len() && s_old[j].id == id;
                    assert(s_new[j].id == id);
                    lemma_map_of_index(s_new, j);
                }
            }
            assert(map_of(s_new) =~= m2);
        }
        true
    }

    /// Whether every waiter has departed; shutdown polls this before the
    /// backing storage may be freed.
    pub fn is_empty(&self) -> (r: bool)
        requires
            self.wf(),
        ensures
            r <==> self@ =~= Map::<u128, WaitState>::empty(),
    {
        let r = self.entries.len() == 0;
        proof {
            if r {
                assert(self@ =~= Map::<u128, WaitState>::empty());
            } else {
                lemma_map_of_index(self.entries@, 0);
                assert(self@.dom().contains(self.entries@[0].id));
            }
        }
        r
    }

    /// Consumes the pool, returning its backing storage to the allocator.
    ///
    /// Requiring emptiness is the no-use-after-free contract: storage may
    /// only be freed once every blocked thread has woken and deregistered
    /// itself, so no waiter can wake into freed memory.
    pub fn free_storage(self)
        requires
            self.wf(),
            self@ =~= Map::<u128, WaitState>::empty(),
    {
    }
}

/// Law: delivering a verdict for a registered identifier releases exactly
/// that one waiter and no other — every other identifier stays registered
/// with its state untouched.
pub proof fn lemma_release_exactly_one(m: Map<u128, WaitState>, id: u128)
    requires
        m.dom().contains(id),
    ensures
        spec_release(m, id).1 == ReleaseOutcome::Released,
        !spec_release(m, id).0.dom().contains(id),
        forall|other: u128|
            other != id ==> (spec_release(m, id).0.dom().contains(other) <==> m.dom().contains(
                other,
            )),
        forall|other: u128|
            other != id && m.dom().contains(other) ==> spec_release(m, id).0[other] == m[other],
{
}

/// Law: delivering a verdict for an unknown identifier is a no-op that is
/// reported as not found; the pool is left exactly as it was.
pub proof fn lemma_release_unknown_is_noop(m: Map<u128, WaitState>, id: u128)
    requires
        !m.dom().contains(id),
    ensures
        spec_release(m, id).0 == m,
        spec_release(m, id).1 == ReleaseOutcome::NotFound,
{
}

/// Law: registration happens strictly before the completion is surfaced, so
/// a verdict submitted after observing a completion always finds the
/// registered waiter and removes exactly it. The hypothesis is the exact
/// pool shape the interception path guarantees at the moment it signals
/// completion.
pub proof fn lemma_no_verdict_before_registration(m0: Map<u128, WaitState>, id: u128)
    requires
        !m0.dom().contains(id),
    ensures
        spec_release(m0.insert(id, WaitState::Waiting), id).1 == ReleaseOutcome::Released,
        spec_release(m0.insert(id, WaitState::Waiting), id).0 == m0,
{
    assert(m0.insert(id, WaitState::Waiting).remove(id) =~= m0);
}

/// Law: the shutdown broadcast signals every registered waiter and loses no
/// identifier.
pub proof fn lemma_drain_signals_all(m: Map<u128, WaitState>)
    ensures
        spec_signal_all(m).dom() == m.dom(),
        forall|id: u128|
            m.dom().contains(id) ==> spec_signal_all(m)[id] == WaitState::Signaled,
{
    assert(spec_signal_all(m).dom() =~= m.dom());
}

/// The pool after the waiters carrying `ids` have each woken and
/// deregistered themselves, in that order.
pub open spec fn spec_deregister_each(m: Map<u128, WaitState>, ids: Seq<u128>) -> Map<
    u128,
    WaitState,
>
    decreases ids.len(),
{
    if ids.len() == 0 {
        m
    } else {
        spec_deregister_each(spec_release(m, ids[0]).0, ids.drop_first())
    }
}

/// Law: shutdown releases every blocked thread before the storage can go —
/// once each registered identifier has deregistered itself the pool is
/// empty, which is exactly what `SuspensionPool::free_storage` demands.
pub proof fn lemma_drain_to_empty(m: Map<u128, WaitState>, ids: Seq<u128>)
    requires
        forall|id: u128| m.dom().contains(id) ==> ids.contains(id),
    ensures
        spec_deregister_each(m, ids) == Map::<u128, WaitState>::empty(),
    decreases ids.len(),
{
    if ids.len() == 0 {
        assert forall|id: u128| !m.dom().contains(id) by {
            if m.dom().contains(id) {
                assert(ids.contains(id));
            }
        }
        assert(m.dom() =~= Set::<u128>::empty());
        assert(m =~= Map::<u128, WaitState>::empty());
    } else {
        let m1 = spec_release(m, ids[0]).0;
        assert forall|id: u128| m1.dom().contains(id) implies ids.drop_first().contains(id) by {
            assert(m.dom().contains(id));
            assert(ids.contains(id));
            let k = choose|k: int| 0 <= k < ids.len() && ids[k] == id;
            assert(id != ids[0]);
            assert(ids.drop_first()[k - 1] == id);
        }
        lemma_drain_to_empty(m1, ids.drop_first());
    }
}

/// Creates the suspension pool used by the interception hot path; the pool
/// starts with no registered waiters.
pub fn init_syscall_suspended_pool() -> (p: SuspensionPool)
    ensures
        p.wf(),
        p@ =~= Map::<u128, WaitState>::empty(),
{
    let p = SuspensionPool { entries: Vec::new() };
    proof {
        assert(p@ =~= Map::<u128, WaitState>::empty());
    }
    p
}

} // verus!
