//! The cancel-safe pending-request queue: a FIFO of outstanding
//! administrative request handles.
//!
//! Each entry wraps an opaque request handle owned exclusively by the queue
//! from insertion until removal. Removal happens either when the
//! interception hot path dequeues the head for service, or when the
//! platform cancels a queued request out of band. Every operation is
//! serialized under the queue's raised-priority guard, so a request can be
//! removed for service or removed for cancellation, never both.

use vstd::prelude::*;

verus! {

/// An outstanding administrative request: the opaque handle of the
/// underlying call and the byte capacity of its output buffer.
#[derive(Clone, Copy, Debug, PartialEq, Eq, Structural)]
pub struct PendingRequest {
    pub handle: u64,
    pub capacity: usize,
}

/// Outcome of the platform's out-of-band cancellation of a queued handle.
#[derive(Clone, Copy, Debug, PartialEq, Eq, Structural)]
pub enum CancelOutcome {
    /// The handle was still queued; it has been unlinked and must now be
    /// completed with a cancellation status.
    Cancelled(PendingRequest),
    /// The handle was no longer queued — it had already been removed for
    /// service — so cancellation finds nothing to do.
    NotQueued,
}

/// No two queued requests share a handle.
pub open spec fn handles_unique(s: Seq<PendingRequest>) -> bool {
    forall|i: int, j: int| 0 <= i < j < s.len() ==> s[i].handle != s[j].handle
}

/// Whether some queued request carries `h`.
pub open spec fn contains_handle(s: Seq<PendingRequest>, h: u64) -> bool {
    exists|i: int| 0 <= i < s.len() && s[i].handle == h
}

/// Index of the request carrying `h`, when one is queued.
pub open spec fn spec_find(s: Seq<PendingRequest>, h: u64) -> Option<int> {
    if contains_handle(s, h) {
        Some(choose|i: int| 0 <= i < s.len() && s[i].handle == h)
    } else {
        None
    }
}

/// The effect of removing the head for service: the first-in request
/// leaves, the rest keep their order.
pub open spec fn spec_dequeue(s: Seq<PendingRequest>) -> (Seq<PendingRequest>, Option<
    PendingRequest,
>) {
    if s.len() == 0 {
        (s, None)
    } else {
        (s.drop_first(), Some(s[0]))
    }
}

/// The effect of unlinking the request carrying `h`, wherever it stands in
/// the queue; a handle that is not queued leaves the queue untouched.
pub open spec fn spec_remove_handle(s: Seq<PendingRequest>, h: u64) -> (Seq<PendingRequest>,
    Option<PendingRequest>) {
    match spec_find(s, h) {
        Some(i) => (s.remove(i), Some(s[i])),
        None => (s, None),
    }
}

/// The pending-request queue. Its view is the sequence of queued requests
/// in first-in-first-out order, head first.
pub struct PendingQueue {
    items: Vec<PendingRequest>,
}

impl PendingQueue {
    /// No two queued requests share a handle.
    pub closed spec fn wf(self) -> bool {
        handles_unique(self.items@)
    }

    /// The queued requests in FIFO order.
    pub closed spec fn view(self) -> Seq<PendingRequest> {
        self.items@
    }

    /// An empty queue.
    pub fn new() -> (q: PendingQueue)
        ensures
            q.wf(),
            q@ == Seq::<PendingRequest>::empty(),
    {
        PendingQueue { items: Vec::new() }
    }

    /// How many requests are queued.
    pub fn len(&self) -> (n: usize)
        ensures
            n == self@.len(),
    {
        self.items.len()
    }

    /// Index of the request carrying `h`, if any.
    fn find_index(&self, h: u64) -> (r: Option<usize>)
        requires
            self.wf(),
        ensures
            match r {
                Some(i) => spec_find(self@, h) == Some(i as int) && i < self@.len()
                    && self@[i as int].handle == h,
                None => spec_find(self@, h) is None && !contains_handle(self@, h),
            },
    {
        let n = self.items.len();
        let mut i: usize = 0;
        while i < n
            invariant
                n == self.items@.len(),
                i <= n,
                self.wf(),
                forall|j: int| 0 <= j < i ==> self.items@[j].handle != h,
            decreases n - i,
        {
            if self.items[i].handle == h {
                proof {
                    assert(contains_handle(self@, h));
                    let w = choose|w: int| 0 <= w < self@.len() && self@[w].handle == h;
                    assert(w == i);
                }
                return Some(i);
            }
            i = i + 1;
        }
        None
    }

    /// Appends a fresh request at the tail.
    ///
    /// The handle names an administrative call object owned by its issuer,
    /// so the same handle is never queued twice.
    pub fn insert(&mut self, r: PendingRequest)
        requires
            old(self).wf(),
            !contains_handle(old(self)@, r.handle),
        ensures
            final(self).wf(),
            final(self)@ == old(self)@.push(r),
    {
        self.items.push(r);
        proof {
            let s = self.items@;
            assert forall|i: int, j: int| 0 <= i < j < s.len() implies s[i].handle
                != s[j].handle by {
                if j < s.len() - 1 {
                    assert(s[i] == old(self)@[i] && s[j] == old(self)@[j]);
                } else {
                    assert(s[i] == old(self)@[i]);
                    assert(contains_handle(old(self)@, s[i].handle));
                }
            }
        }
    }

    /// Returns without removal the request after `cursor`, or the head when
    /// `cursor` is none; returns nothing when the queue is empty, the
    /// cursor is not queued, or traversal has reached the tail.
    pub fn peek(&self, cursor: Option<u64>) -> (r: Option<PendingRequest>)
        requires
            self.wf(),
        ensures
            r == match cursor {
                None => if self@.len() == 0 {
                    None::<PendingRequest>
                } else {
                    Some(self@[0])
                },
                Some(h) => match spec_find(self@, h) {
                    Some(i) => if i + 1 < self@.len() {
                        Some(self@[i + 1])
                    } else {
                        None::<PendingRequest>
                    },
                    None => None::<PendingRequest>,
                },
            },
    {
        match cursor {
            None => {
                if self.items.len() == 0 {
                    None
                } else {
                    Some(self.items[0])
                }
            },
            Some(h) => {
                match self.find_index(h) {
                    Some(i) => {
                        let n = self.items.len();
                        if i + 1 < n {
                            Some(self.items[i + 1])
                        } else {
                            None
                        }
                    },
                    None => None,
                }
            },
        }
    }

    /// Removes and returns the head request for service; an empty queue
    /// yields nothing and stays empty.
    pub fn dequeue(&mut self) -> (r: Option<PendingRequest>)
        requires
            old(self).wf(),
        ensures
            final(self).wf(),
            final(self)@ == spec_dequeue(old(self)@).0,
            r == spec_dequeue(old(self)@).1,
    {
        if self.items.len() == 0 {
            None
        } else {
            let r = self.items.remove(0);
            proof {
                assert(self.items@ =~= old(self)@.drop_first());
                assert forall|i: int, j: int| 0 <= i < j < self.items@.len() implies self.items@[i].handle
                    != self.items@[j].handle by {
                    assert(self.items@[i] == old(self)@[i + 1]);
                    assert(self.items@[j] == old(self)@[j + 1]);
                }
            }
            Some(r)
        }
    }

    /// Unlinks the request carrying `h` in place, preserving the order of
    /// the others; a handle that is not queued leaves the queue untouched.
    pub fn remove(&mut self, h: u64) -> (r: Option<PendingRequest>)
        requires
            old(self).wf(),
        ensures
            final(self).wf(),
            final(self)@ == spec_remove_handle(old(self)@, h).0,
            r == spec_remove_handle(old(self)@, h).1,
    {
        match self.find_index(h) {
            Some(i) => {
                let r = self.items.remove(i);
                proof {
                    let s = self.items@;
                    assert forall|a: int, b: int| 0 <= a < b < s.len() implies s[a].handle
                        != s[b].handle by {
                        let a0 = if a < i {
                            a
                        } else {
                            a + 1
                        };
                        let b0 = if b < i {
                            b
                        } else {
                            b + 1
                        };
                        assert(s[a] == old(self)@[a0] && s[b] == old(self)@[b0]);
                    }
                }
                Some(r)
            },
            None => None,
        }
    }

    /// The platform's asynchronous cancellation callback: unlinks the
    /// handle if it is still queued and hands it back so the caller can
    /// complete the underlying call with a cancellation status; a handle
    /// already removed for service is reported as not queued.
    pub fn on_cancel(&mut self, h: u64) -> (r: CancelOutcome)
        requires
            old(self).wf(),
        ensures
            final(self).wf(),
            final(self)@ == spec_remove_handle(old(self)@, h).0,
            r == match spec_remove_handle(old(self)@, h).1 {
                Some(p) => CancelOutcome::Cancelled(p),
                None => CancelOutcome::NotQueued,
            },
    {
        match self.remove(h) {
            Some(p) => CancelOutcome::Cancelled(p),
            None => CancelOutcome::NotQueued,
        }
    }
}

/// Law: cancelling a queued request concurrently with a dequeue attempt
/// ends with the request either serviced or cancelled — exactly one of the
/// two, never both and never neither. Both operations run under the same
/// guard, so the race is one of the two orders below.
pub proof fn lemma_cancel_dequeue_exclusive(s: Seq<PendingRequest>, h: u64)
    requires
        handles_unique(s),
        contains_handle(s, h),
    ensures
        // Dequeue wins the guard first: it services the head. If the head
        // carried `h`, the cancellation that follows finds nothing; if not,
        // the cancellation still finds `h` queued and removes it.
        spec_dequeue(s).1 matches Some(d) && (d.handle == h <==> s[0].handle == h),
        s[0].handle == h ==> spec_remove_handle(spec_dequeue(s).0, h).1 is None,
        s[0].handle != h ==> (spec_remove_handle(spec_dequeue(s).0, h).1 matches Some(c)
            && c.handle == h),
        // Cancellation wins the guard first: it removes `h`, and no later
        // dequeue can ever return it.
        spec_remove_handle(s, h).1 matches Some(c) && c.handle == h,
        !contains_handle(spec_remove_handle(s, h).0, h),
{
    let s1 = spec_dequeue(s).0;
    if s[0].handle == h {
        assert forall|i: int| 0 <= i < s1.len() implies s1[i].handle != h by {
            assert(s1[i] == s[i + 1]);
        }
        assert(!contains_handle(s1, h));
    } else {
        let w = choose|w: int| 0 <= w < s.len() && s[w].handle == h;
        assert(s1[w - 1] == s[w]);
        assert(contains_handle(s1, h));
        let c = spec_remove_handle(s1, h).1;
        let j = choose|j: int| 0 <= j < s1.len() && s1[j].handle == h;
        assert(c == Some(s1[j]));
    }
    let i = choose|i: int| 0 <= i < s.len() && s[i].handle == h;
    let s2 = spec_remove_handle(s, h).0;
    assert(s2 == s.remove(i));
    assert forall|j: int| 0 <= j < s2.len() implies s2[j].handle != h by {
        let j0 = if j < i {
            j
        } else {
            j + 1
        };
        assert(s2[j] == s[j0]);
    }
}

} // verus!
