use scil::cache::{TelemetryCache, TelemetryError};
use scil::channel::{
    cancel_pending_request, dispatch_status,
    handle_ioctl, queue_pso, submit_verdict, IoctlOutcome, NtStatus, AWAIT_PSO,
    IOCTL_DRAIN_LOG_SNAPSHOT, IOCTL_SNAPSHOT_QUE_LOG, SUBMIT_EDR_RESULT,
};
use scil::codec::{decode_entries, decode_entry, encode_verdict, TELEMETRY_ENTRY_BYTES};
use scil::interceptor::{intercept_enter, intercept_resume, EnterOutcome, TrapFrame};
use scil::pairing::decide;
use scil::pool::{init_syscall_suspended_pool, PoolError, ReleaseOutcome, DISPATCH_LEVEL};
use scil::queue::{CancelOutcome, PendingQueue, PendingRequest};
use scil::telemetry::{
    build_entry, Args, EdrResult, NtFunction, SyscallAllowed, SSN_NT_OPEN_PROCESS, SSN_NT_WRITE_VM,
};

const TARGET: &[u8] = b"scil_test";

fn trap() -> TrapFrame {
    TrapFrame { rcx: 10, rdx: 20, r8: 30, r9: 40 }
}

#[test]
fn pool_register_release_exactly_one() {
    let mut pool = init_syscall_suspended_pool();
    assert!(pool.is_empty());
    pool.register(1).expect("fresh id");
    pool.register(2).expect("fresh id");
    assert_eq!(pool.release(1), ReleaseOutcome::Released);
    // the other waiter is untouched and still releasable
    assert_eq!(pool.release(1), ReleaseOutcome::NotFound);
    assert_eq!(pool.release(2), ReleaseOutcome::Released);
    assert!(pool.is_empty());
}

#[test]
fn pool_duplicate_registration_is_refused() {
    let mut pool = init_syscall_suspended_pool();
    pool.register(7).expect("fresh id");
    assert_eq!(pool.register(7), Err(PoolError::DuplicateId));
    // the refused duplicate left the original registration intact
    assert_eq!(pool.release(7), ReleaseOutcome::Released);
}

#[test]
fn pool_release_unknown_is_reported_not_found() {
    let mut pool = init_syscall_suspended_pool();
    assert_eq!(pool.release(123), ReleaseOutcome::NotFound);
    assert!(pool.is_empty());
}

#[test]
fn pool_shutdown_releases_all_before_free() {
    let mut pool = init_syscall_suspended_pool();
    let k = 5u128;
    let mut id = 0u128;
    while id < k {
        pool.register(id).expect("fresh id");
        id += 1;
    }
    // above the safe priority the teardown step aborts and frees nothing
    assert!(!pool.begin_drain(DISPATCH_LEVEL + 1));
    assert!(!pool.is_empty());
    // at a safe priority every waiter is signaled, then each departs
    assert!(pool.begin_drain(DISPATCH_LEVEL));
    let mut id = 0u128;
    while id < k {
        assert!(!pool.is_empty());
        assert!(pool.deregister(id));
        id += 1;
    }
    assert!(pool.is_empty());
    pool.free_storage();
}

#[test]
fn shutdown_with_blocked_interceptions_releases_them_all() {
    let mut pool = init_syscall_suspended_pool();
    let mut q = PendingQueue::new();
    let k = 3u64;
    for h in 0..k {
        q.insert(PendingRequest { handle: h, capacity: TELEMETRY_ENTRY_BYTES });
    }
    let mut parked = Vec::new();
    for pid in 0..k as u32 {
        match intercept_enter(&mut pool, &mut q, TARGET, b"scil_test", SSN_NT_WRITE_VM, pid, trap(), None)
        {
            EnterOutcome::Blocked { entry, .. } => parked.push(entry.uuid),
            other => panic!("expected a parked call, got {:?}", other),
        }
    }
    assert_eq!(parked.len(), k as usize);
    // teardown signals every parked thread; each wakes, deregisters
    // itself, and only then may the storage be freed
    assert!(pool.begin_drain(0));
    for id in parked {
        assert!(!pool.is_empty());
        assert_eq!(intercept_resume(&mut pool, id), SyscallAllowed::Yes);
    }
    assert!(pool.is_empty());
    pool.free_storage();
}

#[test]
fn queue_is_fifo() {
    let mut q = PendingQueue::new();
    for h in 1..=3u64 {
        q.insert(PendingRequest { handle: h, capacity: 256 });
    }
    assert_eq!(q.len(), 3);
    assert_eq!(q.dequeue().unwrap().handle, 1);
    assert_eq!(q.dequeue().unwrap().handle, 2);
    assert_eq!(q.dequeue().unwrap().handle, 3);
    assert!(q.dequeue().is_none());
}

#[test]
fn queue_peek_walks_without_removing() {
    let mut q = PendingQueue::new();
    for h in 1..=3u64 {
        q.insert(PendingRequest { handle: h, capacity: 256 });
    }
    assert_eq!(q.peek(None).unwrap().handle, 1);
    assert_eq!(q.peek(Some(1)).unwrap().handle, 2);
    assert_eq!(q.peek(Some(2)).unwrap().handle, 3);
    assert!(q.peek(Some(3)).is_none());
    assert!(q.peek(Some(99)).is_none());
    assert_eq!(q.len(), 3);
    let mut empty = PendingQueue::new();
    assert!(empty.peek(None).is_none());
    assert!(empty.dequeue().is_none());
}

#[test]
fn queue_remove_unlinks_in_place() {
    let mut q = PendingQueue::new();
    for h in 1..=3u64 {
        q.insert(PendingRequest { handle: h, capacity: 256 });
    }
    assert_eq!(q.remove(2).unwrap().handle, 2);
    assert!(q.remove(2).is_none());
    assert_eq!(q.dequeue().unwrap().handle, 1);
    assert_eq!(q.dequeue().unwrap().handle, 3);
}

#[test]
fn cancel_after_dequeue_finds_nothing() {
    // the service path wins the guard: the entry cannot also be cancelled
    let mut q = PendingQueue::new();
    q.insert(PendingRequest { handle: 5, capacity: 256 });
    let served = q.dequeue().expect("queued");
    assert_eq!(served.handle, 5);
    assert_eq!(q.on_cancel(5), CancelOutcome::NotQueued);
}

#[test]
fn dequeue_after_cancel_never_yields_the_handle() {
    // the cancellation wins the guard: the entry cannot also be serviced
    let mut q = PendingQueue::new();
    q.insert(PendingRequest { handle: 5, capacity: 256 });
    q.insert(PendingRequest { handle: 6, capacity: 256 });
    match q.on_cancel(5) {
        CancelOutcome::Cancelled(r) => assert_eq!(r.handle, 5),
        CancelOutcome::NotQueued => panic!("was queued"),
    }
    assert_eq!(q.dequeue().unwrap().handle, 6);
    assert!(q.dequeue().is_none());
}

#[test]
fn cache_push_and_drain() {
    let mut cache = TelemetryCache::new();
    assert_eq!(cache.snapshot_count(), 0);
    let e = build_entry(NtFunction::NtAllocateVM, Args::empty(), 42);
    cache.push(e);
    cache.push(e);
    assert_eq!(cache.snapshot_count(), 2);
    let drained = cache.drain();
    assert_eq!(drained.len(), 2);
    assert_eq!(cache.snapshot_count(), 0);
}

#[test]
fn cache_drain_snapshot_checks_count() {
    let mut cache = TelemetryCache::default();
    assert_eq!(cache.drain_snapshot(0), Err(TelemetryError::NothingToDrain));
    let e = build_entry(NtFunction::NtWriteVM, Args::empty(), 1);
    cache.push(e);
    assert_eq!(
        cache.drain_snapshot(2),
        Err(TelemetryError::CountMismatch { expected: 2, actual: 1 })
    );
    // the mismatch returned no data, partial or otherwise
    assert_eq!(cache.snapshot_count(), 1);
    assert_eq!(cache.drain_snapshot(1).expect("matching count").len(), 1);
    assert_eq!(cache.snapshot_count(), 0);
}

#[test]
fn filtered_process_sees_no_work() {
    let mut pool = init_syscall_suspended_pool();
    let mut q = PendingQueue::new();
    q.insert(PendingRequest { handle: 1, capacity: TELEMETRY_ENTRY_BYTES });
    let r = intercept_enter(
        &mut pool,
        &mut q,
        TARGET,
        b"explorer.exe",
        SSN_NT_WRITE_VM,
        4,
        trap(),
        None,
    );
    assert_eq!(r, EnterOutcome::FilteredOut);
    assert_eq!(q.len(), 1);
    assert!(pool.is_empty());
}

#[test]
fn unmatched_syscall_number_is_allowed_through() {
    let mut pool = init_syscall_suspended_pool();
    let mut q = PendingQueue::new();
    q.insert(PendingRequest { handle: 1, capacity: TELEMETRY_ENTRY_BYTES });
    let r = intercept_enter(
        &mut pool,
        &mut q,
        TARGET,
        b"C:\\scil_test.exe",
        0x9999,
        4,
        trap(),
        None,
    );
    assert_eq!(r, EnterOutcome::NotIntercepted);
    assert_eq!(q.len(), 1);
    assert!(pool.is_empty());
}

#[test]
fn empty_queue_degrades_to_allow() {
    let mut pool = init_syscall_suspended_pool();
    let mut q = PendingQueue::new();
    let r = intercept_enter(
        &mut pool,
        &mut q,
        TARGET,
        b"scil_test.exe",
        SSN_NT_WRITE_VM,
        4,
        trap(),
        None,
    );
    assert_eq!(r, EnterOutcome::NoPendingRequest);
    assert!(pool.is_empty());
}

#[test]
fn intercepted_call_blocks_then_verdict_releases_it() {
    let mut cache = TelemetryCache::new();
    let mut pool = init_syscall_suspended_pool();
    let mut q = PendingQueue::new();

    // the engine parks one request for the next intercepted syscall
    let queued = handle_ioctl(
        &mut cache,
        &mut q,
        &mut pool,
        AWAIT_PSO,
        77,
        &[],
        TELEMETRY_ENTRY_BYTES,
    );
    assert_eq!(queued, IoctlOutcome::Queued);
    assert_eq!(q.len(), 1);

    // a monitored thread fires a matched syscall
    let r = intercept_enter(
        &mut pool,
        &mut q,
        TARGET,
        b"SCIL_TEST.EXE",
        SSN_NT_OPEN_PROCESS,
        1000,
        trap(),
        Some(4242),
    );
    let (completed, entry) = match r {
        EnterOutcome::Blocked { completed, entry } => (completed, entry),
        other => panic!("expected a parked call, got {:?}", other),
    };
    assert_eq!(completed.handle, 77);
    assert_eq!(q.len(), 0);
    assert!(!pool.is_empty());

    // the completed request's buffer carries the record byte for byte
    let delivered = decode_entry(&completed.data).expect("wire record");
    assert_eq!(delivered, entry);
    assert_eq!(delivered.nt_function, NtFunction::NtOpenProcess(4242));
    assert_eq!(delivered.pid, 1000);
    assert_eq!(delivered.args.rcx, Some(10));
    assert_eq!(delivered.args.stack1, None);

    // the pairing loop decides and answers; registration happened before
    // the completion was surfaced, so the verdict must find the waiter
    let verdict = decide(&delivered);
    let answered = handle_ioctl(
        &mut cache,
        &mut q,
        &mut pool,
        SUBMIT_EDR_RESULT,
        0,
        &encode_verdict(&verdict),
        0,
    );
    match answered {
        IoctlOutcome::Complete { status, output } => {
            assert_eq!(status, NtStatus::Success);
            assert!(output.is_empty());
        }
        IoctlOutcome::Queued => panic!("a verdict completes immediately"),
    }

    // the woken thread deregisters itself and the call is allowed
    assert_eq!(intercept_resume(&mut pool, entry.uuid), SyscallAllowed::Yes);
    assert!(pool.is_empty());

    // the same verdict a second time is a harmless no-op
    assert_eq!(
        submit_verdict(&mut pool, EdrResult { uuid: entry.uuid, allowed: SyscallAllowed::Yes }),
        ReleaseOutcome::NotFound
    );
}

#[test]
fn open_process_null_client_id_reads_zero() {
    let mut pool = init_syscall_suspended_pool();
    let mut q = PendingQueue::new();
    q.insert(PendingRequest { handle: 9, capacity: TELEMETRY_ENTRY_BYTES });
    let r = intercept_enter(
        &mut pool,
        &mut q,
        TARGET,
        b"scil_test",
        SSN_NT_OPEN_PROCESS,
        1,
        trap(),
        None,
    );
    match r {
        EnterOutcome::Blocked { entry, .. } => {
            assert_eq!(entry.nt_function, NtFunction::NtOpenProcess(0));
            intercept_resume(&mut pool, entry.uuid);
        }
        other => panic!("expected a parked call, got {:?}", other),
    }
}

#[test]
fn snapshot_reports_count_as_eight_bytes() {
    let mut cache = TelemetryCache::new();
    let mut pool = init_syscall_suspended_pool();
    let mut q = PendingQueue::new();
    cache.push(build_entry(NtFunction::NtAllocateVM, Args::empty(), 1));
    let r = handle_ioctl(&mut cache, &mut q, &mut pool, IOCTL_SNAPSHOT_QUE_LOG, 0, &[], 8);
    match r {
        IoctlOutcome::Complete { status, output } => {
            assert_eq!(status, NtStatus::Success);
            assert_eq!(output, vec![1, 0, 0, 0, 0, 0, 0, 0]);
        }
        IoctlOutcome::Queued => panic!("a snapshot completes immediately"),
    }
    assert_eq!(cache.snapshot_count(), 1);
}

#[test]
fn drain_with_wrong_count_is_an_error_not_partial_data() {
    let mut cache = TelemetryCache::new();
    let mut pool = init_syscall_suspended_pool();
    let mut q = PendingQueue::new();
    cache.push(build_entry(NtFunction::NtAllocateVM, Args::empty(), 1));
    cache.push(build_entry(NtFunction::NtWriteVM, Args::empty(), 2));

    let wrong = 3u64.to_le_bytes();
    let r = handle_ioctl(&mut cache, &mut q, &mut pool, IOCTL_DRAIN_LOG_SNAPSHOT, 0, &wrong, 1024);
    match r {
        IoctlOutcome::Complete { status, output } => {
            assert_eq!(status, NtStatus::Unsuccessful);
            assert!(output.is_empty());
        }
        IoctlOutcome::Queued => panic!("a drain completes immediately"),
    }
    assert_eq!(cache.snapshot_count(), 2);

    let right = 2u64.to_le_bytes();
    let r = handle_ioctl(&mut cache, &mut q, &mut pool, IOCTL_DRAIN_LOG_SNAPSHOT, 0, &right, 1024);
    match r {
        IoctlOutcome::Complete { status, output } => {
            assert_eq!(status, NtStatus::Success);
            let records = decode_entries(&output, 2).expect("wire records");
            assert_eq!(records.len(), 2);
            assert_eq!(records[0].pid, 1);
            assert_eq!(records[1].pid, 2);
        }
        IoctlOutcome::Queued => panic!("a drain completes immediately"),
    }
    assert_eq!(cache.snapshot_count(), 0);
}

#[test]
fn drain_of_empty_log_is_bad_data() {
    let mut cache = TelemetryCache::new();
    let mut pool = init_syscall_suspended_pool();
    let mut q = PendingQueue::new();
    let zero = 0u64.to_le_bytes();
    let r = handle_ioctl(&mut cache, &mut q, &mut pool, IOCTL_DRAIN_LOG_SNAPSHOT, 0, &zero, 1024);
    match r {
        IoctlOutcome::Complete { status, .. } => assert_eq!(status, NtStatus::BadData),
        IoctlOutcome::Queued => panic!("a drain completes immediately"),
    }
}

#[test]
fn drain_with_short_input_is_invalid() {
    let mut cache = TelemetryCache::new();
    let mut pool = init_syscall_suspended_pool();
    let mut q = PendingQueue::new();
    let r = handle_ioctl(&mut cache, &mut q, &mut pool, IOCTL_DRAIN_LOG_SNAPSHOT, 0, &[1, 2], 64);
    match r {
        IoctlOutcome::Complete { status, .. } => assert_eq!(status, NtStatus::InvalidBufferSize),
        IoctlOutcome::Queued => panic!("a drain completes immediately"),
    }
}

#[test]
fn await_pso_validates_the_output_buffer() {
    let mut q = PendingQueue::new();
    let r = queue_pso(&mut q, 1, TELEMETRY_ENTRY_BYTES - 1);
    match r {
        IoctlOutcome::Complete { status, .. } => assert_eq!(status, NtStatus::BufferTooSmall),
        IoctlOutcome::Queued => panic!("an undersized buffer is refused"),
    }
    assert_eq!(q.len(), 0);
    assert_eq!(queue_pso(&mut q, 1, TELEMETRY_ENTRY_BYTES), IoctlOutcome::Queued);
    assert_eq!(q.len(), 1);
}

#[test]
fn verdict_with_short_input_is_invalid() {
    let mut cache = TelemetryCache::new();
    let mut pool = init_syscall_suspended_pool();
    let mut q = PendingQueue::new();
    let r = handle_ioctl(&mut cache, &mut q, &mut pool, SUBMIT_EDR_RESULT, 0, &[0u8; 16], 0);
    match r {
        IoctlOutcome::Complete { status, .. } => assert_eq!(status, NtStatus::InvalidBufferSize),
        IoctlOutcome::Queued => panic!("a verdict completes immediately"),
    }
}

#[test]
fn verdict_for_unknown_id_reports_not_found() {
    let mut cache = TelemetryCache::new();
    let mut pool = init_syscall_suspended_pool();
    let mut q = PendingQueue::new();
    let v = EdrResult { uuid: 0x4242, allowed: SyscallAllowed::Yes };
    let r = handle_ioctl(&mut cache, &mut q, &mut pool, SUBMIT_EDR_RESULT, 0, &encode_verdict(&v), 0);
    match r {
        IoctlOutcome::Complete { status, .. } => assert_eq!(status, NtStatus::NotFound),
        IoctlOutcome::Queued => panic!("a verdict completes immediately"),
    }
}

#[test]
fn cancelled_request_is_completed_as_cancelled() {
    let mut q = PendingQueue::new();
    assert_eq!(queue_pso(&mut q, 11, TELEMETRY_ENTRY_BYTES), IoctlOutcome::Queued);
    match cancel_pending_request(&mut q, 11) {
        Some(IoctlOutcome::Complete { status, output }) => {
            assert_eq!(status, NtStatus::Cancelled);
            assert!(output.is_empty());
        }
        other => panic!("a queued handle is cancellable, got {:?}", other),
    }
    assert_eq!(q.len(), 0);
    // once serviced, the cancellation path has nothing left to complete
    assert_eq!(queue_pso(&mut q, 12, TELEMETRY_ENTRY_BYTES), IoctlOutcome::Queued);
    assert_eq!(q.dequeue().unwrap().handle, 12);
    assert!(cancel_pending_request(&mut q, 12).is_none());
}

#[test]
fn dispatcher_status_marks_queued_requests_pending() {
    let mut q = PendingQueue::new();
    let queued = queue_pso(&mut q, 21, TELEMETRY_ENTRY_BYTES);
    assert_eq!(dispatch_status(&queued), NtStatus::Pending);
    let refused = queue_pso(&mut q, 22, 0);
    assert_eq!(dispatch_status(&refused), NtStatus::BufferTooSmall);
}

#[test]
fn unknown_control_code_is_not_supported() {
    let mut cache = TelemetryCache::new();
    let mut pool = init_syscall_suspended_pool();
    let mut q = PendingQueue::new();
    let r = handle_ioctl(&mut cache, &mut q, &mut pool, 0xdead, 0, &[], 0);
    match r {
        IoctlOutcome::Complete { status, .. } => assert_eq!(status, NtStatus::NotSupported),
        IoctlOutcome::Queued => panic!("an unknown code completes immediately"),
    }
    assert_eq!(cache.snapshot_count(), 0);
    assert_eq!(q.len(), 0);
    assert!(pool.is_empty());
}
