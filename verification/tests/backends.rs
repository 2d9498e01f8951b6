use reactor::iocp;
use reactor::polling;
use reactor::source::{RawSource, SourceType};
use reactor::uring;
use reactor::{Event, OpError, SubmissionStatus, TimeSpan};

#[test]
fn polling_rejects_files() {
    let mut c = polling::Completion::new(8);
    let file = RawSource::new(3, SourceType::File);
    assert_eq!(c.register(&file), Err(OpError::InvalidInput));
}

#[test]
fn polling_rejects_duplicate_registration_once() {
    let mut c = polling::Completion::new(8);
    let sock = RawSource::new(9, SourceType::Socket);
    assert_eq!(c.register(&sock), Ok(()));
    assert_eq!(c.register(&sock), Err(OpError::AlreadyExists));
    assert_eq!(c.deregister(&sock), Ok(()));
    assert_eq!(c.register(&sock), Ok(()));
}

#[test]
fn polling_rejects_the_reserved_key() {
    let mut c = polling::Completion::new(8);
    let sock = RawSource::new(9, SourceType::Socket);
    c.register(&sock).unwrap();
    assert_eq!(c.submit(9, u64::MAX), Err(OpError::InvalidInput));
}

#[test]
fn polling_rejects_unknown_sources() {
    let c = polling::Completion::new(8);
    assert_eq!(c.submit(42, 1), Err(OpError::NotFound));
}

#[test]
fn polling_first_try_success_is_already_complete() {
    let mut c = polling::Completion::new(8);
    let sock = RawSource::new(9, SourceType::Socket);
    c.register(&sock).unwrap();
    let pk = c.submit(9, 5).unwrap();
    let r = c.submit_attempted(pk, 0, 5, true, false, Ok(13)).unwrap();
    assert_eq!(r.0, SubmissionStatus::AlreadyComplete(Ok(13)));
    assert_eq!(r.1, None);
    // nothing was parked, so nothing ever fires for this key
    assert_eq!(c.pending_ops(pk).len(), 0);
    let mut out: Vec<Event> = Vec::new();
    let results: Vec<Result<usize, OpError>> = Vec::new();
    let (n, action) = c.settle_source(pk, &results, &mut out);
    assert_eq!(n, 0);
    assert_eq!(action, None);
    assert_eq!(out.len(), 0);
}

#[test]
fn polling_blocked_attempt_parks_and_broadens_interest() {
    let mut c = polling::Completion::new(8);
    let sock = RawSource::new(9, SourceType::Socket);
    c.register(&sock).unwrap();
    let pk = c.submit(9, 5).unwrap();
    let (status, action) =
        c.submit_attempted(pk, 0, 5, true, false, Err(OpError::WouldBlock)).unwrap();
    assert_eq!(status, SubmissionStatus::Submitted);
    let interest = action.unwrap();
    assert_eq!(interest.source, 9);
    assert_eq!(interest.poll_key, pk);
    assert!(interest.readable);
    assert!(!interest.writable);
    // a second read on the same source does not broaden the mask
    let pk2 = c.submit(9, 6).unwrap();
    let (status2, action2) =
        c.submit_attempted(pk2, 1, 6, true, false, Err(OpError::WouldBlock)).unwrap();
    assert_eq!(status2, SubmissionStatus::Submitted);
    assert_eq!(action2, None);
}

#[test]
fn polling_full_budget_rejects_with_out_of_memory() {
    let mut c = polling::Completion::new(2);
    let sock = RawSource::new(9, SourceType::Socket);
    c.register(&sock).unwrap();
    for key in [1u64, 2] {
        let pk = c.submit(9, key).unwrap();
        let (status, _) = c
            .submit_attempted(pk, key as usize, key, true, false, Err(OpError::WouldBlock))
            .unwrap();
        assert_eq!(status, SubmissionStatus::Submitted);
    }
    assert_eq!(c.submit(9, 3), Err(OpError::OutOfMemory));
}

#[test]
fn polling_deregister_frees_the_budget_of_parked_ops() {
    let mut c = polling::Completion::new(1);
    let sock = RawSource::new(9, SourceType::Socket);
    c.register(&sock).unwrap();
    let pk = c.submit(9, 1).unwrap();
    c.submit_attempted(pk, 0, 1, true, false, Err(OpError::WouldBlock)).unwrap();
    assert_eq!(c.in_flight(), 1);
    assert_eq!(c.submit(9, 2), Err(OpError::OutOfMemory));
    c.deregister(&sock).unwrap();
    assert_eq!(c.in_flight(), 0);
    c.register(&sock).unwrap();
    let pk2 = c.submit(9, 3).unwrap();
    let (status, _) =
        c.submit_attempted(pk2, 1, 3, true, false, Err(OpError::WouldBlock)).unwrap();
    assert_eq!(status, SubmissionStatus::Submitted);
}

#[test]
fn polling_settle_fires_resolved_ops_and_keeps_pending_ones() {
    let mut c = polling::Completion::new(8);
    let sock = RawSource::new(9, SourceType::Socket);
    c.register(&sock).unwrap();
    let pk = c.submit(9, 11).unwrap();
    c.submit_attempted(pk, 0, 11, true, false, Err(OpError::WouldBlock)).unwrap();
    let pk2 = c.submit(9, 12).unwrap();
    assert_eq!(pk, pk2);
    c.submit_attempted(pk, 1, 12, true, false, Err(OpError::WouldBlock)).unwrap();

    let mut out: Vec<Event> = Vec::new();
    let results = vec![Err(OpError::WouldBlock), Ok(3usize)];
    let (n, action) = c.settle_source(pk, &results, &mut out);
    assert_eq!(n, 1);
    assert_eq!(out.len(), 1);
    assert_eq!(out[0], Event { key: 12, result: Ok(3) });
    let interest = action.unwrap();
    assert!(interest.readable);
    let remaining = c.pending_ops(pk);
    assert_eq!(remaining.len(), 1);
    assert_eq!(remaining[0].key, 11);
}

#[test]
fn uring_notifies_coalesce() {
    let mut u = uring::Completion::new(64);
    assert_eq!(u.notify(), Ok(true));
    for _ in 0..99 {
        assert_eq!(u.notify(), Ok(false));
    }
    // the wakeup completion is consumed silently and re-arms notify
    let mut out: Vec<Event> = Vec::new();
    let cqes = vec![uring::RawCqe { user_data: u64::MAX, result: 8 }];
    let n = u.complete(&cqes, &mut out);
    assert_eq!(n, 0);
    assert_eq!(out.len(), 0);
    assert!(!u.is_notified());
    assert_eq!(u.notify(), Ok(true));
}

#[test]
fn uring_completions_become_events() {
    let mut u = uring::Completion::new(64);
    let mut out: Vec<Event> = Vec::new();
    let cqes = vec![
        uring::RawCqe { user_data: 7, result: 5 },
        uring::RawCqe { user_data: u64::MAX, result: 8 },
        uring::RawCqe { user_data: 8, result: -11 },
    ];
    let n = u.complete(&cqes, &mut out);
    assert_eq!(n, 2);
    assert_eq!(out.len(), 2);
    assert_eq!(out[0], Event { key: 7, result: Ok(5) });
    assert_eq!(out[1], Event { key: 8, result: Err(OpError::Os(11)) });
    for e in &out {
        assert!(e.key != u64::MAX);
    }
}

#[test]
fn uring_full_ring_rejects_with_out_of_memory() {
    let mut u = uring::Completion::new(2);
    assert_eq!(u.submit(1), Ok(()));
    assert_eq!(u.submit(2), Ok(()));
    assert_eq!(u.submit(3), Err(OpError::OutOfMemory));
    assert_eq!(u.submit(u64::MAX), Err(OpError::InvalidInput));
}

#[test]
fn uring_wakeup_with_a_full_ring_fails() {
    let mut u = uring::Completion::new(1);
    assert_eq!(u.submit(1), Ok(()));
    assert_eq!(u.notify(), Err(OpError::Other));
    // the flush empties the ring and the wakeup goes through
    let mut out: Vec<Event> = Vec::new();
    u.complete(&Vec::new(), &mut out);
    assert_eq!(u.notify(), Ok(true));
}

#[test]
fn iocp_slab_saturation_is_deterministic() {
    let mut c = iocp::Completion::new(2);
    assert!(c.submit(1, SourceType::Socket).is_ok());
    assert!(c.submit(2, SourceType::Socket).is_ok());
    assert_eq!(c.submit(3, SourceType::Socket), Err(OpError::OutOfMemory));
    assert_eq!(c.submit(3, SourceType::Socket), Err(OpError::OutOfMemory));
    assert_eq!(c.submit(u64::MAX, SourceType::Socket), Err(OpError::InvalidInput));
}

#[test]
fn iocp_fires_exactly_one_event_per_operation() {
    let mut c = iocp::Completion::new(4);
    let idx = c.submit(9, SourceType::Socket).unwrap();
    assert_eq!(c.submit_started(idx, Ok(None)), Ok(SubmissionStatus::Submitted));
    let packet = iocp::RawCompletion { key: 9, index: idx, internal: 5, os_error: 0 };
    let mut out: Vec<Event> = Vec::new();
    let n = c.complete(&vec![packet, packet], &mut out);
    assert_eq!(n, 1);
    assert_eq!(out, vec![Event { key: 9, result: Ok(5) }]);
}

#[test]
fn iocp_discards_the_packet_of_a_synchronous_completion() {
    let mut c = iocp::Completion::new(4);
    let idx = c.submit(3, SourceType::Socket).unwrap();
    assert_eq!(
        c.submit_started(idx, Ok(Some(7))),
        Ok(SubmissionStatus::AlreadyComplete(Ok(7)))
    );
    let packet = iocp::RawCompletion { key: 3, index: idx, internal: 7, os_error: 0 };
    let mut out: Vec<Event> = Vec::new();
    let n = c.complete(&vec![packet], &mut out);
    assert_eq!(n, 0);
    assert!(out.is_empty());
}

#[test]
fn iocp_reads_failure_codes_by_source_variant() {
    let mut c = iocp::Completion::new(4);
    let f = c.submit(1, SourceType::File).unwrap();
    let s = c.submit(2, SourceType::Socket).unwrap();
    let z = c.submit(3, SourceType::Socket).unwrap();
    let packets = vec![
        iocp::RawCompletion { key: 1, index: f, internal: 0, os_error: 5 },
        iocp::RawCompletion { key: 2, index: s, internal: -1, os_error: 6 },
        iocp::RawCompletion { key: 3, index: z, internal: 0, os_error: 7 },
    ];
    let mut out: Vec<Event> = Vec::new();
    let n = c.complete(&packets, &mut out);
    assert_eq!(n, 3);
    assert_eq!(out[0], Event { key: 1, result: Err(OpError::Os(5)) });
    assert_eq!(out[1], Event { key: 2, result: Err(OpError::Os(6)) });
    assert_eq!(out[2], Event { key: 3, result: Ok(0) });
}

#[test]
fn iocp_notify_coalesces_until_the_packet_arrives() {
    let mut c = iocp::Completion::new(4);
    assert!(c.notify());
    assert!(!c.notify());
    let wakeup = iocp::RawCompletion { key: u64::MAX, index: usize::MAX, internal: 0, os_error: 0 };
    let mut out: Vec<Event> = Vec::new();
    let n = c.complete(&vec![wakeup], &mut out);
    assert_eq!(n, 0);
    assert!(out.is_empty());
    assert!(!c.is_notified());
    assert!(c.notify());
}

#[test]
fn timeout_conversion_rounds_up_and_saturates() {
    assert_eq!(iocp::timeout_to_ms(None), 0xffff_ffff);
    assert_eq!(iocp::timeout_to_ms(Some(TimeSpan { secs: 0, nanos: 0 })), 0);
    assert_eq!(iocp::timeout_to_ms(Some(TimeSpan { secs: 1, nanos: 500_000 })), 1001);
    assert_eq!(iocp::timeout_to_ms(Some(TimeSpan { secs: 0, nanos: 1_000_000 })), 1);
    assert_eq!(iocp::timeout_to_ms(Some(TimeSpan { secs: 0, nanos: 1_000_001 })), 2);
    assert_eq!(
        iocp::timeout_to_ms(Some(TimeSpan { secs: u64::MAX / 2, nanos: 0 })),
        0xffff_fffe
    );
}

#[test]
fn deadline_carries_nanoseconds() {
    let d = uring::wait_deadline(
        TimeSpan { secs: 1, nanos: 999_999_999 },
        TimeSpan { secs: 0, nanos: 1 },
    );
    assert_eq!(d, TimeSpan { secs: 2, nanos: 0 });
    let d2 = uring::wait_deadline(
        TimeSpan { secs: 5, nanos: 100 },
        TimeSpan { secs: 2, nanos: 200 },
    );
    assert_eq!(d2, TimeSpan { secs: 7, nanos: 300 });
}
