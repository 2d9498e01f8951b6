use reactor::ops::Read;
use reactor::source::{RawSource, SourceType};
use reactor::uring::RawCqe;
use reactor::{
    Backend, BackendKind, Completion, Event, NotifyAction, OpError, RegisterAction, SubmitPlan,
    WaitInput,
};

fn require_send_and_sync<T: Send + Sync>() {}

#[test]
fn completion_is_send_and_sync() {
    require_send_and_sync::<Completion>();
    require_send_and_sync::<Event>();
}

#[test]
fn polling_engine_flows_through_the_facade() {
    let mut c = Completion::new(BackendKind::Polling, 8);
    let sock = RawSource::new(4, SourceType::Socket);
    assert_eq!(c.register(&sock), Ok(RegisterAction::Nothing));
    assert_eq!(c.register(&sock), Err(OpError::AlreadyExists));

    let op = Read::new(&sock, vec![0u8; 8]);
    let plan = c.submit(&op, 5).unwrap();
    let pk = match plan {
        SubmitPlan::Attempt(pk) => pk,
        _ => panic!("a readiness submission attempts the operation first"),
    };
    match &mut c.inner {
        Backend::Polling(p) => {
            let (status, action) =
                p.submit_attempted(pk, 0, 5, true, false, Err(OpError::WouldBlock)).unwrap();
            assert_eq!(status, reactor::SubmissionStatus::Submitted);
            assert!(action.is_some());
        },
        _ => panic!("the facade keeps its backend"),
    }
    let mut out: Vec<Event> = Vec::new();
    let (n, action) = c.wait(WaitInput::Ready(pk, vec![Ok(2usize)]), &mut out);
    assert_eq!(n, 1);
    assert_eq!(action, None);
    assert_eq!(out, vec![Event { key: 5, result: Ok(2) }]);
    assert_eq!(c.notify(), Ok(NotifyAction::WakePoller));
    assert_eq!(c.deregister(&sock), Ok(()));
}

#[test]
fn ring_engine_flows_through_the_facade() {
    let mut c = Completion::new(BackendKind::Uring, 4);
    let sock = RawSource::new(4, SourceType::Socket);
    assert_eq!(c.register(&sock), Ok(RegisterAction::Nothing));
    let op = Read::new(&sock, vec![0u8; 8]);
    assert_eq!(c.submit(&op, 7), Ok(SubmitPlan::PushEntry));
    assert_eq!(c.notify(), Ok(NotifyAction::SignalRing));
    assert_eq!(c.notify(), Ok(NotifyAction::Nothing));
    let mut out: Vec<Event> = Vec::new();
    let cqes = vec![
        RawCqe { user_data: 7, result: 8 },
        RawCqe { user_data: u64::MAX, result: 8 },
    ];
    let (n, _) = c.wait(WaitInput::Cqes(cqes), &mut out);
    assert_eq!(n, 1);
    assert_eq!(out, vec![Event { key: 7, result: Ok(8) }]);
    assert_eq!(c.notify(), Ok(NotifyAction::SignalRing));
}

#[test]
fn port_engine_flows_through_the_facade() {
    let mut c = Completion::new(BackendKind::Iocp, 4);
    let file = RawSource::new(3, SourceType::File);
    assert_eq!(c.register(&file), Ok(RegisterAction::AssociatePort));
    let op = Read::new(&file, vec![0u8; 8]);
    let plan = c.submit(&op, 1).unwrap();
    let idx = match plan {
        SubmitPlan::StartOverlapped(idx) => idx,
        _ => panic!("a port submission starts the overlapped call"),
    };
    match &mut c.inner {
        Backend::Iocp(b) => {
            assert_eq!(
                b.submit_started(idx, Ok(None)),
                Ok(reactor::SubmissionStatus::Submitted)
            );
        },
        _ => panic!("the facade keeps its backend"),
    }
    assert_eq!(c.notify(), Ok(NotifyAction::PostPacket));
    let mut out: Vec<Event> = Vec::new();
    let packets = vec![reactor::iocp::RawCompletion { key: 1, index: idx, internal: 4, os_error: 0 }];
    let (n, _) = c.wait(WaitInput::Packets(packets), &mut out);
    assert_eq!(n, 1);
    assert_eq!(out, vec![Event { key: 1, result: Ok(4) }]);
}

#[test]
fn a_backend_wraps_into_an_engine() {
    let backend = Backend::Uring(reactor::uring::Completion::new(4));
    let mut c = Completion::from(backend);
    assert_eq!(c.notify(), Ok(NotifyAction::SignalRing));
}

#[test]
fn wait_with_nothing_drained_appends_nothing() {
    let mut c = Completion::new(BackendKind::Uring, 4);
    let mut out: Vec<Event> = Vec::new();
    let (n, _) = c.wait(WaitInput::Cqes(Vec::new()), &mut out);
    assert_eq!(n, 0);
    assert!(out.is_empty());
}

#[test]
fn reserved_key_rejection_is_deterministic_everywhere() {
    for kind in [BackendKind::Polling, BackendKind::Uring, BackendKind::Iocp] {
        let mut c = Completion::new(kind, 4);
        let sock = RawSource::new(4, SourceType::Socket);
        c.register(&sock).unwrap();
        let op = Read::new(&sock, vec![0u8; 8]);
        assert_eq!(c.submit(&op, u64::MAX), Err(OpError::InvalidInput));
        assert_eq!(c.submit(&op, u64::MAX), Err(OpError::InvalidInput));
    }
}
