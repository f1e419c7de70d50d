//! The pause/resume outbound queue, and the error kinds on the wire.

use file_protocol::errors::ProtocolError;
use file_protocol::machine::error_of_reason;
use file_protocol::pause::{OutboundQueue, SubmitOutcome};

#[test]
fn unpaused_datagrams_pass_through() {
    let mut q = OutboundQueue::new(4);
    match q.submit(vec![1, 2, 3]) {
        SubmitOutcome::SendNow(f) => assert_eq!(f, vec![1, 2, 3]),
        _ => panic!("an unpaused queue must pass the datagram through"),
    }
}

#[test]
fn paused_datagrams_queue_and_resume_in_order() {
    let mut q = OutboundQueue::new(4);
    q.pause();
    assert!(matches!(q.submit(vec![1]), SubmitOutcome::Queued));
    assert!(matches!(q.submit(vec![2]), SubmitOutcome::Queued));
    assert!(matches!(q.submit(vec![3]), SubmitOutcome::Queued));

    let drained = q.resume();
    assert_eq!(drained, vec![vec![1], vec![2], vec![3]]);

    // Resumed: the next datagram passes through again.
    assert!(matches!(q.submit(vec![4]), SubmitOutcome::SendNow(_)));
}

#[test]
fn full_queue_refuses_with_overrun() {
    let mut q = OutboundQueue::new(2);
    q.pause();
    assert!(matches!(q.submit(vec![1]), SubmitOutcome::Queued));
    assert!(matches!(q.submit(vec![2]), SubmitOutcome::Queued));
    assert!(matches!(q.submit(vec![3]), SubmitOutcome::Overrun));

    // The refused datagram is gone; the first two come back untouched.
    assert_eq!(q.resume(), vec![vec![1], vec![2]]);
}

#[test]
fn nak_reasons_map_back_to_error_kinds() {
    let kinds = [
        ProtocolError::HashMismatch,
        ProtocolError::MissingChunk,
        ProtocolError::BadFrame,
        ProtocolError::UnknownHash,
        ProtocolError::PeerUnresponsive,
        ProtocolError::Cancelled,
        ProtocolError::Overrun,
        ProtocolError::Io,
    ];
    for kind in kinds {
        assert_eq!(error_of_reason(&kind.message().to_string()), kind);
    }
    // An unrecognized reason is reported as an I/O-level failure.
    assert_eq!(error_of_reason(&"socket on fire".to_string()), ProtocolError::Io);
}
