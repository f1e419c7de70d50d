//! Session edges driven directly: timeouts up to the retry ceiling,
//! cancellation, and the dispatcher's refusals.

use file_protocol::dispatch::Dispatcher;
use file_protocol::errors::ProtocolError;
use file_protocol::machine::{Action, ExportTarget, Phase, Role, Session, MAX_STRIKES};
use file_protocol::message::Message;
use file_protocol::storage::Storage;

#[test]
fn receiver_retries_then_gives_up() {
    let mut store = Storage::new();
    let mut session = Session::new_receiver("a".repeat(64));
    let acts = session.on_sync(&store, 3);
    assert_eq!(acts.len(), 1);
    assert_eq!(session.phase, Phase::Negotiating);

    // Each stall re-sends the gap list, until the ceiling is reached.
    let mut timeouts: u32 = 0;
    while session.phase != Phase::Terminal {
        let acts = session.on_timeout(&store);
        timeouts += 1;
        if session.phase != Phase::Terminal {
            assert_eq!(acts.len(), 1);
            match &acts[0] {
                Action::Send(Message::SyncNack { missing, .. }) => {
                    assert_eq!(missing, &vec![0, 1, 2]);
                }
                _ => panic!("a stalled receiver re-sends its gap list"),
            }
        } else {
            assert_eq!(acts.len(), 0);
        }
        assert!(timeouts <= MAX_STRIKES);
    }
    assert_eq!(timeouts, MAX_STRIKES);
    assert_eq!(session.outcome, Some(ProtocolError::PeerUnresponsive));
}

#[test]
fn sender_reinitiates_on_timeout() {
    let mut store = Storage::new();
    let (hash, n) = store.import(&b"test-timeout".to_vec());
    let (mut session, _) = Session::new_sender(hash.clone(), n, None);

    let acts = session.on_timeout(&store);
    assert_eq!(acts.len(), 1);
    match &acts[0] {
        Action::Send(Message::Sync { hash: h, num_chunks }) => {
            assert_eq!(h, &hash);
            assert_eq!(*num_chunks, n);
        }
        _ => panic!("a stalled sender re-initiates from its sync"),
    }
}

#[test]
fn cancel_sends_a_nak_and_terminates() {
    let mut session = Session::new_receiver("b".repeat(64));
    let acts = session.cancel();
    assert_eq!(session.phase, Phase::Terminal);
    assert_eq!(session.outcome, Some(ProtocolError::Cancelled));
    match &acts[0] {
        Action::Send(Message::Nak { reason, .. }) => assert_eq!(reason, "cancelled"),
        _ => panic!("cancelling tells the peer"),
    }
}

#[test]
fn gap_list_for_unknown_hash_is_refused() {
    // The peer asks for chunks of a hash this side never staged.
    let empty_store = Storage::new();
    let (mut stray, _) = Session::new_sender("c".repeat(64), 1, None);
    assert_eq!(stray.role, Role::Sender);

    let acts = stray.on_sync_nack(&empty_store, &vec![0]);

    assert_eq!(stray.phase, Phase::Terminal);
    assert_eq!(stray.outcome, Some(ProtocolError::UnknownHash));
    match &acts[0] {
        Action::Send(Message::Nak { reason, .. }) => assert_eq!(reason, "unknown hash"),
        _ => panic!("an unknown hash draws a nak"),
    }
}

#[test]
fn dispatcher_refuses_beyond_its_bound() {
    let mut store = Storage::new();
    let mut dispatcher = Dispatcher::new(1);

    let first = dispatcher.route(
        &mut store,
        &"peer-1".to_string(),
        Message::Sync { hash: "d".repeat(64), num_chunks: 2 },
    );
    assert_eq!(first.len(), 1);

    // A second new hash while the only slot is taken draws a busy nak.
    let second = dispatcher.route(
        &mut store,
        &"peer-2".to_string(),
        Message::Sync { hash: "e".repeat(64), num_chunks: 2 },
    );
    match &second[0] {
        Action::Send(Message::Nak { reason, .. }) => assert_eq!(reason, "busy"),
        _ => panic!("a full dispatcher refuses new sessions"),
    }
}

#[test]
fn import_request_asks_for_staging_then_announces() {
    let mut store = Storage::new();
    let mut dispatcher = Dispatcher::new(4);
    let peer = "requester".to_string();

    let acts = dispatcher.route(
        &mut store,
        &peer,
        Message::Import { path: "/remote/source".to_string() },
    );
    match &acts[0] {
        Action::StageFile { path } => assert_eq!(path, "/remote/source"),
        _ => panic!("an import request asks the caller to stage the file"),
    }

    // The caller stages the file and announces it back.
    let (hash, n) = store.import(&b"import-me".to_vec());
    let acts = dispatcher.announce(&peer, &hash, n);
    match &acts[0] {
        Action::Send(Message::Sync { hash: h, num_chunks }) => {
            assert_eq!(h, &hash);
            assert_eq!(*num_chunks, n);
        }
        _ => panic!("staging is announced with a sync"),
    }
}

#[test]
fn duplicate_chunk_delivery_changes_nothing() {
    let mut store = Storage::new();
    let hash = "a".repeat(64);
    let mut session = Session::new_receiver(hash.clone());
    let _ = session.on_sync(&store, 2);

    let first = session.on_chunk(&mut store, 0, b"same bytes".to_vec());
    let missing_after_once = store.missing(&hash, 2);
    let chunk_after_once = store.load(&hash, 0).expect("chunk");
    let phase_after_once = session.phase;

    // The same chunk message again: store, gap list and phase all stay.
    let second = session.on_chunk(&mut store, 0, b"same bytes".to_vec());
    assert_eq!(store.missing(&hash, 2), missing_after_once);
    assert_eq!(store.load(&hash, 0).expect("chunk"), chunk_after_once);
    assert_eq!(session.phase, phase_after_once);
    assert_eq!(first.len(), second.len());
}

#[test]
fn export_waits_for_the_missing_chunks() {
    let mut store = Storage::new();
    let mut session = Session::new_receiver("f".repeat(64));
    let _ = session.on_sync(&store, 2);

    // The export order arrives while chunks are still missing: nothing to
    // do yet, and the session is not over.
    let acts = session.on_export(&store, "/dest".to_string(), 420);
    assert_eq!(acts.len(), 0);
    assert!(session.phase != Phase::Terminal);
    assert!(matches!(session.target, Some(ExportTarget { .. })));
}
