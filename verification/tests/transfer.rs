//! Whole transfers driven over an in-memory lossless channel: every message
//! really goes through the framing and the CBOR codec, every chunk through
//! the staging stores, and the finished file through the hash check.

use file_protocol::codec::{decode_frame, frame_message, FrameEvent};
use file_protocol::dispatch::Dispatcher;
use file_protocol::errors::ProtocolError;
use file_protocol::machine::{Action, ExportTarget, Phase, Session};
use file_protocol::message::Message;
use file_protocol::storage::Storage;

/// A file the receiver wrote, caught instead of a file system.
struct Written {
    path: String,
    mode: u32,
    data: Vec<u8>,
}

/// What one driven upload left behind.
struct RunReport {
    hash: String,
    num_chunks: u32,
    written: Vec<Written>,
    chunks_sent: usize,
    nacks_seen: Vec<Vec<u32>>,
    client_phase: Phase,
    client_outcome: Option<ProtocolError>,
    client_acked: bool,
}

/// Drives one upload to completion over a lossless in-memory channel: the
/// client stages `contents`, announces it, answers every gap list, and
/// orders the export to `dest`; the server routes each datagram through its
/// dispatcher.
fn run_upload(
    client_store: &mut Storage,
    server_store: &mut Storage,
    server: &mut Dispatcher,
    peer: &str,
    contents: &[u8],
    dest: &str,
) -> RunReport {
    let source: Vec<u8> = contents.to_vec();
    let (hash, num_chunks) = client_store.import(&source);
    let (mut session, first) = Session::new_sender(
        hash.clone(),
        num_chunks,
        Some(ExportTarget { path: dest.to_string(), mode: 420 }),
    );

    let mut to_server: Vec<Vec<u8>> = Vec::new();
    let mut to_client: Vec<Vec<u8>> = Vec::new();
    let mut written: Vec<Written> = Vec::new();
    let mut chunks_sent: usize = 0;
    let mut nacks_seen: Vec<Vec<u32>> = Vec::new();

    queue_client_actions(first, &mut to_server, &mut chunks_sent);

    let peer_name = peer.to_string();
    let mut budget: usize = 10_000;
    while (!to_server.is_empty() || !to_client.is_empty()) && budget > 0 {
        budget -= 1;
        if !to_server.is_empty() {
            let datagram = to_server.remove(0);
            let event = decode_frame(&datagram).expect("server frame");
            if let FrameEvent::Data(msg) = event {
                let acts = server.route(server_store, &peer_name, msg);
                queue_server_actions(acts, &mut to_client, &mut written);
            }
            continue;
        }
        let datagram = to_client.remove(0);
        let event = decode_frame(&datagram).expect("client frame");
        if let FrameEvent::Data(msg) = event {
            let acts = match msg {
                Message::SyncNack { missing, .. } => {
                    nacks_seen.push(missing.clone());
                    if session.phase == Phase::Terminal {
                        Vec::new()
                    } else {
                        session.on_sync_nack(client_store, &missing)
                    }
                }
                Message::Done { .. } => session.on_done(),
                Message::Nak { reason, .. } => session.on_nak(&reason),
                Message::Ack { .. } => session.on_ack(),
                _ => Vec::new(),
            };
            queue_client_actions(acts, &mut to_server, &mut chunks_sent);
        }
    }
    assert!(budget > 0, "transfer did not settle");

    RunReport {
        hash,
        num_chunks,
        written,
        chunks_sent,
        nacks_seen,
        client_phase: session.phase,
        client_outcome: session.outcome,
        client_acked: session.acked,
    }
}

fn queue_client_actions(acts: Vec<Action>, to_server: &mut Vec<Vec<u8>>, chunks_sent: &mut usize) {
    for act in acts {
        match act {
            Action::Send(msg) => {
                if matches!(msg, Message::Chunk { .. }) {
                    *chunks_sent += 1;
                }
                to_server.push(frame_message(&msg));
            }
            _ => {}
        }
    }
}

fn queue_server_actions(acts: Vec<Action>, to_client: &mut Vec<Vec<u8>>, written: &mut Vec<Written>) {
    for act in acts {
        match act {
            Action::Send(msg) => to_client.push(frame_message(&msg)),
            Action::WriteFile { path, mode, data } => written.push(Written { path, mode, data }),
            _ => {}
        }
    }
}

#[test]
fn upload_single_chunk() {
    let mut client_store = Storage::new();
    let mut server_store = Storage::new();
    let mut server = Dispatcher::new(8);

    let report = run_upload(
        &mut client_store,
        &mut server_store,
        &mut server,
        "client",
        b"test1",
        "/dest",
    );

    assert_eq!(
        report.hash,
        "1b4f0e9851971998e732078544c96b36c3d01cedf7caa332359d6f1d83567014"
    );
    assert_eq!(report.num_chunks, 1);
    assert_eq!(report.chunks_sent, 1);
    assert_eq!(report.client_phase, Phase::Terminal);
    assert_eq!(report.client_outcome, None);
    // The receiver acknowledged full receipt once its gap list emptied.
    assert!(report.client_acked);
    assert_eq!(report.written.len(), 1);
    assert_eq!(report.written[0].path, "/dest");
    assert_eq!(report.written[0].mode, 420);
    assert_eq!(report.written[0].data, b"test1".to_vec());
}

#[test]
fn upload_two_chunks_clean() {
    let mut client_store = Storage::new();
    let mut server_store = Storage::new();
    let mut server = Dispatcher::new(8);

    let contents = vec![1u8; 5000];
    let report = run_upload(
        &mut client_store,
        &mut server_store,
        &mut server,
        "client",
        &contents,
        "/dest",
    );

    assert_eq!(
        report.hash,
        "e53130831c13dabff71d5d1797e3aaa467b4b7d32b3b8782c4ff03d76976f2aa"
    );
    assert_eq!(report.num_chunks, 2);
    // The first gap list asks for both chunks, in ascending order.
    assert_eq!(report.nacks_seen[0], vec![0u32, 1u32]);
    // The two chunks split 5000 bytes as 4096 + 904.
    assert_eq!(server_store.load(&report.hash, 0).expect("chunk 0").len(), 4096);
    assert_eq!(server_store.load(&report.hash, 1).expect("chunk 1").len(), 904);
    assert_eq!(report.client_outcome, None);
    assert_eq!(report.written.last().expect("written").data, contents);
}

#[test]
fn upload_resume_after_partial_loss() {
    let mut client_store = Storage::new();
    let mut server_store = Storage::new();
    let mut server = Dispatcher::new(8);

    let contents = vec![2u8; 5000];
    let first = run_upload(
        &mut client_store,
        &mut server_store,
        &mut server,
        "client",
        &contents,
        "/dest",
    );
    assert_eq!(first.client_outcome, None);

    // The receiver loses chunk 0: rebuild its store holding only chunk 1.
    let survivor = server_store.load(&first.hash, 1).expect("chunk 1");
    let mut partial_store = Storage::new();
    partial_store.put(&first.hash, 1, survivor);

    let second = run_upload(
        &mut client_store,
        &mut partial_store,
        &mut server,
        "client",
        &contents,
        "/dest",
    );

    // The gap list asks for index 0 alone, one chunk message refills it.
    assert_eq!(second.nacks_seen[0], vec![0u32]);
    assert_eq!(second.chunks_sent, 1);
    assert_eq!(second.client_outcome, None);
    assert_eq!(second.written.last().expect("written").data, contents);
}

#[test]
fn upload_all_chunks_already_present() {
    let mut client_store = Storage::new();
    let mut server_store = Storage::new();
    let mut server = Dispatcher::new(8);

    let contents = vec![3u8; 5000];
    let first = run_upload(
        &mut client_store,
        &mut server_store,
        &mut server,
        "client",
        &contents,
        "/dest",
    );
    assert_eq!(first.client_outcome, None);

    let second = run_upload(
        &mut client_store,
        &mut server_store,
        &mut server,
        "client",
        &contents,
        "/dest",
    );

    // The second run finds nothing missing and sends no chunk at all.
    assert_eq!(second.nacks_seen[0], Vec::<u32>::new());
    assert_eq!(second.chunks_sent, 0);
    assert_eq!(second.client_outcome, None);
    assert_eq!(second.written.last().expect("written").data, contents);
}

#[test]
fn upload_bad_hash_fails() {
    let mut client_store = Storage::new();
    let mut server_store = Storage::new();
    let mut server = Dispatcher::new(8);

    let first = run_upload(
        &mut client_store,
        &mut server_store,
        &mut server,
        "client",
        b"test1",
        "/dest",
    );
    assert_eq!(first.client_outcome, None);

    // Tamper with the stored chunk; the re-run must fail the hash check and
    // write nothing.
    server_store.put(&first.hash, 0, b"bad data".to_vec());

    let second = run_upload(
        &mut client_store,
        &mut server_store,
        &mut server,
        "client",
        b"test1",
        "/dest",
    );

    assert_eq!(second.client_outcome, Some(ProtocolError::HashMismatch));
    assert_eq!(second.written.len(), 0);
}

#[test]
fn upload_five_clients_one_server() {
    let mut server_store = Storage::new();
    let mut server = Dispatcher::new(8);

    // Five clients upload five distinct files through one dispatcher, one
    // datagram per client per round, so the five sessions live and progress
    // at the same time; each completes on its own and each file comes out
    // intact at its own destination.
    struct ClientRun {
        peer: String,
        session: Session,
        store: Storage,
        to_server: Vec<Vec<u8>>,
        to_client: Vec<Vec<u8>>,
        chunks_sent: usize,
    }

    let mut written: Vec<Written> = Vec::new();
    let mut clients: Vec<ClientRun> = Vec::new();
    let mut expected: Vec<Vec<u8>> = Vec::new();
    for num in 0..5u8 {
        let contents = vec![num + 10; 5000];
        let mut store = Storage::new();
        let (hash, num_chunks) = store.import(&contents);
        let (session, first) = Session::new_sender(
            hash,
            num_chunks,
            Some(ExportTarget { path: format!("/dest-{}", num), mode: 420 }),
        );
        let mut run = ClientRun {
            peer: format!("client-{}", num),
            session,
            store,
            to_server: Vec::new(),
            to_client: Vec::new(),
            chunks_sent: 0,
        };
        queue_client_actions(first, &mut run.to_server, &mut run.chunks_sent);
        clients.push(run);
        expected.push(contents);
    }

    let mut budget: usize = 10_000;
    loop {
        budget -= 1;
        assert!(budget > 0, "transfers did not settle");
        let mut progressed = false;
        for run in clients.iter_mut() {
            if !run.to_server.is_empty() {
                progressed = true;
                let datagram = run.to_server.remove(0);
                if let FrameEvent::Data(msg) = decode_frame(&datagram).expect("server frame") {
                    let acts = server.route(&mut server_store, &run.peer, msg);
                    queue_server_actions(acts, &mut run.to_client, &mut written);
                }
            }
            if !run.to_client.is_empty() {
                progressed = true;
                let datagram = run.to_client.remove(0);
                if let FrameEvent::Data(msg) = decode_frame(&datagram).expect("client frame") {
                    let acts = match msg {
                        Message::SyncNack { missing, .. } => {
                            if run.session.phase == Phase::Terminal {
                                Vec::new()
                            } else {
                                run.session.on_sync_nack(&run.store, &missing)
                            }
                        }
                        Message::Done { .. } => run.session.on_done(),
                        Message::Nak { reason, .. } => run.session.on_nak(&reason),
                        Message::Ack { .. } => run.session.on_ack(),
                        _ => Vec::new(),
                    };
                    queue_client_actions(acts, &mut run.to_server, &mut run.chunks_sent);
                }
            }
        }
        if !progressed {
            break;
        }
    }

    for num in 0..5usize {
        assert_eq!(clients[num].session.phase, Phase::Terminal);
        assert_eq!(clients[num].session.outcome, None);
        let dest = format!("/dest-{}", num);
        let file = written
            .iter()
            .filter(|w| w.path == dest)
            .last()
            .expect("written");
        assert_eq!(file.data, expected[num]);
    }
}
