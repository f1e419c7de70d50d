//! The staging area on its own: gap enumeration, idempotent and reordered
//! writes, import and export edges, and the hash check.

use file_protocol::errors::ProtocolError;
use file_protocol::storage::Storage;

#[test]
fn gap_list_enumerates_absent_indices() {
    let mut store = Storage::new();
    let hash = "h".repeat(64);

    assert_eq!(store.missing(&hash, 0), Vec::<u32>::new());
    assert_eq!(store.missing(&hash, 3), vec![0, 1, 2]);

    store.put(&hash, 1, vec![7u8; 4]);
    assert_eq!(store.missing(&hash, 3), vec![0, 2]);

    store.put(&hash, 0, vec![8u8; 4]);
    store.put(&hash, 2, vec![9u8; 4]);
    assert_eq!(store.missing(&hash, 3), Vec::<u32>::new());
    // Slots past the announced count stay missing.
    assert_eq!(store.missing(&hash, 5), vec![3, 4]);
}

#[test]
fn duplicate_put_changes_nothing() {
    let mut store = Storage::new();
    let hash = "h".repeat(64);

    store.put(&hash, 0, b"alpha".to_vec());
    store.put(&hash, 2, b"gamma".to_vec());
    let before_missing = store.missing(&hash, 3);
    let before_chunk = store.load(&hash, 0).expect("chunk 0");

    store.put(&hash, 0, b"alpha".to_vec());

    assert_eq!(store.missing(&hash, 3), before_missing);
    assert_eq!(store.load(&hash, 0).expect("chunk 0"), before_chunk);
    assert_eq!(store.load(&hash, 2).expect("chunk 2"), b"gamma".to_vec());
}

#[test]
fn reordered_puts_reach_the_same_store() {
    let hash = "h".repeat(64);
    let chunks: Vec<Vec<u8>> = vec![b"one".to_vec(), b"two".to_vec(), b"three".to_vec()];

    let mut forward = Storage::new();
    for (i, c) in chunks.iter().enumerate() {
        forward.put(&hash, i as u32, c.clone());
    }
    let mut backward = Storage::new();
    for (i, c) in chunks.iter().enumerate().rev() {
        backward.put(&hash, i as u32, c.clone());
    }

    for i in 0..3u32 {
        assert_eq!(
            forward.load(&hash, i).expect("chunk"),
            backward.load(&hash, i).expect("chunk")
        );
    }
    assert_eq!(forward.missing(&hash, 3), backward.missing(&hash, 3));
}

#[test]
fn import_splits_at_the_chunk_boundary() {
    let mut store = Storage::new();

    let (_, n) = store.import(&vec![5u8; 4096]);
    assert_eq!(n, 1);

    let (hash, n) = store.import(&vec![6u8; 4097]);
    assert_eq!(n, 2);
    assert_eq!(store.load(&hash, 0).expect("chunk 0").len(), 4096);
    assert_eq!(store.load(&hash, 1).expect("chunk 1").len(), 1);
}

#[test]
fn import_export_round_trip() {
    let mut store = Storage::new();
    let contents = b"ab".to_vec();

    let (hash, n) = store.import(&contents);
    assert_eq!(
        hash,
        "fb8e20fc2e4c3f248c60c39bd652f3c1347298bb977b8b4d5903b85055620603"
    );
    assert_eq!(n, 1);
    assert_eq!(store.export(&hash, n).expect("export"), contents);
}

#[test]
fn empty_file_round_trip() {
    let mut store = Storage::new();

    let (hash, n) = store.import(&Vec::new());
    assert_eq!(n, 0);
    assert_eq!(
        hash,
        "e3b0c44298fc1c149afbf4c8996fb92427ae41e4649b934ca495991b7852b855"
    );
    assert_eq!(store.export(&hash, 0).expect("export"), Vec::<u8>::new());
}

#[test]
fn export_before_complete_reports_the_gap() {
    let mut store = Storage::new();
    let hash = "h".repeat(64);
    store.put(&hash, 1, b"late".to_vec());

    assert_eq!(store.export(&hash, 2), Err(ProtocolError::MissingChunk));
    assert_eq!(
        store.load(&hash, 0).expect_err("gap"),
        ProtocolError::MissingChunk
    );
}

#[test]
fn export_detects_tampering() {
    let mut store = Storage::new();
    let contents = b"test1".to_vec();
    let (hash, n) = store.import(&contents);

    store.put(&hash, 0, b"bad data".to_vec());

    assert_eq!(store.export(&hash, n), Err(ProtocolError::HashMismatch));
}
