use std::cell::RefCell;

use spectator_recorder::api::models::SpectatorEndpoint;
use spectator_recorder::recording::models::Record;
use spectator_recorder::recording::process::{
    fetch_and_store_game_data_chunk, fetch_and_store_keyframe, ItemOutcome, MediaSource,
};
use spectator_recorder::recording::storage::{Storage, StorageError};

struct TestStorage {
    writes: RefCell<Vec<(u8, u32)>>,
    fail_chunk_ids: Vec<u32>,
    fail_keyframe_ids: Vec<u32>,
}

impl TestStorage {
    fn new() -> TestStorage {
        TestStorage {
            writes: RefCell::new(Vec::new()),
            fail_chunk_ids: Vec::new(),
            fail_keyframe_ids: Vec::new(),
        }
    }

    fn write_count(&self) -> usize {
        self.writes.borrow().len()
    }
}

impl Storage for TestStorage {
    fn store_game_data_chunk(&self, chunk_id: u32, _data: Vec<u8>) -> Result<(), StorageError> {
        if self.fail_chunk_ids.contains(&chunk_id) {
            return Err(StorageError {
                message: "write refused".to_string(),
            });
        }
        self.writes.borrow_mut().push((0, chunk_id));
        Ok(())
    }

    fn store_key_frame(&self, frame_id: u32, _data: Vec<u8>) -> Result<(), StorageError> {
        if self.fail_keyframe_ids.contains(&frame_id) {
            return Err(StorageError {
                message: "write refused".to_string(),
            });
        }
        self.writes.borrow_mut().push((1, frame_id));
        Ok(())
    }

    fn metadata(&self) -> String {
        "test storage".to_string()
    }
}

fn test_record() -> Record {
    Record::new(
        "2.0.0".to_string(),
        SpectatorEndpoint::new("http://localhost:8080".to_string(), "KR".to_string()),
        "6654667050".to_string(),
        "key".to_string(),
    )
}

#[test]
fn record_tracks_chunks_and_keyframes_separately() {
    let mut record = test_record();
    assert!(!record.has_game_data_chunk(1));
    assert!(!record.has_keyframe(1));
    record.insert_game_data_chunk(1);
    assert!(record.has_game_data_chunk(1));
    assert!(!record.has_keyframe(1));
    record.insert_keyframe(2);
    assert!(record.has_keyframe(2));
    assert!(!record.has_game_data_chunk(2));
}

#[test]
fn ledger_never_loses_members() {
    let mut record = test_record();
    record.insert_game_data_chunk(3);
    record.insert_game_data_chunk(1);
    record.insert_game_data_chunk(3);
    record.insert_keyframe(2);
    record.insert_keyframe(2);
    assert!(record.has_game_data_chunk(1));
    assert!(record.has_game_data_chunk(3));
    assert!(record.has_keyframe(2));
}

#[test]
fn snapshot_lists_ids_in_ascending_order() {
    let mut record = test_record();
    record.insert_game_data_chunk(5);
    record.insert_game_data_chunk(2);
    record.insert_game_data_chunk(9);
    record.insert_game_data_chunk(2);
    record.insert_keyframe(4);
    record.insert_keyframe(1);
    let snapshot = record.into_snapshot("disk".to_string());
    assert_eq!(snapshot.game_data_chunks, vec![2, 5, 9]);
    assert_eq!(snapshot.keyframes, vec![1, 4]);
    assert_eq!(snapshot.version, "2.0.0");
    assert_eq!(snapshot.game_id, "6654667050");
    assert_eq!(snapshot.storage, "disk");
}

#[test]
fn fetch_and_store_skips_an_already_stored_id() {
    let mut record = test_record();
    let source = MediaSource {
        chunks: vec![(1, b"payload".to_vec())],
        keyframes: Vec::new(),
    };
    let storage = TestStorage::new();

    let first = fetch_and_store_game_data_chunk(&mut record, 1, &source, &storage);
    assert_eq!(first, ItemOutcome::Stored);
    assert_eq!(storage.write_count(), 1);

    let second = fetch_and_store_game_data_chunk(&mut record, 1, &source, &storage);
    assert_eq!(second, ItemOutcome::AlreadyStored);
    assert_eq!(storage.write_count(), 1);
}

#[test]
fn fetch_and_store_reports_a_missing_payload() {
    let mut record = test_record();
    let source = MediaSource {
        chunks: Vec::new(),
        keyframes: Vec::new(),
    };
    let storage = TestStorage::new();

    let outcome = fetch_and_store_game_data_chunk(&mut record, 7, &source, &storage);
    assert_eq!(outcome, ItemOutcome::FetchFailed);
    assert!(!record.has_game_data_chunk(7));
    assert_eq!(storage.write_count(), 0);
}

#[test]
fn fetch_and_store_leaves_a_refused_write_unmarked() {
    let mut record = test_record();
    let source = MediaSource {
        chunks: vec![(4, b"payload".to_vec())],
        keyframes: vec![(2, b"frame".to_vec())],
    };
    let mut storage = TestStorage::new();
    storage.fail_chunk_ids.push(4);
    storage.fail_keyframe_ids.push(2);

    let chunk_outcome = fetch_and_store_game_data_chunk(&mut record, 4, &source, &storage);
    assert_eq!(chunk_outcome, ItemOutcome::StoreFailed);
    assert!(!record.has_game_data_chunk(4));

    let keyframe_outcome = fetch_and_store_keyframe(&mut record, 2, &source, &storage);
    assert_eq!(keyframe_outcome, ItemOutcome::StoreFailed);
    assert!(!record.has_keyframe(2));
}
