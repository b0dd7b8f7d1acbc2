use std::cell::RefCell;

use spectator_recorder::api::endpoints::LastChunkInfo;
use spectator_recorder::api::models::SpectatorEndpoint;
use spectator_recorder::recording::models::Record;
use spectator_recorder::recording::process::{
    record_media_data, Attempt, ItemKind, ItemOutcome, MediaSource, PollOutcome, RunOutcome,
};
use spectator_recorder::recording::storage::{Storage, StorageError};

struct CountingStorage {
    writes: RefCell<Vec<(u8, u32)>>,
}

impl CountingStorage {
    fn new() -> CountingStorage {
        CountingStorage {
            writes: RefCell::new(Vec::new()),
        }
    }

    fn writes(&self) -> Vec<(u8, u32)> {
        self.writes.borrow().clone()
    }
}

impl Storage for CountingStorage {
    fn store_game_data_chunk(&self, chunk_id: u32, _data: Vec<u8>) -> Result<(), StorageError> {
        self.writes.borrow_mut().push((0, chunk_id));
        Ok(())
    }

    fn store_key_frame(&self, frame_id: u32, _data: Vec<u8>) -> Result<(), StorageError> {
        self.writes.borrow_mut().push((1, frame_id));
        Ok(())
    }

    fn metadata(&self) -> String {
        "counting storage".to_string()
    }
}

fn info(chunk_id: u32, key_frame_id: u32, end_game_chunk_id: u32) -> LastChunkInfo {
    LastChunkInfo {
        chunk_id,
        available_since: 0,
        next_available_chunk: 0,
        key_frame_id,
        next_chunk_id: 0,
        end_startup_chunk_id: 0,
        start_game_chunk_id: 0,
        end_game_chunk_id,
        duration: 0,
    }
}

fn source(chunks: u32, keyframes: u32) -> MediaSource {
    let mut s = MediaSource {
        chunks: Vec::new(),
        keyframes: Vec::new(),
    };
    for id in 1..=chunks {
        s.chunks.push((id, format!("chunk {}", id).into_bytes()));
    }
    for id in 1..=keyframes {
        s.keyframes.push((id, format!("keyframe {}", id).into_bytes()));
    }
    s
}

fn fresh_record() -> Record {
    Record::new(
        "2.0.0".to_string(),
        SpectatorEndpoint::new("http://localhost:8080".to_string(), "KR".to_string()),
        "6654667050".to_string(),
        "key".to_string(),
    )
}

fn attempt_triples(attempts: &[Attempt]) -> Vec<(ItemKind, u32, ItemOutcome)> {
    attempts.iter().map(|a| (a.kind, a.id, a.outcome)).collect()
}

#[test]
fn steady_session_stores_everything_exactly_once() {
    let polls = vec![
        PollOutcome::Info(info(1, 1, 3)),
        PollOutcome::Info(info(2, 1, 3)),
        PollOutcome::Info(info(3, 2, 3)),
    ];
    let storage = CountingStorage::new();
    let report = record_media_data(fresh_record(), &polls, &source(3, 2), &storage);

    match report.outcome {
        RunOutcome::Finished(snapshot) => {
            assert_eq!(snapshot.game_data_chunks, vec![1, 2, 3]);
            assert_eq!(snapshot.keyframes, vec![1, 2]);
        }
        RunOutcome::Unfinished(_) => panic!("the run must reach the final chunk"),
    }

    // Each payload reaches the sink exactly once, however often its id
    // comes up again.
    let mut writes = storage.writes();
    writes.sort();
    assert_eq!(writes, vec![(0, 1), (0, 2), (0, 3), (1, 1), (1, 2)]);
}

#[test]
fn first_poll_gap_backfills_most_recent_first() {
    let polls = vec![PollOutcome::Info(info(5, 3, 5))];
    let storage = CountingStorage::new();
    let report = record_media_data(fresh_record(), &polls, &source(5, 3), &storage);

    assert_eq!(
        attempt_triples(&report.attempts),
        vec![
            (ItemKind::Chunk, 4, ItemOutcome::Stored),
            (ItemKind::Chunk, 3, ItemOutcome::Stored),
            (ItemKind::Chunk, 2, ItemOutcome::Stored),
            (ItemKind::Chunk, 1, ItemOutcome::Stored),
            (ItemKind::KeyFrame, 2, ItemOutcome::Stored),
            (ItemKind::KeyFrame, 1, ItemOutcome::Stored),
            (ItemKind::Chunk, 5, ItemOutcome::Stored),
            (ItemKind::KeyFrame, 3, ItemOutcome::Stored),
        ]
    );
    assert!(matches!(report.outcome, RunOutcome::Finished(_)));
}

#[test]
fn immediate_final_report_backfills_and_finishes() {
    let polls = vec![PollOutcome::Info(info(4, 2, 4))];
    let storage = CountingStorage::new();
    let report = record_media_data(fresh_record(), &polls, &source(4, 2), &storage);

    assert_eq!(
        attempt_triples(&report.attempts),
        vec![
            (ItemKind::Chunk, 3, ItemOutcome::Stored),
            (ItemKind::Chunk, 2, ItemOutcome::Stored),
            (ItemKind::Chunk, 1, ItemOutcome::Stored),
            (ItemKind::KeyFrame, 1, ItemOutcome::Stored),
            (ItemKind::Chunk, 4, ItemOutcome::Stored),
            (ItemKind::KeyFrame, 2, ItemOutcome::Stored),
        ]
    );
    match report.outcome {
        RunOutcome::Finished(snapshot) => {
            assert_eq!(snapshot.game_data_chunks, vec![1, 2, 3, 4]);
            assert_eq!(snapshot.keyframes, vec![1, 2]);
            assert_eq!(snapshot.storage, "counting storage");
        }
        RunOutcome::Unfinished(_) => panic!("the run must reach the final chunk"),
    }
}

#[test]
fn failed_item_fetch_is_omitted_without_aborting() {
    let polls = vec![PollOutcome::Info(info(4, 2, 4))];
    let mut served = source(4, 2);
    served.chunks.retain(|(id, _)| *id != 2);
    let storage = CountingStorage::new();
    let report = record_media_data(fresh_record(), &polls, &served, &storage);

    assert_eq!(
        attempt_triples(&report.attempts),
        vec![
            (ItemKind::Chunk, 3, ItemOutcome::Stored),
            (ItemKind::Chunk, 2, ItemOutcome::FetchFailed),
            (ItemKind::Chunk, 1, ItemOutcome::Stored),
            (ItemKind::KeyFrame, 1, ItemOutcome::Stored),
            (ItemKind::Chunk, 4, ItemOutcome::Stored),
            (ItemKind::KeyFrame, 2, ItemOutcome::Stored),
        ]
    );
    match report.outcome {
        RunOutcome::Finished(snapshot) => {
            assert_eq!(snapshot.game_data_chunks, vec![1, 3, 4]);
            assert_eq!(snapshot.keyframes, vec![1, 2]);
        }
        RunOutcome::Unfinished(_) => panic!("an item failure must not abort the run"),
    }
}

#[test]
fn poll_failures_neither_abort_nor_duplicate() {
    let polls = vec![
        PollOutcome::Info(info(1, 1, 2)),
        PollOutcome::Failed,
        PollOutcome::Failed,
        PollOutcome::Failed,
        PollOutcome::Info(info(2, 2, 2)),
    ];
    let storage = CountingStorage::new();
    let report = record_media_data(fresh_record(), &polls, &source(2, 2), &storage);

    match report.outcome {
        RunOutcome::Finished(snapshot) => {
            assert_eq!(snapshot.game_data_chunks, vec![1, 2]);
            assert_eq!(snapshot.keyframes, vec![1, 2]);
        }
        RunOutcome::Unfinished(_) => panic!("poll failures must not abort the run"),
    }
    let mut writes = storage.writes();
    writes.sort();
    assert_eq!(writes, vec![(0, 1), (0, 2), (1, 1), (1, 2)]);
}

#[test]
fn run_without_terminal_report_stays_unfinished() {
    let polls = vec![
        PollOutcome::Info(info(1, 1, 9)),
        PollOutcome::Info(info(2, 2, 9)),
    ];
    let storage = CountingStorage::new();
    let report = record_media_data(fresh_record(), &polls, &source(2, 2), &storage);

    match report.outcome {
        RunOutcome::Finished(_) => panic!("no report closed the session"),
        RunOutcome::Unfinished(record) => {
            assert!(record.has_game_data_chunk(1));
            assert!(record.has_game_data_chunk(2));
            assert!(record.has_keyframe(1));
            assert!(record.has_keyframe(2));
        }
    }
}
