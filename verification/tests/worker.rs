use crab_dl::outcome::{DownloadOutcome, DownloadStatus, FetchError};
use crab_dl::planner::DownloadTask;
use crab_dl::worker::{FetchEvent, FetchStep, FetchWorker, ProgressUpdate, CHUNK_SIZE};

fn task() -> DownloadTask {
    DownloadTask {
        source_url: "https://example.com/file.bin".to_string(),
        destination_path: "out/download_01.bin".to_string(),
    }
}

fn expect_send(step: FetchStep) -> FetchWorker {
    match step {
        FetchStep::SendRequest { worker, url } => {
            assert_eq!(url, "https://example.com/file.bin");
            worker
        }
        _ => panic!("expected a request to be sent"),
    }
}

fn expect_create(step: FetchStep) -> FetchWorker {
    match step {
        FetchStep::CreateFile { worker, path } => {
            assert_eq!(path, "out/download_01.bin");
            worker
        }
        _ => panic!("expected the file to be created"),
    }
}

/// A request to read that carries the update for a chunk just written.
fn expect_read(step: FetchStep, task_index: usize, bytes: u64, total: u64) -> FetchWorker {
    match step {
        FetchStep::ReadChunk { worker, total_bytes, progress } => {
            assert_eq!(total_bytes, total);
            assert_eq!(
                progress,
                Some(ProgressUpdate { task_index, bytes_downloaded: bytes, total_bytes: Some(total) })
            );
            assert_eq!(worker.bytes_downloaded(), bytes);
            worker
        }
        _ => panic!("expected a chunk to be read"),
    }
}

/// A request to read that carries no update: no chunk was written since the
/// request before.
fn expect_read_without_update(step: FetchStep, bytes: u64, total: u64) -> FetchWorker {
    match step {
        FetchStep::ReadChunk { worker, total_bytes, progress } => {
            assert_eq!(total_bytes, total);
            assert_eq!(progress, None);
            assert_eq!(worker.bytes_downloaded(), bytes);
            worker
        }
        _ => panic!("expected a chunk to be read"),
    }
}

fn expect_write(step: FetchStep, len: usize) -> FetchWorker {
    match step {
        FetchStep::WriteChunk { worker, len: asked } => {
            assert_eq!(asked, len);
            worker
        }
        _ => panic!("expected a chunk to be written"),
    }
}

fn expect_outcome(step: FetchStep) -> DownloadOutcome {
    match step {
        FetchStep::Finished { outcome } => outcome,
        _ => panic!("expected the task to be over"),
    }
}

fn streaming(task_index: usize, total: u64) -> FetchWorker {
    let worker = expect_send(FetchWorker::begin(task_index, task()));
    let worker =
        expect_create(worker.advance(FetchEvent::Responded { content_length: Some(total) }));
    expect_read_without_update(worker.advance(FetchEvent::FileCreated), 0, total)
}

#[test]
fn chunk_size_is_eight_kibibytes() {
    assert_eq!(CHUNK_SIZE, 8192);
}

#[test]
fn download_in_three_chunks_succeeds() {
    let worker = streaming(4, 20000);
    let worker = expect_write(worker.advance(FetchEvent::ChunkRead { len: 8192 }), 8192);
    let worker = expect_read(worker.advance(FetchEvent::ChunkWritten), 4, 8192, 20000);
    let worker = expect_write(worker.advance(FetchEvent::ChunkRead { len: 8192 }), 8192);
    let worker = expect_read(worker.advance(FetchEvent::ChunkWritten), 4, 16384, 20000);
    let worker = expect_write(worker.advance(FetchEvent::ChunkRead { len: 3616 }), 3616);
    let worker = expect_read(worker.advance(FetchEvent::ChunkWritten), 4, 20000, 20000);
    let outcome = expect_outcome(worker.advance(FetchEvent::ChunkRead { len: 0 }));
    assert_eq!(outcome, DownloadOutcome { task_index: 4, status: DownloadStatus::Success });
    assert!(outcome.is_success());
}

#[test]
fn updates_follow_the_chunks_and_none_comes_before() {
    let mut updates: Vec<u64> = Vec::new();
    let mut reads = vec![8192usize, 8192, 3616, 0].into_iter();
    let mut step = FetchWorker::begin(0, task());
    let outcome = loop {
        let (worker, event) = match step {
            FetchStep::SendRequest { worker, .. } => {
                (worker, FetchEvent::Responded { content_length: Some(20000) })
            }
            FetchStep::CreateFile { worker, .. } => (worker, FetchEvent::FileCreated),
            FetchStep::ReadChunk { worker, total_bytes, progress } => {
                assert_eq!(total_bytes, 20000);
                if let Some(update) = progress {
                    updates.push(update.bytes_downloaded);
                }
                (worker, FetchEvent::ChunkRead { len: reads.next().unwrap() })
            }
            FetchStep::WriteChunk { worker, .. } => (worker, FetchEvent::ChunkWritten),
            FetchStep::Finished { outcome } => break outcome,
        };
        step = worker.advance(event);
    };
    assert!(outcome.is_success());
    assert_eq!(updates, vec![8192, 16384, 20000]);
}

#[test]
fn empty_body_succeeds_without_an_update() {
    let worker = streaming(0, 0);
    let outcome = expect_outcome(worker.advance(FetchEvent::ChunkRead { len: 0 }));
    assert_eq!(outcome, DownloadOutcome::success(0));
}

#[test]
fn body_may_differ_from_announced_length() {
    let worker = streaming(1, 5);
    let worker = expect_write(worker.advance(FetchEvent::ChunkRead { len: 9 }), 9);
    let worker = expect_read(worker.advance(FetchEvent::ChunkWritten), 1, 9, 5);
    let outcome = expect_outcome(worker.advance(FetchEvent::ChunkRead { len: 0 }));
    assert!(outcome.is_success());
}

#[test]
fn progress_counts_written_bytes_and_never_goes_down() {
    let sizes: Vec<usize> = vec![8192, 1, 8192, 700, 8192, 8192, 3];
    let mut worker = streaming(2, 40000);
    let mut written: u64 = 0;
    let mut last: u64 = 0;
    for len in sizes {
        worker = expect_write(worker.advance(FetchEvent::ChunkRead { len }), len);
        // Nothing is counted before the write is reported.
        assert_eq!(worker.bytes_downloaded(), written);
        written += len as u64;
        match worker.advance(FetchEvent::ChunkWritten) {
            FetchStep::ReadChunk { worker: next, progress: Some(progress), .. } => {
                assert!(progress.bytes_downloaded >= last + 1);
                assert!(progress.bytes_downloaded - last <= 8192);
                assert_eq!(progress.bytes_downloaded, written);
                last = progress.bytes_downloaded;
                worker = next;
            }
            _ => panic!("expected a chunk to be read"),
        }
    }
    assert!(expect_outcome(worker.advance(FetchEvent::ChunkRead { len: 0 })).is_success());
    assert_eq!(last, 33472);
}

#[test]
fn failed_request_is_a_request_error() {
    let worker = expect_send(FetchWorker::begin(1, task()));
    let outcome = expect_outcome(
        worker.advance(FetchEvent::RequestFailed { reason: "connection refused".to_string() }),
    );
    assert_eq!(
        outcome,
        DownloadOutcome {
            task_index: 1,
            status: DownloadStatus::Failure(FetchError::RequestError {
                reason: "connection refused".to_string()
            }),
        }
    );
    assert!(!outcome.is_success());
}

#[test]
fn failed_create_is_an_io_error() {
    let worker = expect_send(FetchWorker::begin(0, task()));
    let worker = expect_create(worker.advance(FetchEvent::Responded { content_length: Some(1) }));
    let outcome =
        expect_outcome(worker.advance(FetchEvent::FileFailed { reason: "read-only".to_string() }));
    assert_eq!(
        outcome,
        DownloadOutcome::failure(0, FetchError::IoError { reason: "read-only".to_string() })
    );
}

#[test]
fn missing_content_length_fails_after_the_file_is_created() {
    let worker = expect_send(FetchWorker::begin(3, task()));
    let worker = expect_create(worker.advance(FetchEvent::Responded { content_length: None }));
    let outcome = expect_outcome(worker.advance(FetchEvent::FileCreated));
    assert_eq!(
        outcome,
        DownloadOutcome::failure(
            3,
            FetchError::MissingContentLength { url: "https://example.com/file.bin".to_string() }
        )
    );
}

#[test]
fn failed_create_wins_over_missing_content_length() {
    let worker = expect_send(FetchWorker::begin(3, task()));
    let worker = expect_create(worker.advance(FetchEvent::Responded { content_length: None }));
    let outcome =
        expect_outcome(worker.advance(FetchEvent::FileFailed { reason: "denied".to_string() }));
    assert_eq!(
        outcome,
        DownloadOutcome::failure(3, FetchError::IoError { reason: "denied".to_string() })
    );
}

#[test]
fn failed_read_is_a_request_error() {
    let worker = streaming(0, 100);
    let worker = expect_write(worker.advance(FetchEvent::ChunkRead { len: 10 }), 10);
    let worker = expect_read(worker.advance(FetchEvent::ChunkWritten), 0, 10, 100);
    let outcome =
        expect_outcome(worker.advance(FetchEvent::ReadFailed { reason: "reset".to_string() }));
    assert_eq!(
        outcome,
        DownloadOutcome::failure(0, FetchError::RequestError { reason: "reset".to_string() })
    );
}

#[test]
fn failed_write_is_an_io_error() {
    let worker = streaming(0, 100);
    let worker = expect_write(worker.advance(FetchEvent::ChunkRead { len: 10 }), 10);
    let outcome =
        expect_outcome(worker.advance(FetchEvent::WriteFailed { reason: "disk full".to_string() }));
    assert_eq!(
        outcome,
        DownloadOutcome::failure(0, FetchError::IoError { reason: "disk full".to_string() })
    );
}

#[test]
fn events_out_of_turn_repeat_the_request() {
    let worker = expect_send(FetchWorker::begin(0, task()));
    let worker = expect_send(worker.advance(FetchEvent::FileCreated));
    let worker = expect_send(worker.advance(FetchEvent::ChunkRead { len: 5 }));
    let worker = expect_send(worker.advance(FetchEvent::WriteFailed { reason: "x".to_string() }));
    let worker = expect_create(worker.advance(FetchEvent::Responded { content_length: Some(7) }));
    let worker = expect_create(worker.advance(FetchEvent::Responded { content_length: None }));
    let worker = expect_create(worker.advance(FetchEvent::ChunkWritten));
    let worker = expect_read_without_update(worker.advance(FetchEvent::FileCreated), 0, 7);
    let worker = expect_read_without_update(worker.advance(FetchEvent::ChunkWritten), 0, 7);
    let worker = expect_read_without_update(worker.advance(FetchEvent::FileCreated), 0, 7);
    let worker = expect_write(worker.advance(FetchEvent::ChunkRead { len: 7 }), 7);
    let worker = expect_write(worker.advance(FetchEvent::ChunkRead { len: 3 }), 7);
    let worker = expect_write(worker.advance(FetchEvent::ReadFailed { reason: "x".to_string() }), 7);
    let worker = expect_read(worker.advance(FetchEvent::ChunkWritten), 0, 7, 7);
    // The update is handed out once: a repeated request carries none.
    let worker = expect_read_without_update(worker.advance(FetchEvent::ChunkWritten), 7, 7);
    assert!(expect_outcome(worker.advance(FetchEvent::ChunkRead { len: 0 })).is_success());
}

#[test]
fn room_is_asked_only_of_chunks() {
    let worker = streaming(0, 10);
    assert!(worker.has_room_for(&FetchEvent::ChunkRead { len: 0 }));
    assert!(worker.has_room_for(&FetchEvent::ChunkRead { len: usize::MAX }));
    assert!(worker.has_room_for(&FetchEvent::ChunkWritten));
    assert!(worker.has_room_for(&FetchEvent::ReadFailed { reason: "x".to_string() }));
}

#[test]
fn no_room_once_the_count_would_pass_the_largest_number() {
    let mut worker = streaming(0, 10);
    let mut counted: u128 = 0;
    // Chunks of the largest length fill the count up.
    while worker.has_room_for(&FetchEvent::ChunkRead { len: usize::MAX }) && counted < u64::MAX as u128 {
        worker = expect_write(worker.advance(FetchEvent::ChunkRead { len: usize::MAX }), usize::MAX);
        counted += usize::MAX as u128;
        worker = match worker.advance(FetchEvent::ChunkWritten) {
            FetchStep::ReadChunk { worker, progress: Some(progress), .. } => {
                assert_eq!(progress.bytes_downloaded as u128, counted);
                worker
            }
            _ => panic!("expected a chunk to be read"),
        };
        if counted > (u64::MAX as u128) - (usize::MAX as u128) {
            break;
        }
    }
    let left = (u64::MAX as u128 - counted) as usize;
    assert!(worker.has_room_for(&FetchEvent::ChunkRead { len: left }));
    if left < usize::MAX {
        assert!(!worker.has_room_for(&FetchEvent::ChunkRead { len: left + 1 }));
    }
}
