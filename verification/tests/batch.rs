use crab_dl::batch::{collect_outcomes, BatchCollector};
use crab_dl::batch_plan::plan_batch;
use crab_dl::outcome::{DownloadOutcome, DownloadStatus, FetchError};
use crab_dl::planner::DownloadTask;
use crab_dl::worker::{FetchEvent, FetchStep, FetchWorker};

fn failure(task_index: usize, reason: &str) -> DownloadOutcome {
    DownloadOutcome::failure(task_index, FetchError::RequestError { reason: reason.to_string() })
}

/// Runs one task against a body of the given chunk lengths, or against a host
/// that cannot be reached.
fn run_task(task_index: usize, task: DownloadTask, body: Option<Vec<usize>>) -> (DownloadOutcome, u64) {
    let mut step = FetchWorker::begin(task_index, task);
    let mut chunks = body.clone().unwrap_or_default().into_iter();
    let mut stored: u64 = 0;
    let mut pending: usize = 0;
    loop {
        let (worker, event) = match step {
            FetchStep::SendRequest { worker, .. } => match &body {
                Some(sizes) => {
                    let total = sizes.iter().map(|n| *n as u64).sum();
                    (worker, FetchEvent::Responded { content_length: Some(total) })
                }
                None => (worker, FetchEvent::RequestFailed { reason: "unreachable host".to_string() }),
            },
            FetchStep::CreateFile { worker, .. } => (worker, FetchEvent::FileCreated),
            FetchStep::ReadChunk { worker, .. } => {
                pending = chunks.next().unwrap_or(0);
                (worker, FetchEvent::ChunkRead { len: pending })
            }
            FetchStep::WriteChunk { worker, len } => {
                assert_eq!(len, pending);
                stored += len as u64;
                (worker, FetchEvent::ChunkWritten)
            }
            FetchStep::Finished { outcome } => return (outcome, stored),
        };
        assert!(worker.has_room_for(&event));
        step = worker.advance(event);
    }
}

#[test]
fn new_collector_is_incomplete_unless_empty() {
    assert!(!BatchCollector::new(2).is_complete());
    assert!(BatchCollector::new(0).is_complete());
    assert_eq!(BatchCollector::new(7).task_count(), 7);
}

#[test]
fn empty_batch_has_an_empty_result() {
    let batch = BatchCollector::new(0).finish().expect("a result");
    assert!(batch.outcomes.is_empty());
}

#[test]
fn outcomes_come_out_in_task_order() {
    let collector = BatchCollector::new(3);
    let (collector, taken) = collector.record(failure(2, "c"));
    assert!(taken);
    assert!(!collector.is_complete());
    let (collector, taken) = collector.record(DownloadOutcome::success(0));
    assert!(taken);
    let (collector, taken) = collector.record(failure(1, "b"));
    assert!(taken);
    assert!(collector.is_complete());
    let batch = collector.finish().expect("a result");
    assert_eq!(
        batch.outcomes,
        vec![DownloadOutcome::success(0), failure(1, "b"), failure(2, "c")]
    );
}

#[test]
fn incomplete_batch_has_no_result() {
    let (collector, _) = BatchCollector::new(2).record(DownloadOutcome::success(1));
    assert!(collector.finish().is_none());
}

#[test]
fn second_report_of_a_task_is_turned_away() {
    let (collector, _) = BatchCollector::new(2).record(DownloadOutcome::success(0));
    let (collector, taken) = collector.record(failure(0, "late"));
    assert!(!taken);
    let (collector, taken) = collector.record(DownloadOutcome::success(1));
    assert!(taken);
    let batch = collector.finish().expect("a result");
    assert_eq!(batch.outcomes, vec![DownloadOutcome::success(0), DownloadOutcome::success(1)]);
}

#[test]
fn report_of_a_task_outside_the_batch_is_turned_away() {
    let (collector, taken) = BatchCollector::new(2).record(DownloadOutcome::success(2));
    assert!(!taken);
    let (collector, taken) = collector.record(DownloadOutcome::success(usize::MAX));
    assert!(!taken);
    assert!(!collector.is_complete());
    assert_eq!(collector.task_count(), 2);
}

#[test]
fn collect_outcomes_orders_by_task() {
    let reported = vec![failure(3, "d"), DownloadOutcome::success(1), DownloadOutcome::success(0), failure(2, "c")];
    let batch = collect_outcomes(4, reported).expect("a result");
    assert_eq!(batch.outcomes.len(), 4);
    for (i, outcome) in batch.outcomes.iter().enumerate() {
        assert_eq!(outcome.task_index, i);
    }
    assert_eq!(batch.outcomes[3], failure(3, "d"));
    assert_eq!(batch.outcomes[2], failure(2, "c"));
}

#[test]
fn collect_outcomes_is_the_same_for_every_completion_order() {
    let orders: Vec<Vec<usize>> =
        vec![vec![0, 1, 2], vec![0, 2, 1], vec![1, 0, 2], vec![1, 2, 0], vec![2, 0, 1], vec![2, 1, 0]];
    let make = |i: usize| if i == 1 { failure(1, "down") } else { DownloadOutcome::success(i) };
    let expected = vec![make(0), make(1), make(2)];
    for order in orders {
        let reported: Vec<DownloadOutcome> = order.iter().map(|i| make(*i)).collect();
        let batch = collect_outcomes(3, reported).expect("a result");
        assert_eq!(batch.outcomes, expected);
    }
}

#[test]
fn collect_outcomes_needs_every_task() {
    assert!(collect_outcomes(3, vec![DownloadOutcome::success(0), DownloadOutcome::success(2)]).is_none());
    assert!(collect_outcomes(1, Vec::new()).is_none());
    assert!(collect_outcomes(0, Vec::new()).is_some());
}

#[test]
fn collect_outcomes_keeps_the_first_report_of_a_task() {
    let reported = vec![failure(0, "first"), DownloadOutcome::success(0), failure(5, "stray")];
    let batch = collect_outcomes(1, reported).expect("a result");
    assert_eq!(batch.outcomes, vec![failure(0, "first")]);
}

#[test]
fn one_outcome_for_each_url_in_order() {
    let urls: Vec<String> =
        vec!["https://a/x.png".to_string(), "https://b/y".to_string(), "https://c/z.tar.gz".to_string()];
    let tasks = plan_batch("out/".to_string(), Vec::new(), urls.clone());
    assert_eq!(tasks.len(), urls.len());
    let mut reported: Vec<DownloadOutcome> = Vec::new();
    // The tasks end in reverse order.
    for (i, task) in tasks.iter().enumerate().rev() {
        assert_eq!(task.source_url, urls[i]);
        reported.push(run_task(i, task.clone(), Some(vec![10, 20])).0);
    }
    let batch = collect_outcomes(tasks.len(), reported).expect("a result");
    assert_eq!(batch.outcomes.len(), urls.len());
    for (i, outcome) in batch.outcomes.iter().enumerate() {
        assert_eq!(outcome.task_index, i);
        assert!(outcome.is_success());
    }
}

#[test]
fn failure_of_one_task_leaves_the_others_alone() {
    let urls: Vec<String> = vec![
        "https://example.com/one.bin".to_string(),
        "https://unreachable.invalid/two.bin".to_string(),
        "https://example.com/three.bin".to_string(),
    ];
    let tasks = plan_batch("out/".to_string(), Vec::new(), urls);
    let bodies: Vec<Option<Vec<usize>>> = vec![Some(vec![8192, 100]), None, Some(vec![5])];
    let mut reported: Vec<DownloadOutcome> = Vec::new();
    let mut stored: Vec<u64> = Vec::new();
    for (i, task) in tasks.into_iter().enumerate() {
        let (outcome, bytes) = run_task(i, task, bodies[i].clone());
        reported.push(outcome);
        stored.push(bytes);
    }
    let batch = collect_outcomes(3, reported).expect("a result");
    assert_eq!(batch.outcomes[0].status, DownloadStatus::Success);
    assert_eq!(
        batch.outcomes[1].status,
        DownloadStatus::Failure(FetchError::RequestError { reason: "unreachable host".to_string() })
    );
    assert_eq!(batch.outcomes[2].status, DownloadStatus::Success);
    assert_eq!(stored, vec![8292, 0, 5]);
    let lines: Vec<String> = batch.outcomes.iter().map(|o| o.message()).collect();
    assert_eq!(
        lines,
        vec!["Downloaded file 1", "Download 2 failed: unreachable host", "Downloaded file 3"]
    );
}
