//! Whole runs of a fetch worker: what it reports and what reaches the file
//! over any sequence of events.

use crate::outcome::OutcomeView;
use crate::planner::TaskView;
use crate::worker::{
    fetch_start, fetch_transition, FetchEventView, FetchPhase, FetchStepView, ProgressUpdate,
};
use vstd::prelude::*;

verus! {

/// A worker's run so far.
pub struct FetchRun {
    /// The step that the worker stands at.
    pub step: FetchStepView,
    /// The progress updates handed to the driver, oldest first.
    pub reports: Seq<ProgressUpdate>,
    /// The lengths of the chunks that reached the file, in order: those that
    /// the worker asked to have written and the driver reported written.
    pub chunks: Seq<usize>,
    /// Whether the byte count had room for every chunk that was read.
    pub fits: bool,
}

/// The lengths in `chunks` together.
pub open spec fn total_of(chunks: Seq<usize>) -> nat
    decreases chunks.len(),
{
    if chunks.len() == 0 {
        0
    } else {
        total_of(chunks.drop_last()) + chunks.last() as nat
    }
}

impl FetchRun {
    /// The bytes that reached the file.
    pub open spec fn written(self) -> nat {
        total_of(self.chunks)
    }

    /// How the task ended, once it has.
    pub open spec fn outcome(self) -> Option<OutcomeView> {
        match self.step {
            FetchStepView::Finished { outcome } => Some(outcome),
            _ => None,
        }
    }
}

/// The run of the task at position `task_index` before any event.
pub open spec fn run_begin(task_index: usize, task: TaskView) -> FetchRun {
    FetchRun {
        step: fetch_start(task_index, task),
        reports: Seq::empty(),
        chunks: Seq::empty(),
        fits: true,
    }
}

/// The run after one more event. Events that arrive after the task is over
/// change nothing.
pub open spec fn run_event(run: FetchRun, event: FetchEventView) -> FetchRun {
    match run.step.worker() {
        None => run,
        Some(worker) => {
            let next = fetch_transition(worker, event);
            FetchRun {
                step: next,
                reports: match next {
                    FetchStepView::ReadChunk { worker, total_bytes, progress: Some(update) } => {
                        run.reports.push(update)
                    },
                    _ => run.reports,
                },
                chunks: match (run.step, event) {
                    (
                        FetchStepView::WriteChunk { worker, len },
                        FetchEventView::ChunkWritten,
                    ) => run.chunks.push(len),
                    _ => run.chunks,
                },
                fits: run.fits && worker.has_room_for(event),
            }
        },
    }
}

/// The run after `events`, taken in order.
pub open spec fn run_events(run: FetchRun, events: Seq<FetchEventView>) -> FetchRun
    decreases events.len(),
{
    if events.len() == 0 {
        run
    } else {
        run_event(run_events(run, events.drop_last()), events.last())
    }
}

/// The whole run of the task at position `task_index` over `events`.
pub open spec fn run_of(task_index: usize, task: TaskView, events: Seq<FetchEventView>) -> FetchRun {
    run_events(run_begin(task_index, task), events)
}

/// Whether the reports are those of the chunks: one update after each chunk,
/// each for the task at `task_index`, each counting the chunks written up to
/// and with its own.
pub open spec fn reports_follow_chunks(
    task_index: usize,
    reports: Seq<ProgressUpdate>,
    chunks: Seq<usize>,
) -> bool {
    &&& reports.len() == chunks.len()
    &&& forall|k: int|
        0 <= k < reports.len() ==> {
            &&& (#[trigger] reports[k]).task_index == task_index
            &&& reports[k].bytes_downloaded == total_of(chunks.take(k + 1))
        }
}

/// Whether no chunk is empty.
pub open spec fn chunks_hold_bytes(chunks: Seq<usize>) -> bool {
    forall|k: int| 0 <= k < chunks.len() ==> #[trigger] chunks[k] >= 1
}

/// Whether no chunk that `events` report as read is longer than `limit`.
pub open spec fn reads_within(events: Seq<FetchEventView>, limit: usize) -> bool {
    forall|i: int|
        0 <= i < events.len() ==> ((#[trigger] events[i]) matches FetchEventView::ChunkRead { len }
            ==> len <= limit)
}

/// Whether no chunk is longer than `limit`.
pub open spec fn chunks_within(chunks: Seq<usize>, limit: usize) -> bool {
    forall|k: int| 0 <= k < chunks.len() ==> #[trigger] chunks[k] <= limit
}

/// What holds of a run at every point.
spec fn run_consistent(task_index: usize, run: FetchRun) -> bool {
    &&& run.step.well_formed()
    &&& reports_follow_chunks(task_index, run.reports, run.chunks)
    &&& chunks_hold_bytes(run.chunks)
    &&& match run.step {
        FetchStepView::SendRequest { worker, url } => {
            &&& worker.task_index == task_index
            &&& worker.phase is AwaitResponse
            &&& run.chunks.len() == 0
        },
        FetchStepView::CreateFile { worker, path } => {
            &&& worker.task_index == task_index
            &&& worker.phase is AwaitFile
            &&& run.chunks.len() == 0
        },
        FetchStepView::ReadChunk { worker, total_bytes, progress } => {
            &&& worker.task_index == task_index
            &&& worker.phase is AwaitChunk
            &&& worker.bytes_downloaded == run.written()
        },
        FetchStepView::WriteChunk { worker, len } => {
            &&& worker.task_index == task_index
            &&& worker.phase matches FetchPhase::AwaitWrite { total, len: pending }
            &&& pending == len
            &&& worker.bytes_downloaded == run.written()
        },
        FetchStepView::Finished { outcome } => outcome.task_index == task_index,
    }
}

/// Taking the chunks up to and with the last one is taking them all.
proof fn lemma_total_of_push(chunks: Seq<usize>, len: usize)
    ensures
        total_of(chunks.push(len)) == total_of(chunks) + len,
        forall|k: int|
            0 <= k < chunks.len() ==> #[trigger] chunks.push(len).take(k + 1) == chunks.take(k + 1),
        chunks.push(len).take(chunks.len() as int + 1) == chunks.push(len),
{
    let longer = chunks.push(len);
    assert(longer.drop_last() =~= chunks);
    assert forall|k: int| 0 <= k < chunks.len() implies #[trigger] longer.take(k + 1)
        == chunks.take(k + 1) by {
        assert(longer.take(k + 1) =~= chunks.take(k + 1));
    }
    assert(longer.take(chunks.len() as int + 1) =~= longer);
}

proof fn lemma_event_keeps_consistent(task_index: usize, run: FetchRun, event: FetchEventView)
    requires
        run_consistent(task_index, run),
        run_event(run, event).fits,
    ensures
        run_consistent(task_index, run_event(run, event)),
{
    let after = run_event(run, event);
    match (run.step, event) {
        (FetchStepView::WriteChunk { worker, len }, FetchEventView::ChunkWritten) => {
            lemma_total_of_push(run.chunks, len);
            let update = after.reports.last();
            assert(after.chunks == run.chunks.push(len));
            assert(after.reports == run.reports.push(update));
            assert forall|k: int| 0 <= k < after.reports.len() implies {
                &&& (#[trigger] after.reports[k]).task_index == task_index
                &&& after.reports[k].bytes_downloaded == total_of(after.chunks.take(k + 1))
            } by {
                if k < run.reports.len() {
                    assert(after.reports[k] == run.reports[k]);
                    assert(after.chunks.take(k + 1) == run.chunks.take(k + 1));
                }
            }
        },
        _ => {
            assert(after.chunks == run.chunks);
            assert(after.reports == run.reports);
        },
    }
}

proof fn lemma_run_consistent(task_index: usize, task: TaskView, events: Seq<FetchEventView>)
    requires
        run_of(task_index, task, events).fits,
    ensures
        run_consistent(task_index, run_of(task_index, task, events)),
    decreases events.len(),
{
    if events.len() > 0 {
        let before = run_of(task_index, task, events.drop_last());
        lemma_run_consistent(task_index, task, events.drop_last());
        lemma_event_keeps_consistent(task_index, before, events.last());
    }
}

/// What holds of a run whose reads are within `limit`: so are its chunks.
spec fn run_within(run: FetchRun, limit: usize) -> bool {
    &&& chunks_within(run.chunks, limit)
    &&& run.step matches FetchStepView::WriteChunk { worker, len } ==> len <= limit
}

proof fn lemma_run_within(
    task_index: usize,
    task: TaskView,
    events: Seq<FetchEventView>,
    limit: usize,
)
    requires
        reads_within(events, limit),
    ensures
        run_within(run_of(task_index, task, events), limit),
    decreases events.len(),
{
    if events.len() > 0 {
        let earlier = events.drop_last();
        assert forall|i: int| 0 <= i < earlier.len() implies ((#[trigger] earlier[i])
            matches FetchEventView::ChunkRead { len } ==> len <= limit) by {
            assert(earlier[i] == events[i]);
        }
        lemma_run_within(task_index, task, earlier, limit);
        assert(events.last() == events[events.len() - 1]);
    }
}

/// Over any sequence of events, as long as the byte count has room for every
/// chunk read: there is one progress update after each chunk that reached the
/// file and none else, so none before the first chunk; each update counts the
/// bytes of the chunks written up to and with its own; and no chunk is empty.
/// The last update, where there is one, therefore reports exactly the bytes
/// that reached the file, and a body without bytes has no update.
pub proof fn lemma_progress_of_run(task_index: usize, task: TaskView, events: Seq<FetchEventView>)
    requires
        run_of(task_index, task, events).fits,
    ensures
        ({
            let run = run_of(task_index, task, events);
            &&& reports_follow_chunks(task_index, run.reports, run.chunks)
            &&& chunks_hold_bytes(run.chunks)
            &&& run.reports.len() > 0 ==> run.reports.last().bytes_downloaded == run.written()
            &&& run.reports.len() == 0 ==> run.written() == 0
        }),
{
    lemma_run_consistent(task_index, task, events);
    let run = run_of(task_index, task, events);
    assert(run.chunks.take(run.chunks.len() as int) =~= run.chunks);
}

/// Over any sequence of events, as long as the byte count has room for every
/// chunk read: the bytes reported grow from each update to the next by the
/// length of the chunk written in between, which is at least one byte, and
/// the first update reports the length of the first chunk.
pub proof fn lemma_progress_steps(
    task_index: usize,
    task: TaskView,
    events: Seq<FetchEventView>,
    k: int,
)
    requires
        run_of(task_index, task, events).fits,
        0 <= k < run_of(task_index, task, events).reports.len(),
    ensures
        ({
            let run = run_of(task_index, task, events);
            let before: int = if k == 0 {
                0
            } else {
                run.reports[k - 1].bytes_downloaded as int
            };
            &&& run.reports[k].bytes_downloaded - before == run.chunks[k]
            &&& run.chunks[k] >= 1
        }),
{
    lemma_run_consistent(task_index, task, events);
    let run = run_of(task_index, task, events);
    let upto = run.chunks.take(k + 1);
    assert(upto.drop_last() =~= run.chunks.take(k));
    assert(upto.last() == run.chunks[k]);
    assert(total_of(upto) == total_of(run.chunks.take(k)) + run.chunks[k]);
    assert(run.reports[k].bytes_downloaded == total_of(upto));
    if k == 0 {
        assert(run.chunks.take(0) =~= Seq::<usize>::empty());
    } else {
        assert(run.reports[k - 1].bytes_downloaded == total_of(run.chunks.take(k - 1 + 1)));
    }
}

/// Where no read brings more than `limit` bytes, no chunk that reaches the
/// file is longer than `limit`: with the driver reading by the chunk size, no
/// update is more than that size ahead of the one before.
pub proof fn lemma_chunks_within_reads(
    task_index: usize,
    task: TaskView,
    events: Seq<FetchEventView>,
    limit: usize,
)
    requires
        reads_within(events, limit),
    ensures
        chunks_within(run_of(task_index, task, events).chunks, limit),
{
    lemma_run_within(task_index, task, events, limit);
}

/// However a task ends, its outcome names the task that the worker was
/// started for. What it is depends on that task's own events alone.
pub proof fn lemma_outcome_names_own_task(
    task_index: usize,
    task: TaskView,
    events: Seq<FetchEventView>,
)
    requires
        run_of(task_index, task, events).fits,
    ensures
        run_of(task_index, task, events).outcome() matches Some(outcome) ==> outcome.task_index
            == task_index,
{
    lemma_run_consistent(task_index, task, events);
}

} // verus!
