//! Fetch-and-stream worker: the decisions of one download, step by step. The
//! driver performs each request (send, create, read, write) and reports what
//! happened; the worker says what to do next, keeps count of the bytes
//! stored, hands out a progress update after each chunk, and ends with the
//! task's outcome.

use crate::outcome::{DownloadOutcome, FetchError, FetchErrorView, OutcomeView, StatusView};
use crate::planner::{DownloadTask, TaskView};
use vstd::prelude::*;

verus! {

/// The most bytes that the driver reads from the body, and writes, at a time.
pub const CHUNK_SIZE: usize = 8192;

/// Progress of one task: the bytes stored so far and the length that the
/// server announced.
#[derive(Clone, Copy, Debug, PartialEq, Eq)]
pub struct ProgressUpdate {
    pub task_index: usize,
    pub bytes_downloaded: u64,
    pub total_bytes: Option<u64>,
}

/// What the worker is waiting for.
#[derive(Clone, Copy, Debug, PartialEq, Eq)]
pub enum FetchPhase {
    /// The answer to the request.
    AwaitResponse,
    /// The destination file; `content_length` is what the response announced.
    AwaitFile { content_length: Option<u64> },
    /// The next chunk of the body.
    AwaitChunk { total: u64 },
    /// The write of a chunk of `len` bytes.
    AwaitWrite { total: u64, len: usize },
}

/// What the driver reports back to the worker.
#[derive(Clone, Debug, PartialEq, Eq)]
pub enum FetchEvent {
    /// The server answered; `content_length` is the body length it announced.
    Responded { content_length: Option<u64> },
    /// The request failed.
    RequestFailed { reason: String },
    /// The destination file exists and is empty.
    FileCreated,
    /// The destination file could not be created.
    FileFailed { reason: String },
    /// `len` bytes of the body were read; none means that the body has ended.
    ChunkRead { len: usize },
    /// Reading the body failed.
    ReadFailed { reason: String },
    /// The chunk read last was written to the file in full.
    ChunkWritten,
    /// Writing to the file failed.
    WriteFailed { reason: String },
}

/// A fetch event as plain values.
pub enum FetchEventView {
    Responded { content_length: Option<u64> },
    RequestFailed { reason: Seq<char> },
    FileCreated,
    FileFailed { reason: Seq<char> },
    ChunkRead { len: usize },
    ReadFailed { reason: Seq<char> },
    ChunkWritten,
    WriteFailed { reason: Seq<char> },
}

impl View for FetchEvent {
    type V = FetchEventView;

    open spec fn view(&self) -> FetchEventView {
        match self {
            FetchEvent::Responded { content_length } => FetchEventView::Responded {
                content_length: *content_length,
            },
            FetchEvent::RequestFailed { reason } => FetchEventView::RequestFailed { reason: reason@ },
            FetchEvent::FileCreated => FetchEventView::FileCreated,
            FetchEvent::FileFailed { reason } => FetchEventView::FileFailed { reason: reason@ },
            FetchEvent::ChunkRead { len } => FetchEventView::ChunkRead { len: *len },
            FetchEvent::ReadFailed { reason } => FetchEventView::ReadFailed { reason: reason@ },
            FetchEvent::ChunkWritten => FetchEventView::ChunkWritten,
            FetchEvent::WriteFailed { reason } => FetchEventView::WriteFailed { reason: reason@ },
        }
    }
}

/// The worker's state as plain values.
pub struct WorkerView {
    pub task_index: usize,
    pub task: TaskView,
    pub phase: FetchPhase,
    pub bytes_downloaded: u64,
}

impl WorkerView {
    /// Nothing is counted before the body is streamed, a chunk that is being
    /// written has at least one byte, and the count has room for it.
    pub open spec fn well_formed(self) -> bool {
        match self.phase {
            FetchPhase::AwaitResponse => self.bytes_downloaded == 0,
            FetchPhase::AwaitFile { content_length } => self.bytes_downloaded == 0,
            FetchPhase::AwaitChunk { total } => true,
            FetchPhase::AwaitWrite { total, len } => len >= 1 && self.bytes_downloaded + len
                <= u64::MAX,
        }
    }

    /// The progress that the worker reports once a chunk of a body of
    /// announced length `total` is written.
    pub open spec fn progress(self, total: u64) -> ProgressUpdate {
        ProgressUpdate {
            task_index: self.task_index,
            bytes_downloaded: self.bytes_downloaded,
            total_bytes: Some(total),
        }
    }

    /// Whether the byte count has room for what `event` brings: a chunk that
    /// was read must fit on top of the bytes counted so far.
    pub open spec fn has_room_for(self, event: FetchEventView) -> bool {
        event matches FetchEventView::ChunkRead { len } ==> self.bytes_downloaded + len <= u64::MAX
    }
}

/// The worker of one task between two steps. It is made by
/// [`FetchWorker::begin`] and handed on by [`FetchWorker::advance`].
pub struct FetchWorker {
    task_index: usize,
    task: DownloadTask,
    phase: FetchPhase,
    bytes_downloaded: u64,
}

impl View for FetchWorker {
    type V = WorkerView;

    closed spec fn view(&self) -> WorkerView {
        WorkerView {
            task_index: self.task_index,
            task: self.task@,
            phase: self.phase,
            bytes_downloaded: self.bytes_downloaded,
        }
    }
}

/// What the worker asks of the driver next, or how the task ended.
pub enum FetchStep {
    /// Send a GET request to `url`; report `Responded` or `RequestFailed`.
    SendRequest { worker: FetchWorker, url: String },
    /// Create the file at `path`, or empty it; report `FileCreated` or
    /// `FileFailed`.
    CreateFile { worker: FetchWorker, path: String },
    /// Read at most [`CHUNK_SIZE`] bytes of the body, whose announced length
    /// is `total_bytes`; report `ChunkRead` or `ReadFailed`. Where a chunk
    /// was just written, `progress` is the update to show for it first.
    ReadChunk { worker: FetchWorker, total_bytes: u64, progress: Option<ProgressUpdate> },
    /// Write the `len` bytes read last to the file; report `ChunkWritten` or
    /// `WriteFailed`.
    WriteChunk { worker: FetchWorker, len: usize },
    /// The task is over.
    Finished { outcome: DownloadOutcome },
}

/// A fetch step as plain values.
pub enum FetchStepView {
    SendRequest { worker: WorkerView, url: Seq<char> },
    CreateFile { worker: WorkerView, path: Seq<char> },
    ReadChunk { worker: WorkerView, total_bytes: u64, progress: Option<ProgressUpdate> },
    WriteChunk { worker: WorkerView, len: usize },
    Finished { outcome: OutcomeView },
}

impl View for FetchStep {
    type V = FetchStepView;

    open spec fn view(&self) -> FetchStepView {
        match self {
            FetchStep::SendRequest { worker, url } => FetchStepView::SendRequest {
                worker: worker@,
                url: url@,
            },
            FetchStep::CreateFile { worker, path } => FetchStepView::CreateFile {
                worker: worker@,
                path: path@,
            },
            FetchStep::ReadChunk { worker, total_bytes, progress } => FetchStepView::ReadChunk {
                worker: worker@,
                total_bytes: *total_bytes,
                progress: *progress,
            },
            FetchStep::WriteChunk { worker, len } => FetchStepView::WriteChunk {
                worker: worker@,
                len: *len,
            },
            FetchStep::Finished { outcome } => FetchStepView::Finished { outcome: outcome@ },
        }
    }
}

impl FetchStepView {
    /// The worker that a step hands on, if any.
    pub open spec fn worker(self) -> Option<WorkerView> {
        match self {
            FetchStepView::SendRequest { worker, url } => Some(worker),
            FetchStepView::CreateFile { worker, path } => Some(worker),
            FetchStepView::ReadChunk { worker, total_bytes, progress } => Some(worker),
            FetchStepView::WriteChunk { worker, len } => Some(worker),
            FetchStepView::Finished { outcome } => None,
        }
    }

    /// The worker that a step hands on, if any, is well formed.
    pub open spec fn well_formed(self) -> bool {
        self.worker() matches Some(worker) ==> worker.well_formed()
    }
}

/// The outcome of the worker's task when it fails with `error`.
pub open spec fn failed(worker: WorkerView, error: FetchErrorView) -> FetchStepView {
    FetchStepView::Finished {
        outcome: OutcomeView { task_index: worker.task_index, status: StatusView::Failure(error) },
    }
}

/// The first step of the task at position `task_index`: send the request.
pub open spec fn fetch_start(task_index: usize, task: TaskView) -> FetchStepView {
    FetchStepView::SendRequest {
        worker: WorkerView {
            task_index,
            task,
            phase: FetchPhase::AwaitResponse,
            bytes_downloaded: 0,
        },
        url: task.source_url,
    }
}

/// The step that follows when `worker` is told `event`.
///
/// The request comes first, then the destination file, and only then the
/// announced length is looked at: a response without one fails the task with
/// the file already emptied. Then chunks are read and written in turn, until
/// a read brings no bytes: that is success. Once a chunk is written the count
/// grows by its length, and the request for the next chunk carries the
/// progress update for it: there is one update after each chunk and none
/// before the first. A failed request or read is a request error, a failed
/// create or write an I/O error. An event that does not answer the
/// outstanding request changes nothing: the request is repeated, without an
/// update.
pub open spec fn fetch_transition(worker: WorkerView, event: FetchEventView) -> FetchStepView {
    match worker.phase {
        FetchPhase::AwaitResponse => match event {
            FetchEventView::Responded { content_length } => FetchStepView::CreateFile {
                worker: WorkerView { phase: FetchPhase::AwaitFile { content_length }, ..worker },
                path: worker.task.destination_path,
            },
            FetchEventView::RequestFailed { reason } => failed(
                worker,
                FetchErrorView::RequestError { reason },
            ),
            _ => FetchStepView::SendRequest { worker, url: worker.task.source_url },
        },
        FetchPhase::AwaitFile { content_length } => match event {
            FetchEventView::FileCreated => match content_length {
                Some(total) => FetchStepView::ReadChunk {
                    worker: WorkerView { phase: FetchPhase::AwaitChunk { total }, ..worker },
                    total_bytes: total,
                    progress: None,
                },
                None => failed(
                    worker,
                    FetchErrorView::MissingContentLength { url: worker.task.source_url },
                ),
            },
            FetchEventView::FileFailed { reason } => failed(
                worker,
                FetchErrorView::IoError { reason },
            ),
            _ => FetchStepView::CreateFile { worker, path: worker.task.destination_path },
        },
        FetchPhase::AwaitChunk { total } => match event {
            FetchEventView::ChunkRead { len } => if len == 0 {
                FetchStepView::Finished {
                    outcome: OutcomeView {
                        task_index: worker.task_index,
                        status: StatusView::Success,
                    },
                }
            } else {
                FetchStepView::WriteChunk {
                    worker: WorkerView { phase: FetchPhase::AwaitWrite { total, len }, ..worker },
                    len,
                }
            },
            FetchEventView::ReadFailed { reason } => failed(
                worker,
                FetchErrorView::RequestError { reason },
            ),
            _ => FetchStepView::ReadChunk { worker, total_bytes: total, progress: None },
        },
        FetchPhase::AwaitWrite { total, len } => match event {
            FetchEventView::ChunkWritten => {
                let after = WorkerView {
                    phase: FetchPhase::AwaitChunk { total },
                    bytes_downloaded: (worker.bytes_downloaded + len) as u64,
                    ..worker
                };
                FetchStepView::ReadChunk {
                    worker: after,
                    total_bytes: total,
                    progress: Some(after.progress(total)),
                }
            },
            FetchEventView::WriteFailed { reason } => failed(
                worker,
                FetchErrorView::IoError { reason },
            ),
            _ => FetchStepView::WriteChunk { worker, len },
        },
    }
}

impl FetchWorker {
    #[verifier::type_invariant]
    spec fn inv(&self) -> bool {
        self@.well_formed()
    }

    /// The bytes stored so far.
    pub fn bytes_downloaded(&self) -> (bytes: u64)
        ensures
            bytes == self@.bytes_downloaded,
    {
        self.bytes_downloaded
    }

    /// Whether the byte count has room for what `event` brings.
    pub fn has_room_for(&self, event: &FetchEvent) -> (room: bool)
        ensures
            room == self@.has_room_for(event@),
    {
        match event {
            FetchEvent::ChunkRead { len } => *len as u128 + self.bytes_downloaded as u128
                <= u64::MAX as u128,
            _ => true,
        }
    }

    /// Starts the task at position `task_index` of its batch.
    pub fn begin(task_index: usize, task: DownloadTask) -> (step: FetchStep)
        ensures
            step@ == fetch_start(task_index, task@),
            step@.well_formed(),
    {
        let url = task.source_url.clone();
        FetchStep::SendRequest {
            worker: FetchWorker {
                task_index,
                task,
                phase: FetchPhase::AwaitResponse,
                bytes_downloaded: 0,
            },
            url,
        }
    }

    /// Takes the worker one step on: see [`fetch_transition`].
    pub fn advance(self, event: FetchEvent) -> (step: FetchStep)
        requires
            self@.has_room_for(event@),
        ensures
            self@.well_formed(),
            step@ == fetch_transition(self@, event@),
            step@.well_formed(),
    {
        proof {
            use_type_invariant(&self);
        }
        let FetchWorker { task_index, task, phase, bytes_downloaded } = self;
        match phase {
            FetchPhase::AwaitResponse => match event {
                FetchEvent::Responded { content_length } => {
                    let path = task.destination_path.clone();
                    FetchStep::CreateFile {
                        worker: FetchWorker {
                            task_index,
                            task,
                            phase: FetchPhase::AwaitFile { content_length },
                            bytes_downloaded,
                        },
                        path,
                    }
                },
                FetchEvent::RequestFailed { reason } => FetchStep::Finished {
                    outcome: DownloadOutcome::failure(
                        task_index,
                        FetchError::RequestError { reason },
                    ),
                },
                _ => {
                    let url = task.source_url.clone();
                    FetchStep::SendRequest {
                        worker: FetchWorker { task_index, task, phase, bytes_downloaded },
                        url,
                    }
                },
            },
            FetchPhase::AwaitFile { content_length } => match event {
                FetchEvent::FileCreated => match content_length {
                    Some(total) => FetchStep::ReadChunk {
                        worker: FetchWorker {
                            task_index,
                            task,
                            phase: FetchPhase::AwaitChunk { total },
                            bytes_downloaded,
                        },
                        total_bytes: total,
                        progress: None,
                    },
                    None => FetchStep::Finished {
                        outcome: DownloadOutcome::failure(
                            task_index,
                            FetchError::MissingContentLength { url: task.source_url },
                        ),
                    },
                },
                FetchEvent::FileFailed { reason } => FetchStep::Finished {
                    outcome: DownloadOutcome::failure(task_index, FetchError::IoError { reason }),
                },
                _ => {
                    let path = task.destination_path.clone();
                    FetchStep::CreateFile {
                        worker: FetchWorker { task_index, task, phase, bytes_downloaded },
                        path,
                    }
                },
            },
            FetchPhase::AwaitChunk { total } => match event {
                FetchEvent::ChunkRead { len } => {
                    if len == 0 {
                        FetchStep::Finished { outcome: DownloadOutcome::success(task_index) }
                    } else {
                        FetchStep::WriteChunk {
                            worker: FetchWorker {
                                task_index,
                                task,
                                phase: FetchPhase::AwaitWrite { total, len },
                                bytes_downloaded,
                            },
                            len,
                        }
                    }
                },
                FetchEvent::ReadFailed { reason } => FetchStep::Finished {
                    outcome: DownloadOutcome::failure(
                        task_index,
                        FetchError::RequestError { reason },
                    ),
                },
                _ => FetchStep::ReadChunk {
                    worker: FetchWorker { task_index, task, phase, bytes_downloaded },
                    total_bytes: total,
                    progress: None,
                },
            },
            FetchPhase::AwaitWrite { total, len } => match event {
                FetchEvent::ChunkWritten => {
                    let counted: u64 = bytes_downloaded + len as u64;
                    FetchStep::ReadChunk {
                        worker: FetchWorker {
                            task_index,
                            task,
                            phase: FetchPhase::AwaitChunk { total },
                            bytes_downloaded: counted,
                        },
                        total_bytes: total,
                        progress: Some(
                            ProgressUpdate {
                                task_index,
                                bytes_downloaded: counted,
                                total_bytes: Some(total),
                            },
                        ),
                    }
                },
                FetchEvent::WriteFailed { reason } => FetchStep::Finished {
                    outcome: DownloadOutcome::failure(task_index, FetchError::IoError { reason }),
                },
                _ => FetchStep::WriteChunk {
                    worker: FetchWorker { task_index, task, phase, bytes_downloaded },
                    len,
                },
            },
        }
    }
}

} // verus!
