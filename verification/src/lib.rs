//! Core of a concurrent multi-URL file fetcher: everything that is decided
//! between a list of URLs and a batch result, with nothing that touches the
//! network, the disk or the screen.
//!
//! A batch runs in two stages. First every URL is *planned*, strictly one
//! after the other: the destination directory is listed, the next free
//! `download_NN` name is allocated, the extension is resolved from the URL,
//! and an empty placeholder reserves the path before the next URL is looked
//! at. Then every task is *fetched*, all of them side by side: request,
//! create the file, stream the body chunk by chunk, and report progress
//! after every chunk. A task that fails ends alone; the batch result holds
//! one outcome for each task, in task order.
//!
//! The two stages are state machines that a driver runs. The driver does
//! what a step asks for and reports back what happened:
//!
//! - [`planner::Planner`] asks for listings and placeholders and ends with
//!   the tasks or a [`planner::PlanningError`];
//! - [`worker::FetchWorker`] asks for the request, the file, reads and
//!   writes, hands out [`worker::ProgressUpdate`]s and ends with a
//!   [`outcome::DownloadOutcome`];
//! - [`batch::BatchCollector`] takes the outcomes in whatever order the tasks
//!   end and gives the [`batch::BatchResult`].
//!
//! Beneath them stand the pure parts: [`extension`] resolves extensions,
//! [`allocator`] names and numbers files, [`text`] holds the character-level
//! helpers. [`batch_plan`] and [`fetch_run`] say what holds of whole batches
//! and whole transfers, and [`form`] is the batch as a front end edits it.

pub mod allocator;
pub mod batch;
pub mod batch_plan;
pub mod extension;
pub mod fetch_run;
pub mod form;
pub mod outcome;
pub mod planner;
pub mod text;
pub mod worker;
