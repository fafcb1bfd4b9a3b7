//! Task planner: turns an ordered list of URLs into download tasks with
//! collision-free destination paths, one directory listing and one reserved
//! placeholder at a time.

use crate::allocator::{allocate_index, allocated_index, format_index, index_name};
use crate::extension::{extension_of, get_extension};
use vstd::prelude::*;
use vstd::string::*;

verus! {

/// One planned download: where to fetch from and where to store it.
#[derive(Clone, Debug, PartialEq, Eq)]
pub struct DownloadTask {
    pub source_url: String,
    pub destination_path: String,
}

/// A download task as plain text.
pub struct TaskView {
    pub source_url: Seq<char>,
    pub destination_path: Seq<char>,
}

impl View for DownloadTask {
    type V = TaskView;

    open spec fn view(&self) -> TaskView {
        TaskView { source_url: self.source_url@, destination_path: self.destination_path@ }
    }
}

impl DeepView for DownloadTask {
    type V = TaskView;

    open spec fn deep_view(&self) -> TaskView {
        self@
    }
}

/// Why planning stopped before any fetch began.
#[derive(Clone, Debug, PartialEq, Eq)]
pub enum PlanningError {
    /// The destination directory could not be listed.
    DirectoryUnreadable { reason: String },
    /// The placeholder that reserves `path` could not be created.
    PlaceholderFailed { path: String, reason: String },
}

/// A planning error as plain text.
pub enum PlanningErrorView {
    DirectoryUnreadable { reason: Seq<char> },
    PlaceholderFailed { path: Seq<char>, reason: Seq<char> },
}

impl View for PlanningError {
    type V = PlanningErrorView;

    open spec fn view(&self) -> PlanningErrorView {
        match self {
            PlanningError::DirectoryUnreadable { reason } => PlanningErrorView::DirectoryUnreadable {
                reason: reason@,
            },
            PlanningError::PlaceholderFailed { path, reason } => PlanningErrorView::PlaceholderFailed {
                path: path@,
                reason: reason@,
            },
        }
    }
}

impl PlanningError {
    /// The reason that the failed filesystem operation gave.
    pub fn message(&self) -> (text: String)
        ensures
            text@ == match self@ {
                PlanningErrorView::DirectoryUnreadable { reason } => reason,
                PlanningErrorView::PlaceholderFailed { path, reason } => reason,
            },
    {
        match self {
            PlanningError::DirectoryUnreadable { reason } => reason.clone(),
            PlanningError::PlaceholderFailed { path: _, reason } => reason.clone(),
        }
    }
}

/// The destination for `url` in the directory `dir` whose listing is
/// `entries`: the directory text, the base name of the next free index, and
/// the extension resolved for the URL.
pub open spec fn planned_path(dir: Seq<char>, entries: Seq<Seq<char>>, url: Seq<char>) -> Seq<
    char,
> {
    dir + index_name(allocated_index(dir, entries)) + extension_of(url)
}

/// The task planned for `url` against the listing `entries` of `dir`.
pub open spec fn planned_task(dir: Seq<char>, entries: Seq<Seq<char>>, url: Seq<char>) -> TaskView {
    TaskView { source_url: url, destination_path: planned_path(dir, entries, url) }
}

/// Plans one download: allocates the next free index of the listing, resolves
/// the URL's extension and composes the destination path.
pub fn plan_task(dir: &str, entries: &Vec<String>, url: &str) -> (task: DownloadTask)
    ensures
        task@ == planned_task(dir@, entries.deep_view(), url@),
{
    let index = allocate_index(dir, entries);
    let name = format_index(index);
    let extension = get_extension(url);
    let mut path = String::from_str(dir);
    path.append(name.as_str());
    path.append(extension.as_str());
    DownloadTask { source_url: String::from_str(url), destination_path: path }
}

/// What the driver reports back to the planner.
#[derive(Clone, Debug, PartialEq, Eq)]
pub enum PlanEvent {
    /// The directory was listed; `entries` are the listed paths.
    Listed { entries: Vec<String> },
    /// The directory could not be listed.
    ListingFailed { reason: String },
    /// The placeholder asked for now exists.
    Reserved,
    /// The placeholder asked for could not be created.
    ReservationFailed { reason: String },
}

/// A planning event as plain text.
pub enum PlanEventView {
    Listed { entries: Seq<Seq<char>> },
    ListingFailed { reason: Seq<char> },
    Reserved,
    ReservationFailed { reason: Seq<char> },
}

impl View for PlanEvent {
    type V = PlanEventView;

    open spec fn view(&self) -> PlanEventView {
        match self {
            PlanEvent::Listed { entries } => PlanEventView::Listed { entries: entries.deep_view() },
            PlanEvent::ListingFailed { reason } => PlanEventView::ListingFailed { reason: reason@ },
            PlanEvent::Reserved => PlanEventView::Reserved,
            PlanEvent::ReservationFailed { reason } => PlanEventView::ReservationFailed {
                reason: reason@,
            },
        }
    }
}

/// The planner's state as plain values: the batch it works on, the tasks
/// whose placeholders exist, and the task whose placeholder was asked for.
pub struct PlannerView {
    pub directory: Seq<char>,
    pub urls: Seq<Seq<char>>,
    pub planned: Seq<TaskView>,
    pub pending: Option<TaskView>,
}

impl PlannerView {
    /// A planner in flight always has a URL left to work on, and its tasks
    /// stand for the URLs in order.
    pub open spec fn well_formed(self) -> bool {
        &&& self.planned.len() < self.urls.len()
        &&& forall|i: int|
            0 <= i < self.planned.len() ==> (#[trigger] self.planned[i]).source_url == self.urls[i]
        &&& self.pending matches Some(task) ==> task.source_url == self.urls[self.planned.len() as int]
    }
}

/// The planner between two steps. It is made by [`Planner::begin`] and handed
/// on by [`Planner::advance`].
pub struct Planner {
    download_dir: String,
    urls: Vec<String>,
    tasks: Vec<DownloadTask>,
    pending: Option<DownloadTask>,
}

impl View for Planner {
    type V = PlannerView;

    closed spec fn view(&self) -> PlannerView {
        PlannerView {
            directory: self.download_dir@,
            urls: self.urls.deep_view(),
            planned: self.tasks.deep_view(),
            pending: match self.pending {
                Some(task) => Some(task@),
                None => None,
            },
        }
    }
}

/// What the planner asks of the driver next, or how planning ended.
pub enum PlanStep {
    /// List the destination directory and report `Listed` or `ListingFailed`.
    ListDirectory { planner: Planner },
    /// Create an empty file at `path` and report `Reserved` or
    /// `ReservationFailed`.
    Reserve { planner: Planner, path: String },
    /// Every URL has its task and every task its placeholder.
    Finished { tasks: Vec<DownloadTask> },
    /// Planning failed; nothing is to be fetched.
    Failed { error: PlanningError },
}

/// A planning step as plain values.
pub enum PlanStepView {
    ListDirectory { planner: PlannerView },
    Reserve { planner: PlannerView, path: Seq<char> },
    Finished { tasks: Seq<TaskView> },
    Failed { error: PlanningErrorView },
}

impl View for PlanStep {
    type V = PlanStepView;

    open spec fn view(&self) -> PlanStepView {
        match self {
            PlanStep::ListDirectory { planner } => PlanStepView::ListDirectory { planner: planner@ },
            PlanStep::Reserve { planner, path } => PlanStepView::Reserve {
                planner: planner@,
                path: path@,
            },
            PlanStep::Finished { tasks } => PlanStepView::Finished { tasks: tasks.deep_view() },
            PlanStep::Failed { error } => PlanStepView::Failed { error: error@ },
        }
    }
}

impl PlanStepView {
    /// The planner that a step hands on, if any, is well formed.
    pub open spec fn well_formed(self) -> bool {
        match self {
            PlanStepView::ListDirectory { planner } => planner.well_formed() && planner.pending is None,
            PlanStepView::Reserve { planner, path } => {
                &&& planner.well_formed()
                &&& planner.pending matches Some(task)
                &&& task.destination_path == path
            },
            _ => true,
        }
    }
}

/// The first step for a batch: nothing to do for no URLs, else a listing.
pub open spec fn plan_start(directory: Seq<char>, urls: Seq<Seq<char>>) -> PlanStepView {
    if urls.len() == 0 {
        PlanStepView::Finished { tasks: Seq::empty() }
    } else {
        PlanStepView::ListDirectory {
            planner: PlannerView { directory, urls, planned: Seq::empty(), pending: None },
        }
    }
}

/// The step that follows when `planner` is told `event`.
///
/// While a listing is awaited, a listing plans the task of the next URL and
/// asks for its placeholder, and a failure ends planning. While a placeholder
/// is awaited, its creation records the task and either finishes or asks for
/// the next listing, and a failure ends planning. An event that does not
/// answer the outstanding request changes nothing: the request is repeated.
pub open spec fn plan_transition(planner: PlannerView, event: PlanEventView) -> PlanStepView {
    match planner.pending {
        None => match event {
            PlanEventView::Listed { entries } => {
                let task = planned_task(
                    planner.directory,
                    entries,
                    planner.urls[planner.planned.len() as int],
                );
                PlanStepView::Reserve {
                    planner: PlannerView { pending: Some(task), ..planner },
                    path: task.destination_path,
                }
            },
            PlanEventView::ListingFailed { reason } => PlanStepView::Failed {
                error: PlanningErrorView::DirectoryUnreadable { reason },
            },
            _ => PlanStepView::ListDirectory { planner },
        },
        Some(task) => match event {
            PlanEventView::Reserved => if planner.planned.len() + 1 == planner.urls.len() {
                PlanStepView::Finished { tasks: planner.planned.push(task) }
            } else {
                PlanStepView::ListDirectory {
                    planner: PlannerView {
                        planned: planner.planned.push(task),
                        pending: None,
                        ..planner
                    },
                }
            },
            PlanEventView::ReservationFailed { reason } => PlanStepView::Failed {
                error: PlanningErrorView::PlaceholderFailed { path: task.destination_path, reason },
            },
            _ => PlanStepView::Reserve { planner, path: task.destination_path },
        },
    }
}

/// Whatever the driver reported on the way, a plan that finishes holds one
/// task for each URL of the batch, and the task at each position fetches the
/// URL at that position.
pub proof fn lemma_finished_plan_follows_urls(planner: PlannerView, event: PlanEventView)
    requires
        planner.well_formed(),
        plan_transition(planner, event) is Finished,
    ensures
        ({
            let tasks = plan_transition(planner, event)->tasks;
            &&& tasks.len() == planner.urls.len()
            &&& forall|i: int|
                0 <= i < tasks.len() ==> (#[trigger] tasks[i]).source_url == planner.urls[i]
        }),
{
    let tasks = plan_transition(planner, event)->tasks;
    assert forall|i: int| 0 <= i < tasks.len() implies (#[trigger] tasks[i]).source_url
        == planner.urls[i] by {
        if i < planner.planned.len() {
            assert(tasks[i] == planner.planned[i]);
        }
    }
}

impl Planner {
    #[verifier::type_invariant]
    spec fn inv(&self) -> bool {
        self@.well_formed()
    }

    /// The directory that the batch is planned for.
    pub fn download_dir(&self) -> (dir: &String)
        ensures
            dir@ == self@.directory,
    {
        &self.download_dir
    }

    /// Starts planning `urls` into `download_dir`.
    pub fn begin(download_dir: String, urls: Vec<String>) -> (step: PlanStep)
        ensures
            step@ == plan_start(download_dir@, urls.deep_view()),
            step@.well_formed(),
    {
        let tasks: Vec<DownloadTask> = Vec::new();
        assert(tasks.deep_view() =~= Seq::<TaskView>::empty());
        if urls.len() == 0 {
            PlanStep::Finished { tasks }
        } else {
            PlanStep::ListDirectory { planner: Planner { download_dir, urls, tasks, pending: None } }
        }
    }

    /// Takes the planner one step on: see [`plan_transition`].
    pub fn advance(self, event: PlanEvent) -> (step: PlanStep)
        ensures
            self@.well_formed(),
            step@ == plan_transition(self@, event@),
            step@.well_formed(),
    {
        proof {
            use_type_invariant(&self);
        }
        let ghost before = self@;
        let Planner { download_dir, urls, mut tasks, pending } = self;
        match pending {
            None => match event {
                PlanEvent::Listed { entries } => {
                    let url = &urls[tasks.len()];
                    assert(url@ == before.urls[before.planned.len() as int]);
                    let task = plan_task(download_dir.as_str(), &entries, url.as_str());
                    let path = task.destination_path.clone();
                    PlanStep::Reserve {
                        planner: Planner { download_dir, urls, tasks, pending: Some(task) },
                        path,
                    }
                },
                PlanEvent::ListingFailed { reason } => PlanStep::Failed {
                    error: PlanningError::DirectoryUnreadable { reason },
                },
                _ => PlanStep::ListDirectory {
                    planner: Planner { download_dir, urls, tasks, pending: None },
                },
            },
            Some(task) => match event {
                PlanEvent::Reserved => {
                    tasks.push(task);
                    assert(tasks.deep_view() =~= before.planned.push(task@));
                    if tasks.len() == urls.len() {
                        PlanStep::Finished { tasks }
                    } else {
                        PlanStep::ListDirectory {
                            planner: Planner { download_dir, urls, tasks, pending: None },
                        }
                    }
                },
                PlanEvent::ReservationFailed { reason } => PlanStep::Failed {
                    error: PlanningError::PlaceholderFailed { path: task.destination_path, reason },
                },
                _ => {
                    let path = task.destination_path.clone();
                    PlanStep::Reserve {
                        planner: Planner { download_dir, urls, tasks, pending: Some(task) },
                        path,
                    }
                },
            },
        }
    }
}

} // verus!
