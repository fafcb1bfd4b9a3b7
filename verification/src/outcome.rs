//! What a finished download reports: success, or one of the three ways a
//! fetch can fail.

use crate::text::{decimal, decimal_string};
use vstd::prelude::*;
use vstd::string::*;

verus! {

/// Why one fetch failed. A failure ends its own task only.
#[derive(Clone, Debug, PartialEq, Eq)]
pub enum FetchError {
    /// The server did not say how long the body is.
    MissingContentLength { url: String },
    /// The request or the transfer failed on the network side.
    RequestError { reason: String },
    /// The destination file could not be created or written.
    IoError { reason: String },
}

/// A fetch error as plain text.
pub enum FetchErrorView {
    MissingContentLength { url: Seq<char> },
    RequestError { reason: Seq<char> },
    IoError { reason: Seq<char> },
}

impl View for FetchError {
    type V = FetchErrorView;

    open spec fn view(&self) -> FetchErrorView {
        match self {
            FetchError::MissingContentLength { url } => FetchErrorView::MissingContentLength {
                url: url@,
            },
            FetchError::RequestError { reason } => FetchErrorView::RequestError { reason: reason@ },
            FetchError::IoError { reason } => FetchErrorView::IoError { reason: reason@ },
        }
    }
}

/// How one task ended.
#[derive(Clone, Debug, PartialEq, Eq)]
pub enum DownloadStatus {
    Success,
    Failure(FetchError),
}

/// A status as plain text.
pub enum StatusView {
    Success,
    Failure(FetchErrorView),
}

impl View for DownloadStatus {
    type V = StatusView;

    open spec fn view(&self) -> StatusView {
        match self {
            DownloadStatus::Success => StatusView::Success,
            DownloadStatus::Failure(error) => StatusView::Failure(error@),
        }
    }
}

/// The terminal result of the task at position `task_index` (from 0) of its
/// batch.
#[derive(Clone, Debug, PartialEq, Eq)]
pub struct DownloadOutcome {
    pub task_index: usize,
    pub status: DownloadStatus,
}

/// An outcome as plain values.
pub struct OutcomeView {
    pub task_index: usize,
    pub status: StatusView,
}

impl View for DownloadOutcome {
    type V = OutcomeView;

    open spec fn view(&self) -> OutcomeView {
        OutcomeView { task_index: self.task_index, status: self.status@ }
    }
}

impl DeepView for DownloadOutcome {
    type V = OutcomeView;

    open spec fn deep_view(&self) -> OutcomeView {
        self@
    }
}

/// `Failed to get content length from '`
pub open spec fn missing_length_lead() -> Seq<char> {
    seq![
        'F', 'a', 'i', 'l', 'e', 'd', ' ', 't', 'o', ' ', 'g', 'e', 't', ' ', 'c', 'o', 'n', 't',
        'e', 'n', 't', ' ', 'l', 'e', 'n', 'g', 't', 'h', ' ', 'f', 'r', 'o', 'm', ' ', '\'',
    ]
}

/// The text that tells a user why a fetch failed.
pub open spec fn error_message(error: FetchErrorView) -> Seq<char> {
    match error {
        FetchErrorView::MissingContentLength { url } => missing_length_lead() + url + seq!['\''],
        FetchErrorView::RequestError { reason } => reason,
        FetchErrorView::IoError { reason } => reason,
    }
}

/// `Downloaded file `
pub open spec fn success_lead() -> Seq<char> {
    seq!['D', 'o', 'w', 'n', 'l', 'o', 'a', 'd', 'e', 'd', ' ', 'f', 'i', 'l', 'e', ' ']
}

/// `Download `
pub open spec fn failure_lead() -> Seq<char> {
    seq!['D', 'o', 'w', 'n', 'l', 'o', 'a', 'd', ' ']
}

/// ` failed: `
pub open spec fn failure_link() -> Seq<char> {
    seq![' ', 'f', 'a', 'i', 'l', 'e', 'd', ':', ' ']
}

/// The line that reports an outcome to a user. It names the task by its
/// position counted from 1; for a failure the reason follows.
pub open spec fn outcome_message(outcome: OutcomeView) -> Seq<char> {
    let position = decimal((outcome.task_index + 1) as nat);
    match outcome.status {
        StatusView::Success => success_lead() + position,
        StatusView::Failure(error) => failure_lead() + position + failure_link() + error_message(
            error,
        ),
    }
}

impl FetchError {
    /// The text that tells a user why the fetch failed.
    pub fn message(&self) -> (text: String)
        ensures
            text@ == error_message(self@),
    {
        match self {
            FetchError::MissingContentLength { url } => {
                proof {
                    reveal_strlit("Failed to get content length from '");
                    reveal_strlit("'");
                }
                let mut text = String::from_str("Failed to get content length from '");
                assert(text@ =~= missing_length_lead());
                text.append(url.as_str());
                text.append("'");
                text
            },
            FetchError::RequestError { reason } => reason.clone(),
            FetchError::IoError { reason } => reason.clone(),
        }
    }
}

impl DownloadOutcome {
    /// The outcome of a task that was fetched and stored in full.
    pub fn success(task_index: usize) -> (outcome: DownloadOutcome)
        ensures
            outcome@ == (OutcomeView { task_index, status: StatusView::Success }),
    {
        DownloadOutcome { task_index, status: DownloadStatus::Success }
    }

    /// The outcome of a task that failed with `error`.
    pub fn failure(task_index: usize, error: FetchError) -> (outcome: DownloadOutcome)
        ensures
            outcome@ == (OutcomeView { task_index, status: StatusView::Failure(error@) }),
    {
        DownloadOutcome { task_index, status: DownloadStatus::Failure(error) }
    }

    /// Whether the task succeeded.
    pub fn is_success(&self) -> (yes: bool)
        ensures
            yes == (self@.status is Success),
    {
        match self.status {
            DownloadStatus::Success => true,
            DownloadStatus::Failure(_) => false,
        }
    }

    /// The line that reports this outcome to a user.
    pub fn message(&self) -> (text: String)
        ensures
            text@ == outcome_message(self@),
    {
        let position = decimal_string(self.task_index as u128 + 1);
        match &self.status {
            DownloadStatus::Success => {
                proof {
                    reveal_strlit("Downloaded file ");
                }
                let mut text = String::from_str("Downloaded file ");
                assert(text@ =~= success_lead());
                text.append(position.as_str());
                text
            },
            DownloadStatus::Failure(error) => {
                proof {
                    reveal_strlit("Download ");
                    reveal_strlit(" failed: ");
                }
                let mut text = String::from_str("Download ");
                assert(text@ =~= failure_lead());
                text.append(position.as_str());
                text.append(" failed: ");
                let reason = error.message();
                text.append(reason.as_str());
                text
            },
        }
    }
}

} // verus!
