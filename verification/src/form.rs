//! The batch as a user puts it together: a destination directory, the URL
//! being typed, the URLs queued so far, and the last planning failure.

use crate::planner::{PlanningError, PlanningErrorView};
use crate::text::{decimal, decimal_string};
use vstd::prelude::*;
use vstd::string::*;

verus! {

/// What a front end shows and edits before it starts a batch.
#[derive(Clone, Debug, PartialEq, Eq)]
pub struct DownloadForm {
    /// The URL being typed.
    pub current_url: String,
    /// The destination directory, as text that ends with a separator.
    pub download_dir: String,
    /// The URLs queued for the next batch, in order.
    pub urls: Vec<String>,
    /// Why the last batch could not be planned, if it could not.
    pub error: Option<String>,
}

/// A form as plain text.
pub struct FormView {
    pub current_url: Seq<char>,
    pub download_dir: Seq<char>,
    pub urls: Seq<Seq<char>>,
    pub error: Option<Seq<char>>,
}

impl View for DownloadForm {
    type V = FormView;

    open spec fn view(&self) -> FormView {
        FormView {
            current_url: self.current_url@,
            download_dir: self.download_dir@,
            urls: self.urls.deep_view(),
            error: match self.error {
                Some(text) => Some(text@),
                None => None,
            },
        }
    }
}

/// `/Downloads/`
pub open spec fn downloads_folder() -> Seq<char> {
    seq!['/', 'D', 'o', 'w', 'n', 'l', 'o', 'a', 'd', 's', '/']
}

/// `./`
pub open spec fn working_directory() -> Seq<char> {
    seq!['.', '/']
}

/// `Download failed: `
pub open spec fn failure_lead() -> Seq<char> {
    seq!['D', 'o', 'w', 'n', 'l', 'o', 'a', 'd', ' ', 'f', 'a', 'i', 'l', 'e', 'd', ':', ' ']
}

/// The directory that a new form proposes: the `Downloads` folder under the
/// user's home directory, or the working directory where no home is known.
pub open spec fn default_directory(home: Option<Seq<char>>) -> Seq<char> {
    match home {
        Some(home) => home + downloads_folder(),
        None => working_directory(),
    }
}

/// The form that a front end starts with.
pub open spec fn initial_form(home: Option<Seq<char>>) -> FormView {
    FormView {
        current_url: Seq::empty(),
        download_dir: default_directory(home),
        urls: Seq::empty(),
        error: None,
    }
}

/// The form after the typed URL is queued: it goes to the end of the queue
/// and the input is emptied. An empty input changes nothing.
pub open spec fn with_url_queued(form: FormView) -> FormView {
    if form.current_url.len() == 0 {
        form
    } else {
        FormView { current_url: Seq::empty(), urls: form.urls.push(form.current_url), ..form }
    }
}

/// The form after the URL at `index` is taken out of the queue. An index past
/// the queue changes nothing.
pub open spec fn with_url_removed(form: FormView, index: int) -> FormView {
    if 0 <= index < form.urls.len() {
        FormView { urls: form.urls.remove(index), ..form }
    } else {
        form
    }
}

/// What a front end tells its user when planning failed.
pub open spec fn failure_notice(error: PlanningErrorView) -> Seq<char> {
    failure_lead() + match error {
        PlanningErrorView::DirectoryUnreadable { reason } => reason,
        PlanningErrorView::PlaceholderFailed { path, reason } => reason,
    }
}

/// The form after a batch was run: a planning failure is kept as the notice
/// to show, and a batch that was planned clears the notice.
pub open spec fn with_result(form: FormView, failure: Option<PlanningErrorView>) -> FormView {
    FormView {
        error: match failure {
            Some(error) => Some(failure_notice(error)),
            None => None,
        },
        ..form
    }
}

/// The line that shows the queued `url` at `index`: its position counted from
/// 1, a dot, a space, and the URL.
pub open spec fn queue_label(index: usize, url: Seq<char>) -> Seq<char> {
    decimal((index + 1) as nat) + seq!['.', ' '] + url
}

/// Asks `dirs::home_dir` for the user's home directory and hands it on as
/// text. Nothing is claimed of the result: it depends on the user's
/// environment. There is none where the crate knows no home directory or
/// where its path is not valid UTF-8.
#[verifier::external_body]
fn home_directory() -> (home: Option<String>) {
    match dirs::home_dir() {
        Some(path) => path.into_os_string().into_string().ok(),
        None => None,
    }
}

/// What a front end tells its user when planning failed with `error`.
pub fn notice_of_failure(error: &PlanningError) -> (notice: String)
    ensures
        notice@ == failure_notice(error@),
{
    proof {
        reveal_strlit("Download failed: ");
    }
    let mut notice = String::from_str("Download failed: ");
    assert(notice@ =~= failure_lead());
    let reason = error.message();
    notice.append(reason.as_str());
    notice
}

/// The line that shows the queued `url` at `index`.
pub fn label_of_queued(index: usize, url: &str) -> (label: String)
    ensures
        label@ == queue_label(index, url@),
{
    proof {
        reveal_strlit(". ");
    }
    let mut label = decimal_string(index as u128 + 1);
    label.append(". ");
    assert(label@ =~= decimal((index + 1) as nat) + seq!['.', ' ']);
    label.append(url);
    label
}

impl DownloadForm {
    /// The form to start with, given the user's home directory if one is
    /// known.
    pub fn new(home: Option<String>) -> (form: DownloadForm)
        ensures
            form@ == initial_form(
                match home {
                    Some(text) => Some(text@),
                    None => None,
                },
            ),
    {
        let download_dir = match home {
            Some(mut text) => {
                proof {
                    reveal_strlit("/Downloads/");
                }
                let ghost before = text@;
                text.append("/Downloads/");
                assert(text@ =~= before + downloads_folder());
                text
            },
            None => {
                proof {
                    reveal_strlit("./");
                }
                let text = String::from_str("./");
                assert(text@ =~= working_directory());
                text
            },
        };
        let urls: Vec<String> = Vec::new();
        assert(urls.deep_view() =~= Seq::<Seq<char>>::empty());
        DownloadForm { current_url: String::new(), download_dir, urls, error: None }
    }

    /// The form to start with for the user who runs the program: whatever
    /// home directory is found, the form is the initial one for it.
    pub fn for_current_user() -> (form: DownloadForm)
        ensures
            exists|home: Option<Seq<char>>| form@ == #[trigger] initial_form(home),
    {
        let home = home_directory();
        let ghost seen = match &home {
            Some(text) => Some(text@),
            None => None,
        };
        let form = DownloadForm::new(home);
        assert(form@ == initial_form(seen));
        form
    }

    /// Queues the URL being typed, unless nothing was typed.
    pub fn queue_url(&mut self)
        ensures
            final(self)@ == with_url_queued(old(self)@),
    {
        if !self.current_url.as_str().is_empty() {
            let ghost before = self.urls.deep_view();
            let url = self.current_url.clone();
            self.urls.push(url);
            self.current_url = String::new();
            assert(self.urls.deep_view() =~= before.push(url@));
        }
    }

    /// Takes the URL at `index` out of the queue, if there is one.
    pub fn remove_url(&mut self, index: usize)
        ensures
            final(self)@ == with_url_removed(old(self)@, index as int),
    {
        if index < self.urls.len() {
            let ghost before = self.urls.deep_view();
            self.urls.remove(index);
            assert(self.urls.deep_view() =~= before.remove(index as int));
        }
    }

    /// Takes `path` as the destination directory.
    pub fn choose_directory(&mut self, path: String)
        ensures
            final(self)@ == (FormView { download_dir: path@, ..old(self)@ }),
    {
        self.download_dir = path;
    }

    /// Whether there is a batch to start: at least one URL is queued.
    pub fn is_ready(&self) -> (ready: bool)
        ensures
            ready == (self@.urls.len() > 0),
    {
        self.urls.len() > 0
    }

    /// Keeps how the batch went: the notice of a planning failure, or none.
    pub fn record_result(&mut self, failure: Option<&PlanningError>)
        ensures
            final(self)@ == with_result(
                old(self)@,
                match failure {
                    Some(error) => Some(error@),
                    None => None,
                },
            ),
    {
        self.error = match failure {
            Some(error) => Some(notice_of_failure(error)),
            None => None,
        };
    }
}

} // verus!
