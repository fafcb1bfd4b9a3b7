use crab_dl::outcome::{DownloadOutcome, DownloadStatus, FetchError};

#[test]
fn success_message_names_the_position_from_one() {
    assert_eq!(DownloadOutcome::success(0).message(), "Downloaded file 1");
    assert_eq!(DownloadOutcome::success(9).message(), "Downloaded file 10");
    assert_eq!(DownloadOutcome::success(122).message(), "Downloaded file 123");
}

#[test]
fn failure_message_names_position_and_reason() {
    let outcome = DownloadOutcome::failure(
        1,
        FetchError::RequestError { reason: "error sending request".to_string() },
    );
    assert_eq!(outcome.message(), "Download 2 failed: error sending request");
    let outcome =
        DownloadOutcome::failure(0, FetchError::IoError { reason: "disk full".to_string() });
    assert_eq!(outcome.message(), "Download 1 failed: disk full");
}

#[test]
fn missing_length_message_names_the_url() {
    let error = FetchError::MissingContentLength { url: "https://example.com/x".to_string() };
    assert_eq!(error.message(), "Failed to get content length from 'https://example.com/x'");
    let outcome = DownloadOutcome::failure(2, error);
    assert_eq!(
        outcome.message(),
        "Download 3 failed: Failed to get content length from 'https://example.com/x'"
    );
}

#[test]
fn error_messages_are_the_reasons() {
    assert_eq!(FetchError::RequestError { reason: "timed out".to_string() }.message(), "timed out");
    assert_eq!(FetchError::IoError { reason: "".to_string() }.message(), "");
}

#[test]
fn position_of_the_last_possible_task() {
    let outcome = DownloadOutcome::success(usize::MAX);
    let expected = format!("Downloaded file {}", usize::MAX as u128 + 1);
    assert_eq!(outcome.message(), expected);
}

#[test]
fn constructors_fill_the_fields() {
    assert_eq!(
        DownloadOutcome::success(5),
        DownloadOutcome { task_index: 5, status: DownloadStatus::Success }
    );
    let error = FetchError::IoError { reason: "r".to_string() };
    assert_eq!(
        DownloadOutcome::failure(6, error.clone()),
        DownloadOutcome { task_index: 6, status: DownloadStatus::Failure(error) }
    );
    assert!(DownloadOutcome::success(5).is_success());
    assert!(!DownloadOutcome::failure(5, FetchError::IoError { reason: "r".to_string() }).is_success());
}
