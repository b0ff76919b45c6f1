use apod_crawl::fetch::FetchFailure;
use apod_crawl::outcome::{summarize, FailureCause, NotFoundCause, Outcome, RunSummary};

fn mixed() -> Vec<Outcome> {
    vec![
        Outcome::Downloaded,
        Outcome::NotFound(NotFoundCause::AssetMissing),
        Outcome::Skipped,
        Outcome::Downloaded,
        Outcome::Failed(FailureCause::WriteFailed),
        Outcome::NotFound(NotFoundCause::FetchFailed(FetchFailure::Status(404))),
        Outcome::Downloaded,
        Outcome::Failed(FailureCause::FetchFailed(FetchFailure::Transport)),
        Outcome::NotFound(NotFoundCause::FetchFailed(FetchFailure::Transport)),
    ]
}

#[test]
fn summary_starts_empty() {
    let s = RunSummary::new();
    assert_eq!(s, RunSummary { downloaded: 0, skipped: 0, not_found: 0, failed: 0 });
    assert_eq!(s.total(), Some(0));
    assert_eq!(s.unsuccessful(), Some(0));
}

#[test]
fn record_counts_each_kind_apart() {
    let mut s = RunSummary::new();
    s.record(Outcome::Downloaded);
    assert_eq!(s, RunSummary { downloaded: 1, skipped: 0, not_found: 0, failed: 0 });
    s.record(Outcome::Skipped);
    assert_eq!(s, RunSummary { downloaded: 1, skipped: 1, not_found: 0, failed: 0 });
    s.record(Outcome::NotFound(NotFoundCause::AssetMissing));
    assert_eq!(s, RunSummary { downloaded: 1, skipped: 1, not_found: 1, failed: 0 });
    s.record(Outcome::Failed(FailureCause::WriteFailed));
    assert_eq!(s, RunSummary { downloaded: 1, skipped: 1, not_found: 1, failed: 1 });
    s.record(Outcome::Failed(FailureCause::FetchFailed(FetchFailure::Status(503))));
    assert_eq!(s, RunSummary { downloaded: 1, skipped: 1, not_found: 1, failed: 2 });
}

#[test]
fn summarize_tallies_every_outcome_once() {
    let s = summarize(&mixed());
    assert_eq!(s, RunSummary { downloaded: 3, skipped: 1, not_found: 3, failed: 2 });
    assert_eq!(s.total(), Some(9));
    assert_eq!(s.unsuccessful(), Some(5));
    assert_eq!(summarize(&Vec::new()), RunSummary::new());
}

#[test]
fn summary_does_not_depend_on_the_order_of_outcomes() {
    let forward = mixed();
    let mut backward = mixed();
    backward.reverse();
    let mut rotated = mixed();
    rotated.rotate_left(4);
    assert_eq!(summarize(&forward), summarize(&backward));
    assert_eq!(summarize(&forward), summarize(&rotated));
}

#[test]
fn total_that_does_not_fit_is_none() {
    let s = RunSummary { downloaded: usize::MAX, skipped: 1, not_found: 0, failed: 0 };
    assert_eq!(s.total(), None);
    let s = RunSummary { downloaded: usize::MAX - 1, skipped: 0, not_found: 0, failed: 1 };
    assert_eq!(s.total(), Some(usize::MAX));
    let s = RunSummary { downloaded: 0, skipped: 0, not_found: usize::MAX, failed: 1 };
    assert_eq!(s.unsuccessful(), None);
    assert_eq!(s.total(), None);
}
