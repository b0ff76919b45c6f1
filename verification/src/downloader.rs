//! The downloader's decisions: when to skip, and how a transfer ended.
//!
//! A download is skipped exactly when its destination exists already, and
//! then nothing is fetched. Otherwise the image is fetched and stored once,
//! with no second attempt, and the result of that one transfer decides the
//! outcome.

use crate::fetch::{classify, failure_of, transfer_status, FetchFailure, Transfer};
use crate::outcome::{FailureCause, Outcome};
use vstd::prelude::*;

verus! {

/// What to do about a download once it is known whether the destination
/// exists.
#[derive(Clone, Copy, Debug, PartialEq, Eq, Structural)]
pub enum DownloadPlan {
    /// The destination exists: fetch nothing.
    Skip,
    /// The destination does not exist: fetch the image and store it.
    Transfer,
}

/// The plan for a destination that exists, or does not.
pub open spec fn planned(exists: bool) -> DownloadPlan {
    if exists {
        DownloadPlan::Skip
    } else {
        DownloadPlan::Transfer
    }
}

/// The outcome of a transfer: a failed fetch is `Failed` with the fetch's
/// failure, a fetched image that could not be written is `Failed` with
/// `WriteFailed`, and all else is `Downloaded`.
pub open spec fn transfer_outcome(transfer: Transfer) -> Outcome {
    match failure_of(transfer_status(transfer)) {
        Some(failure) => Outcome::Failed(FailureCause::FetchFailed(failure)),
        None => match transfer {
            Transfer::Response { stored: true, .. } => Outcome::Downloaded,
            _ => Outcome::Failed(FailureCause::WriteFailed),
        },
    }
}

/// The outcome of a download: `Skipped` where the destination existed,
/// else the outcome of the transfer.
pub open spec fn download_outcome(exists: bool, transfer: Transfer) -> Outcome {
    match planned(exists) {
        DownloadPlan::Skip => Outcome::Skipped,
        DownloadPlan::Transfer => transfer_outcome(transfer),
    }
}

/// Decides whether to fetch at all.
pub fn plan(exists: bool) -> (r: DownloadPlan)
    ensures
        r == planned(exists),
{
    if exists {
        DownloadPlan::Skip
    } else {
        DownloadPlan::Transfer
    }
}

/// Decides how a download ended from the result of its transfer.
pub fn conclude(transfer: Transfer) -> (r: Outcome)
    ensures
        r == transfer_outcome(transfer),
        r is Downloaded || r is Failed,
{
    match transfer {
        Transfer::Unreachable => Outcome::Failed(
            FailureCause::FetchFailed(FetchFailure::Transport),
        ),
        Transfer::Response { status, stored } => match classify(Some(status)) {
            Some(failure) => Outcome::Failed(FailureCause::FetchFailed(failure)),
            None => if stored {
                Outcome::Downloaded
            } else {
                Outcome::Failed(FailureCause::WriteFailed)
            },
        },
    }
}

/// A download ends in one of three ways, never as `NotFound`; it is
/// `Skipped` exactly when the destination existed; and it is `Downloaded`
/// exactly when the destination did not exist, the fetch succeeded and the
/// image was stored.
pub proof fn lemma_download_outcome(exists: bool, transfer: Transfer)
    ensures
        !(download_outcome(exists, transfer) is NotFound),
        download_outcome(exists, transfer) is Skipped <==> exists,
        download_outcome(exists, transfer) is Downloaded <==> !exists
            && failure_of(transfer_status(transfer)) is None
            && transfer matches Transfer::Response { stored: true, .. },
{
}

} // verus!
