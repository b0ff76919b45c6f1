//! The life of one entry, from discovery to its outcome.
//!
//! An entry is discovered, its page is fetched and searched, the
//! destination is looked for, and the image is fetched and stored. Each of
//! the three steps that touch the network or the disk is carried out by the
//! caller; this module decides what the step is and what its result means.
//! No entry's life depends on any other entry's.

use crate::downloader::{conclude, download_outcome, plan, planned, transfer_outcome, DownloadPlan};
use crate::fetch::{PageFetch, PageFetchView, Transfer};
use crate::locator::{locate, located, Located, LocatedView};
use crate::naming::{destination, destination_path, resolved, AssetReference, Entry, EntryView};
use crate::outcome::Outcome;
use vstd::prelude::*;

verus! {

/// Where an entry stands.
#[derive(Clone, Debug, PartialEq, Eq)]
pub enum Stage {
    /// Found on the index, not yet started.
    Discovered,
    /// Its page is being fetched.
    Locating,
    /// Its image is known; whether the destination exists is being looked up.
    Located(AssetReference),
    /// Its image is being fetched and stored.
    Downloading(AssetReference),
    /// It has reached its outcome and stays there.
    Finished(Outcome),
}

/// The mathematical content of a [`Stage`].
pub enum StageView {
    Discovered,
    Locating,
    Located(Seq<char>),
    Downloading(Seq<char>),
    Finished(Outcome),
}

impl View for Stage {
    type V = StageView;

    open spec fn view(&self) -> StageView {
        match self {
            Stage::Discovered => StageView::Discovered,
            Stage::Locating => StageView::Locating,
            Stage::Located(asset) => StageView::Located(asset@),
            Stage::Downloading(asset) => StageView::Downloading(asset@),
            Stage::Finished(outcome) => StageView::Finished(*outcome),
        }
    }
}

/// What the caller reports back after carrying out an action.
#[derive(Clone, Debug, PartialEq, Eq)]
pub enum Event {
    /// The entry's page was fetched, or could not be.
    PageFetched(PageFetch),
    /// It is now known whether the destination exists.
    ExistenceChecked(bool),
    /// The image was fetched and stored, or could not be.
    TransferFinished(Transfer),
}

/// The mathematical content of an [`Event`].
pub enum EventView {
    PageFetched(PageFetchView),
    ExistenceChecked(bool),
    TransferFinished(Transfer),
}

impl View for Event {
    type V = EventView;

    open spec fn view(&self) -> EventView {
        match self {
            Event::PageFetched(fetch) => EventView::PageFetched(fetch@),
            Event::ExistenceChecked(exists) => EventView::ExistenceChecked(*exists),
            Event::TransferFinished(transfer) => EventView::TransferFinished(*transfer),
        }
    }
}

/// What the caller is asked to do for an entry.
#[derive(Clone, Debug, PartialEq, Eq)]
pub enum Action {
    /// Fetch the page at `url`.
    FetchPage { url: String },
    /// Find out whether a file exists at `path`.
    CheckExists { path: String },
    /// Fetch the image at `url` and store it at `path`.
    Download { url: String, path: String },
}

/// The mathematical content of an [`Action`].
pub enum ActionView {
    FetchPage { url: Seq<char> },
    CheckExists { path: Seq<char> },
    Download { url: Seq<char>, path: Seq<char> },
}

impl View for Action {
    type V = ActionView;

    open spec fn view(&self) -> ActionView {
        match self {
            Action::FetchPage { url } => ActionView::FetchPage { url: url@ },
            Action::CheckExists { path } => ActionView::CheckExists { path: path@ },
            Action::Download { url, path } => ActionView::Download { url: url@, path: path@ },
        }
    }
}

/// The view of an optional action.
pub open spec fn action_view(action: Option<Action>) -> Option<ActionView> {
    match action {
        Some(a) => Some(a@),
        None => None,
    }
}

/// Whether an entry in `stage` occupies a place in the concurrency budget:
/// it has been started and has not reached its outcome.
pub open spec fn is_active(stage: StageView) -> bool {
    stage is Locating || stage is Located || stage is Downloading
}

/// The most steps that an entry in `stage` has before it: to be started,
/// to have its page fetched, its destination looked for, and its image
/// transferred.
pub open spec fn steps_left(stage: StageView) -> nat {
    match stage {
        StageView::Discovered => 4,
        StageView::Locating => 3,
        StageView::Located(_) => 2,
        StageView::Downloading(_) => 1,
        StageView::Finished(_) => 0,
    }
}

/// Whether `event` is the report that an entry in `stage` waits for.
pub open spec fn awaits(stage: StageView, event: EventView) -> bool {
    ||| stage is Locating && event is PageFetched
    ||| stage is Located && event is ExistenceChecked
    ||| stage is Downloading && event is TransferFinished
}

/// The stage after `event` is reported for an entry in `stage`.
///
/// A fetched page leads to `Located` or ends the entry as `NotFound`; a
/// destination that exists ends it as `Skipped`, one that does not leads
/// to `Downloading`; a finished transfer ends it as `Downloaded` or
/// `Failed`. A report that the stage does not wait for changes nothing.
pub open spec fn next_stage(stage: StageView, event: EventView, base: Seq<char>) -> StageView {
    match (stage, event) {
        (StageView::Locating, EventView::PageFetched(fetch)) => match located(fetch, base) {
            LocatedView::Found(asset) => StageView::Located(asset),
            LocatedView::NotFound(cause) => StageView::Finished(Outcome::NotFound(cause)),
        },
        (StageView::Located(asset), EventView::ExistenceChecked(exists)) => match planned(exists) {
            DownloadPlan::Skip => StageView::Finished(Outcome::Skipped),
            DownloadPlan::Transfer => StageView::Downloading(asset),
        },
        (StageView::Downloading(_), EventView::TransferFinished(transfer)) => StageView::Finished(
            transfer_outcome(transfer),
        ),
        _ => stage,
    }
}

/// What the caller has to do for entry `entry` in `stage`: nothing before
/// it is started and after it has ended, else the one step that the stage
/// stands for.
pub open spec fn action_of(
    stage: StageView,
    entry: EntryView,
    base: Seq<char>,
    directory: Seq<char>,
) -> Option<ActionView> {
    match stage {
        StageView::Discovered => None,
        StageView::Locating => Some(
            ActionView::FetchPage { url: resolved(base, entry.relative_path) },
        ),
        StageView::Located(_) => Some(
            ActionView::CheckExists { path: destination(directory, entry) },
        ),
        StageView::Downloading(asset) => Some(
            ActionView::Download { url: asset, path: destination(directory, entry) },
        ),
        StageView::Finished(_) => None,
    }
}

/// The outcome of an entry whose page fetch, existence check and transfer
/// give these three results.
pub open spec fn entry_outcome(
    page: PageFetchView,
    exists: bool,
    transfer: Transfer,
    base: Seq<char>,
) -> Outcome {
    match located(page, base) {
        LocatedView::NotFound(cause) => Outcome::NotFound(cause),
        LocatedView::Found(_) => download_outcome(exists, transfer),
    }
}

/// Moves an entry on by one report.
pub fn advance(stage: &Stage, event: &Event, base_url: &str) -> (r: Stage)
    ensures
        r@ == next_stage(stage@, event@, base_url@),
{
    match (stage, event) {
        (Stage::Locating, Event::PageFetched(fetch)) => match locate(fetch, base_url) {
            Located::Found(asset) => Stage::Located(asset),
            Located::NotFound(cause) => Stage::Finished(Outcome::NotFound(cause)),
        },
        (Stage::Located(asset), Event::ExistenceChecked(exists)) => match plan(*exists) {
            DownloadPlan::Skip => Stage::Finished(Outcome::Skipped),
            DownloadPlan::Transfer => Stage::Downloading(asset.duplicate()),
        },
        (Stage::Downloading(_), Event::TransferFinished(transfer)) => Stage::Finished(
            conclude(*transfer),
        ),
        (Stage::Discovered, _) => Stage::Discovered,
        (Stage::Locating, _) => Stage::Locating,
        (Stage::Located(asset), _) => Stage::Located(asset.duplicate()),
        (Stage::Downloading(asset), _) => Stage::Downloading(asset.duplicate()),
        (Stage::Finished(outcome), _) => Stage::Finished(*outcome),
    }
}

/// Says what the caller has to do for `entry` in `stage`.
pub fn action_for(stage: &Stage, entry: &Entry, base_url: &str, directory: &str) -> (r: Option<
    Action,
>)
    ensures
        action_view(r) == action_of(stage@, entry@, base_url@, directory@),
{
    match stage {
        Stage::Discovered => None,
        Stage::Locating => Some(Action::FetchPage { url: entry.url(base_url) }),
        Stage::Located(_) => Some(
            Action::CheckExists { path: destination_path(directory, entry) },
        ),
        Stage::Downloading(asset) => Some(
            Action::Download {
                url: asset.absolute_url.clone(),
                path: destination_path(directory, entry),
            },
        ),
        Stage::Finished(_) => None,
    }
}

/// An entry that is started and receives the result of its page fetch, of
/// the existence check and of the transfer, in that order, ends in
/// [`entry_outcome`] of the three. Reports that come after the entry has
/// ended change nothing.
pub proof fn lemma_pipeline_outcome(
    page: PageFetchView,
    exists: bool,
    transfer: Transfer,
    base: Seq<char>,
)
    ensures
        next_stage(
            next_stage(
                next_stage(StageView::Locating, EventView::PageFetched(page), base),
                EventView::ExistenceChecked(exists),
                base,
            ),
            EventView::TransferFinished(transfer),
            base,
        ) == StageView::Finished(entry_outcome(page, exists, transfer, base)),
{
}

/// An image is transferred only after its destination was found not to
/// exist, so no file that exists is ever written over; and an entry whose
/// destination exists ends at once as `Skipped`, with nothing left to do
/// for it.
pub proof fn lemma_transfer_only_where_absent(
    stage: StageView,
    event: EventView,
    entry: EntryView,
    base: Seq<char>,
    directory: Seq<char>,
)
    requires
        awaits(stage, event),
    ensures
        next_stage(stage, event, base) is Downloading <==> stage is Located && event
            == EventView::ExistenceChecked(false),
        action_of(next_stage(stage, event, base), entry, base, directory) matches Some(
            ActionView::Download { .. },
        ) <==> stage is Located && event == EventView::ExistenceChecked(false),
        stage is Located && event == EventView::ExistenceChecked(true) ==> next_stage(
            stage,
            event,
            base,
        ) == StageView::Finished(Outcome::Skipped) && action_of(
            next_stage(stage, event, base),
            entry,
            base,
            directory,
        ) is None,
{
}

/// Every action that names a file names the entry's destination, which is
/// a function of the directory and the entry: it is the same in every
/// stage, in every run and under every budget.
pub proof fn lemma_actions_name_the_destination(
    stage: StageView,
    entry: EntryView,
    base: Seq<char>,
    directory: Seq<char>,
)
    ensures
        action_of(stage, entry, base, directory) matches Some(ActionView::CheckExists { path })
            ==> path == destination(directory, entry),
        action_of(stage, entry, base, directory) matches Some(
            ActionView::Download { path, .. },
        ) ==> path == destination(directory, entry),
{
}

/// A report moves an entry only where its stage waits for it, and then
/// forward: it has fewer steps before it than it had. No report moves an
/// entry back to `Discovered` or out of `Finished`.
pub proof fn lemma_next_stage_moves_forward(stage: StageView, event: EventView, base: Seq<char>)
    ensures
        !awaits(stage, event) ==> next_stage(stage, event, base) == stage,
        awaits(stage, event) ==> is_active(stage) && steps_left(next_stage(stage, event, base))
            < steps_left(stage),
        stage is Finished ==> next_stage(stage, event, base) == stage,
        next_stage(stage, event, base) is Discovered <==> stage is Discovered,
{
}

} // verus!
