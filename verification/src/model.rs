//! A run as a whole, told in terms of what the network answers and which
//! files exist.
//!
//! The engine decides; its caller fetches and stores. This module closes
//! the circle on paper: it fixes what every fetch would answer and which
//! files exist at the start, lets the entries go through the pipeline one
//! after the other, and follows the set of files. Nothing here runs. The
//! outcome of each entry is [`entry_outcome`], the same function that the
//! engine's stages compute step by step, so what is proved of the model
//! is proved of the engine's decisions.
//!
//! A transfer that fails is taken to leave no file at its destination.

use crate::counting::{count, lemma_count_none, lemma_count_pointwise};
use crate::downloader::lemma_download_outcome;
use crate::fetch::{failure_of, page_status, PageFetchView, Transfer};
use crate::locator::{located, LocatedView};
use crate::naming::{destination, resolved, EntryView};
use crate::outcome::{
    is_downloaded, is_unsuccessful, lemma_tally_total, lemma_tally_unsuccessful, tally,
    NotFoundCause, Outcome,
};
use crate::pipeline::{action_of, entry_outcome, next_stage, ActionView, EventView, StageView};
use vstd::prelude::*;

verus! {

/// Where a run reads from and writes to.
pub struct Site {
    /// The location that entry paths and image links are read against.
    pub base: Seq<char>,
    /// The directory the images are stored in.
    pub directory: Seq<char>,
}

/// What the network answers during a run: the result of fetching each
/// page, by its location, and of fetching and storing each image, by its
/// location and destination. What is not listed is out of reach.
pub struct Network {
    pub pages: Map<Seq<char>, PageFetchView>,
    pub transfers: Map<(Seq<char>, Seq<char>), Transfer>,
}

/// What a run leaves: the outcome of each entry and the files that exist.
pub struct RunResult {
    pub outcomes: Seq<Outcome>,
    pub files: Set<Seq<char>>,
}

impl Network {
    /// The result of fetching the page at `url`.
    pub open spec fn page(self, url: Seq<char>) -> PageFetchView {
        if self.pages.dom().contains(url) {
            self.pages[url]
        } else {
            PageFetchView::Unreachable
        }
    }

    /// The result of fetching the image at `url` and storing it at `path`.
    pub open spec fn transfer(self, url: Seq<char>, path: Seq<char>) -> Transfer {
        if self.transfers.dom().contains((url, path)) {
            self.transfers[(url, path)]
        } else {
            Transfer::Unreachable
        }
    }
}

/// The page of entry `e` as the network gives it.
pub open spec fn page_of(net: Network, site: Site, e: EntryView) -> PageFetchView {
    net.page(resolved(site.base, e.relative_path))
}

/// The result of transferring the image of entry `e`, were it attempted.
pub open spec fn transfer_of(net: Network, site: Site, e: EntryView) -> Transfer {
    let url = match located(page_of(net, site, e), site.base) {
        LocatedView::Found(asset) => asset,
        LocatedView::NotFound(_) => Seq::empty(),
    };
    net.transfer(url, destination(site.directory, e))
}

/// The outcome of entry `e` when the files `files` exist.
pub open spec fn outcome_in(net: Network, site: Site, files: Set<Seq<char>>, e: EntryView) -> Outcome {
    entry_outcome(
        page_of(net, site, e),
        files.contains(destination(site.directory, e)),
        transfer_of(net, site, e),
        site.base,
    )
}

/// Whether the image of `e` can be had: its outcome is `Downloaded` where
/// the destination does not exist yet.
pub open spec fn obtainable(net: Network, site: Site, e: EntryView) -> bool {
    entry_outcome(page_of(net, site, e), false, transfer_of(net, site, e), site.base) is Downloaded
}

/// The files that exist after entry `e` ended in `outcome`: a download
/// adds the entry's destination, and no other outcome changes anything.
pub open spec fn files_after(files: Set<Seq<char>>, site: Site, e: EntryView, outcome: Outcome) -> Set<
    Seq<char>,
> {
    if outcome is Downloaded {
        files.insert(destination(site.directory, e))
    } else {
        files
    }
}

/// The run over `entries`, one after the other, that starts with the files
/// `files`.
pub open spec fn run(net: Network, site: Site, files: Set<Seq<char>>, entries: Seq<EntryView>) -> RunResult
    decreases entries.len(),
{
    if entries.len() == 0 {
        RunResult { outcomes: Seq::empty(), files }
    } else {
        let before = run(net, site, files, entries.drop_last());
        let outcome = outcome_in(net, site, before.files, entries.last());
        RunResult {
            outcomes: before.outcomes.push(outcome),
            files: files_after(before.files, site, entries.last(), outcome),
        }
    }
}

/// The destinations of the entries whose image can be had.
pub open spec fn obtainable_files(net: Network, site: Site, entries: Seq<EntryView>) -> Set<Seq<char>>
    decreases entries.len(),
{
    if entries.len() == 0 {
        Set::empty()
    } else {
        let before = obtainable_files(net, site, entries.drop_last());
        if obtainable(net, site, entries.last()) {
            before.insert(destination(site.directory, entries.last()))
        } else {
            before
        }
    }
}

/// The destination of an entry whose image can be had is among the
/// obtainable files.
pub proof fn lemma_obtainable_member(net: Network, site: Site, entries: Seq<EntryView>, i: int)
    requires
        0 <= i < entries.len(),
        obtainable(net, site, entries[i]),
    ensures
        obtainable_files(net, site, entries).contains(destination(site.directory, entries[i])),
    decreases entries.len(),
{
    if i < entries.len() - 1 {
        lemma_obtainable_member(net, site, entries.drop_last(), i);
    }
}

/// Every obtainable file is the destination of an entry whose image can
/// be had. Returns the index of such an entry.
pub proof fn lemma_obtainable_witness(
    net: Network,
    site: Site,
    entries: Seq<EntryView>,
    path: Seq<char>,
) -> (i: int)
    requires
        obtainable_files(net, site, entries).contains(path),
    ensures
        0 <= i < entries.len(),
        obtainable(net, site, entries[i]),
        destination(site.directory, entries[i]) == path,
    decreases entries.len(),
{
    if entries.len() == 0 {
        0
    } else if obtainable(net, site, entries.last()) && destination(site.directory, entries.last())
        == path {
        entries.len() - 1
    } else {
        lemma_obtainable_witness(net, site, entries.drop_last(), path)
    }
}

/// The model and the engine agree. An entry that is started and is told
/// what the network and the disk of the model answer goes through the
/// engine's stages to the outcome that the model gives it; the page it
/// asks for, the file it looks for and the transfer it asks for are the
/// ones the model reads.
pub proof fn lemma_engine_follows_model(
    net: Network,
    site: Site,
    files: Set<Seq<char>>,
    e: EntryView,
)
    ensures
        ({
            let path = destination(site.directory, e);
            let located = next_stage(
                StageView::Locating,
                EventView::PageFetched(page_of(net, site, e)),
                site.base,
            );
            let checked = next_stage(
                located,
                EventView::ExistenceChecked(files.contains(path)),
                site.base,
            );
            let ended = next_stage(
                checked,
                EventView::TransferFinished(transfer_of(net, site, e)),
                site.base,
            );
            &&& action_of(StageView::Locating, e, site.base, site.directory) == Some(
                ActionView::FetchPage { url: resolved(site.base, e.relative_path) },
            )
            &&& located is Located ==> action_of(located, e, site.base, site.directory) == Some(
                ActionView::CheckExists { path },
            )
            &&& action_of(checked, e, site.base, site.directory) matches Some(
                ActionView::Download { url, path: target },
            ) ==> target == path && net.transfer(url, target) == transfer_of(net, site, e)
            &&& ended == StageView::Finished(outcome_in(net, site, files, e))
        }),
{
}

/// A run gives every entry an outcome, and the files it leaves are those it
/// started with and the destinations of the entries whose image can be had.
pub proof fn lemma_run_files(net: Network, site: Site, files: Set<Seq<char>>, entries: Seq<EntryView>)
    ensures
        run(net, site, files, entries).outcomes.len() == entries.len(),
        run(net, site, files, entries).files == files.union(
            obtainable_files(net, site, entries),
        ),
    decreases entries.len(),
{
    if entries.len() == 0 {
    } else {
        let front = entries.drop_last();
        let last = entries.last();
        lemma_run_files(net, site, files, front);
        let before = run(net, site, files, front);
        let path = destination(site.directory, last);
        lemma_download_outcome(before.files.contains(path), transfer_of(net, site, last));
        assert(run(net, site, files, entries).files =~= files.union(
            obtainable_files(net, site, entries),
        ));
    }
}

/// The outcome of entry `i` in a run is its outcome among the files that
/// the entries before it left.
pub proof fn lemma_run_outcome(
    net: Network,
    site: Site,
    files: Set<Seq<char>>,
    entries: Seq<EntryView>,
    i: int,
)
    requires
        0 <= i < entries.len(),
    ensures
        run(net, site, files, entries).outcomes.len() == entries.len(),
        run(net, site, files, entries).outcomes[i] == outcome_in(
            net,
            site,
            run(net, site, files, entries.take(i)).files,
            entries[i],
        ),
    decreases entries.len(),
{
    lemma_run_files(net, site, files, entries);
    let front = entries.drop_last();
    lemma_run_files(net, site, files, front);
    if i == entries.len() - 1 {
    } else {
        lemma_run_outcome(net, site, files, front, i);
        assert(front.take(i) =~= entries.take(i));
    }
}

/// Idempotence: a second run over the same entries, against the same
/// network and the files that the first run left, downloads nothing. It
/// leaves the files as they are, and every entry that the first run
/// downloaded or skipped is skipped.
pub proof fn lemma_second_run_downloads_nothing(
    net: Network,
    site: Site,
    files: Set<Seq<char>>,
    entries: Seq<EntryView>,
)
    ensures
        ({
            let first = run(net, site, files, entries);
            let second = run(net, site, first.files, entries);
            &&& second.outcomes.len() == entries.len()
            &&& first.outcomes.len() == entries.len()
            &&& second.files == first.files
            &&& tally(second.outcomes).downloaded == 0
            &&& forall|i: int|
                0 <= i < entries.len() ==> !((#[trigger] second.outcomes[i]) is Downloaded)
            &&& forall|i: int|
                0 <= i < entries.len() && (first.outcomes[i] is Downloaded
                    || first.outcomes[i] is Skipped) ==> (#[trigger] second.outcomes[i]) is Skipped
        }),
{
    let first = run(net, site, files, entries);
    let second = run(net, site, first.files, entries);
    lemma_run_files(net, site, files, entries);
    lemma_run_files(net, site, first.files, entries);
    assert forall|i: int| 0 <= i < entries.len() implies !((#[trigger] second.outcomes[i])
        is Downloaded) && ((first.outcomes[i] is Downloaded || first.outcomes[i] is Skipped)
        ==> second.outcomes[i] is Skipped) by {
        let e = entries[i];
        let path = destination(site.directory, e);
        lemma_run_outcome(net, site, files, entries, i);
        lemma_run_outcome(net, site, first.files, entries, i);
        lemma_run_files(net, site, files, entries.take(i));
        lemma_run_files(net, site, first.files, entries.take(i));
        let seen_first = run(net, site, files, entries.take(i)).files;
        let seen_second = run(net, site, first.files, entries.take(i)).files;
        lemma_download_outcome(seen_first.contains(path), transfer_of(net, site, e));
        lemma_download_outcome(seen_second.contains(path), transfer_of(net, site, e));
        lemma_download_outcome(false, transfer_of(net, site, e));
        if obtainable(net, site, e) {
            lemma_obtainable_member(net, site, entries, i);
        }
        if seen_first.contains(path) && !files.contains(path) {
            let j = lemma_obtainable_witness(net, site, entries.take(i), path);
            lemma_obtainable_member(net, site, entries, j);
        }
    }
    lemma_count_none(second.outcomes, is_downloaded());
}

/// Order independence: two runs over the same entries in another order,
/// against the same network and starting with the same files, leave the
/// same set of files.
pub proof fn lemma_files_do_not_depend_on_order(
    net: Network,
    site: Site,
    files: Set<Seq<char>>,
    first: Seq<EntryView>,
    second: Seq<EntryView>,
)
    requires
        first.to_multiset() == second.to_multiset(),
    ensures
        run(net, site, files, first).files == run(net, site, files, second).files,
{
    lemma_run_files(net, site, files, first);
    lemma_run_files(net, site, files, second);
    lemma_obtainable_subset(net, site, first, second);
    lemma_obtainable_subset(net, site, second, first);
}

/// Where every entry of `first` occurs in `second`, the obtainable files of
/// `first` are among those of `second`.
pub proof fn lemma_obtainable_subset(
    net: Network,
    site: Site,
    first: Seq<EntryView>,
    second: Seq<EntryView>,
)
    requires
        first.to_multiset() == second.to_multiset(),
    ensures
        obtainable_files(net, site, first).subset_of(obtainable_files(net, site, second)),
{
    broadcast use vstd::seq_lib::group_to_multiset_ensures;

    first.to_multiset_ensures();
    second.to_multiset_ensures();
    assert forall|path: Seq<char>| obtainable_files(net, site, first).contains(path) implies obtainable_files(
        net,
        site,
        second,
    ).contains(path) by {
        let i = lemma_obtainable_witness(net, site, first, path);
        assert(first.to_multiset().count(first[i]) > 0);
        let j = choose|j: int| 0 <= j < second.len() && second[j] == first[i];
        lemma_obtainable_member(net, site, second, j);
    }
}

/// The test for the entries whose image cannot be had: the page cannot be
/// fetched, or shows no image, or the image cannot be fetched and stored.
pub open spec fn unobtainable(net: Network, site: Site) -> spec_fn(EntryView) -> bool {
    |e: EntryView| !obtainable(net, site, e)
}

/// Whether no entry of the run finds a file at its destination that it
/// could not have put there itself: wherever an entry's page shows an
/// image that cannot be transferred, the destination does not exist when
/// the entry's turn comes. A run into a directory that holds none of the
/// destinations, over entries with destinations of their own, is of this
/// kind.
pub open spec fn no_stale_files(
    net: Network,
    site: Site,
    files: Set<Seq<char>>,
    entries: Seq<EntryView>,
) -> bool {
    forall|i: int|
        0 <= i < entries.len() && !obtainable(net, site, #[trigger] entries[i]) && located(
            page_of(net, site, entries[i]),
            site.base,
        ) is Found ==> !run(net, site, files, entries.take(i)).files.contains(
            destination(site.directory, entries[i]),
        )
}

/// Completeness under partial failure: every entry of a run gets its
/// outcome, whatever becomes of the others. Where no stale file hides a
/// failure, the entries that end as `NotFound` or `Failed` are exactly
/// those whose image cannot be had, so a run over `m` entries of which `k`
/// cannot be had counts `k` as not found or failed and `m - k` as
/// downloaded or skipped.
pub proof fn lemma_failures_are_counted(
    net: Network,
    site: Site,
    files: Set<Seq<char>>,
    entries: Seq<EntryView>,
)
    requires
        no_stale_files(net, site, files, entries),
    ensures
        ({
            let outcomes = run(net, site, files, entries).outcomes;
            let k = count(entries, unobtainable(net, site));
            &&& outcomes.len() == entries.len()
            &&& forall|i: int|
                0 <= i < entries.len() ==> (is_unsuccessful()(#[trigger] outcomes[i])
                    <==> !obtainable(net, site, entries[i]))
            &&& tally(outcomes).not_found + tally(outcomes).failed == k
            &&& tally(outcomes).downloaded + tally(outcomes).skipped == entries.len() - k
        }),
{
    let outcomes = run(net, site, files, entries).outcomes;
    lemma_run_files(net, site, files, entries);
    assert forall|i: int| 0 <= i < entries.len() implies (is_unsuccessful()(
        #[trigger] outcomes[i],
    ) <==> unobtainable(net, site)(entries[i])) by {
        let e = entries[i];
        let seen = run(net, site, files, entries.take(i)).files;
        lemma_run_outcome(net, site, files, entries, i);
        lemma_download_outcome(
            seen.contains(destination(site.directory, e)),
            transfer_of(net, site, e),
        );
        lemma_download_outcome(false, transfer_of(net, site, e));
    }
    lemma_count_pointwise(outcomes, entries, is_unsuccessful(), unobtainable(net, site));
    lemma_tally_unsuccessful(outcomes);
    lemma_tally_total(outcomes);
}

/// A run into a directory that holds none of the destinations, over
/// entries no two of which share a destination, meets no stale file.
pub proof fn lemma_fresh_run_has_no_stale_files(
    net: Network,
    site: Site,
    files: Set<Seq<char>>,
    entries: Seq<EntryView>,
)
    requires
        forall|i: int|
            0 <= i < entries.len() ==> !files.contains(
                destination(site.directory, #[trigger] entries[i]),
            ),
        forall|j: int, k: int|
            0 <= j < k < entries.len() ==> destination(site.directory, #[trigger] entries[j])
                != destination(site.directory, #[trigger] entries[k]),
    ensures
        no_stale_files(net, site, files, entries),
{
    assert forall|i: int| 0 <= i < entries.len() implies !run(
        net,
        site,
        files,
        entries.take(i),
    ).files.contains(destination(site.directory, #[trigger] entries[i])) by {
        let path = destination(site.directory, entries[i]);
        lemma_run_files(net, site, files, entries.take(i));
        if obtainable_files(net, site, entries.take(i)).contains(path) {
            let j = lemma_obtainable_witness(net, site, entries.take(i), path);
            assert(destination(site.directory, entries[j]) != destination(
                site.directory,
                entries[i],
            ));
        }
    }
}

/// A failure stays with its entry: an entry whose page cannot be fetched
/// ends as `NotFound` with the failure as its cause, whatever files exist
/// and whatever became of the entries before it.
pub proof fn lemma_unreachable_page_is_not_found(
    net: Network,
    site: Site,
    files: Set<Seq<char>>,
    e: EntryView,
)
    requires
        failure_of(page_status(page_of(net, site, e))) is Some,
    ensures
        outcome_in(net, site, files, e) == Outcome::NotFound(
            NotFoundCause::FetchFailed(failure_of(page_status(page_of(net, site, e)))->0),
        ),
{
}

/// Entries do not get in each other's way: where no two entries of a run
/// share a destination, the outcome of each is what it would be if it were
/// the only entry.
pub proof fn lemma_entries_are_independent(
    net: Network,
    site: Site,
    files: Set<Seq<char>>,
    entries: Seq<EntryView>,
    i: int,
)
    requires
        0 <= i < entries.len(),
        forall|j: int, k: int|
            0 <= j < k < entries.len() ==> destination(site.directory, #[trigger] entries[j])
                != destination(site.directory, #[trigger] entries[k]),
    ensures
        run(net, site, files, entries).outcomes[i] == outcome_in(net, site, files, entries[i]),
{
    let path = destination(site.directory, entries[i]);
    lemma_run_outcome(net, site, files, entries, i);
    lemma_run_files(net, site, files, entries.take(i));
    let seen = run(net, site, files, entries.take(i)).files;
    if seen.contains(path) && !files.contains(path) {
        let j = lemma_obtainable_witness(net, site, entries.take(i), path);
        assert(destination(site.directory, entries[j]) != destination(
            site.directory,
            entries[i],
        ));
    }
}

} // verus!
