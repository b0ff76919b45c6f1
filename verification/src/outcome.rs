//! How an entry can end, and the summary of a run.

use crate::counting::{count, lemma_count_permutation, lemma_count_split, one_if};
use crate::fetch::FetchFailure;
use vstd::prelude::*;

verus! {

/// Why no image was found for an entry.
#[derive(Clone, Copy, Debug, PartialEq, Eq, Structural)]
pub enum NotFoundCause {
    /// The entry page could not be fetched.
    FetchFailed(FetchFailure),
    /// The entry page was fetched and holds no image link.
    AssetMissing,
}

/// Why an image that was found could not be stored.
#[derive(Clone, Copy, Debug, PartialEq, Eq, Structural)]
pub enum FailureCause {
    /// The image could not be fetched.
    FetchFailed(FetchFailure),
    /// The image was fetched and could not be written to its destination.
    WriteFailed,
}

/// The state in which an entry ends.
#[derive(Clone, Copy, Debug, PartialEq, Eq, Structural)]
pub enum Outcome {
    /// The image was fetched and stored.
    Downloaded,
    /// The destination existed already; nothing was fetched.
    Skipped,
    /// No image was found for the entry.
    NotFound(NotFoundCause),
    /// The image was found and could not be stored.
    Failed(FailureCause),
}

/// The four counts of a run, as numbers without bound.
pub struct Tally {
    pub downloaded: nat,
    pub skipped: nat,
    pub not_found: nat,
    pub failed: nat,
}

/// The test for [`Outcome::Downloaded`].
pub open spec fn is_downloaded() -> spec_fn(Outcome) -> bool {
    |o: Outcome| o is Downloaded
}

/// The test for [`Outcome::Skipped`].
pub open spec fn is_skipped() -> spec_fn(Outcome) -> bool {
    |o: Outcome| o is Skipped
}

/// The test for [`Outcome::NotFound`].
pub open spec fn is_not_found() -> spec_fn(Outcome) -> bool {
    |o: Outcome| o is NotFound
}

/// The test for [`Outcome::Failed`].
pub open spec fn is_failed() -> spec_fn(Outcome) -> bool {
    |o: Outcome| o is Failed
}

/// The test for the two outcomes that leave an entry without its image:
/// [`Outcome::NotFound`] and [`Outcome::Failed`].
pub open spec fn is_unsuccessful() -> spec_fn(Outcome) -> bool {
    |o: Outcome| o is NotFound || o is Failed
}

/// How many of `outcomes` are of each kind.
pub open spec fn tally(outcomes: Seq<Outcome>) -> Tally {
    Tally {
        downloaded: count(outcomes, is_downloaded()),
        skipped: count(outcomes, is_skipped()),
        not_found: count(outcomes, is_not_found()),
        failed: count(outcomes, is_failed()),
    }
}

/// `t` with one more outcome counted.
pub open spec fn tally_with(t: Tally, outcome: Outcome) -> Tally {
    Tally {
        downloaded: (t.downloaded + one_if(outcome is Downloaded)) as nat,
        skipped: (t.skipped + one_if(outcome is Skipped)) as nat,
        not_found: (t.not_found + one_if(outcome is NotFound)) as nat,
        failed: (t.failed + one_if(outcome is Failed)) as nat,
    }
}

impl Tally {
    /// The number of outcomes counted.
    pub open spec fn total(self) -> nat {
        self.downloaded + self.skipped + self.not_found + self.failed
    }
}

/// The counts of a run: how many entries ended in each of the four ways.
#[derive(Clone, Copy, Debug, PartialEq, Eq, Structural)]
pub struct RunSummary {
    pub downloaded: usize,
    pub skipped: usize,
    pub not_found: usize,
    pub failed: usize,
}

impl View for RunSummary {
    type V = Tally;

    open spec fn view(&self) -> Tally {
        Tally {
            downloaded: self.downloaded as nat,
            skipped: self.skipped as nat,
            not_found: self.not_found as nat,
            failed: self.failed as nat,
        }
    }
}

impl RunSummary {
    /// The summary of a run without entries.
    pub fn new() -> (r: RunSummary)
        ensures
            r@ == tally(Seq::empty()),
    {
        RunSummary { downloaded: 0, skipped: 0, not_found: 0, failed: 0 }
    }

    /// Counts one more outcome.
    pub fn record(&mut self, outcome: Outcome)
        requires
            old(self)@.total() < usize::MAX,
        ensures
            final(self)@ == tally_with(old(self)@, outcome),
    {
        match outcome {
            Outcome::Downloaded => {
                self.downloaded = self.downloaded + 1;
            },
            Outcome::Skipped => {
                self.skipped = self.skipped + 1;
            },
            Outcome::NotFound(_) => {
                self.not_found = self.not_found + 1;
            },
            Outcome::Failed(_) => {
                self.failed = self.failed + 1;
            },
        }
    }

    /// The number of entries that reached an end. `None` where the sum
    /// does not fit the machine's word.
    pub fn total(&self) -> (r: Option<usize>)
        ensures
            r is Some <==> self@.total() <= usize::MAX,
            r matches Some(n) ==> n == self@.total(),
    {
        let a = match self.downloaded.checked_add(self.skipped) {
            Some(a) => a,
            None => {
                return None;
            },
        };
        let b = match a.checked_add(self.not_found) {
            Some(b) => b,
            None => {
                return None;
            },
        };
        b.checked_add(self.failed)
    }

    /// The number of entries that ended without their image: not found, or
    /// failed. `None` where the sum does not fit the machine's word.
    pub fn unsuccessful(&self) -> (r: Option<usize>)
        ensures
            r is Some <==> self@.not_found + self@.failed <= usize::MAX,
            r matches Some(n) ==> n == self@.not_found + self@.failed,
    {
        self.not_found.checked_add(self.failed)
    }
}

/// Counts the outcomes of a run.
pub fn summarize(outcomes: &Vec<Outcome>) -> (r: RunSummary)
    ensures
        r@ == tally(outcomes@),
{
    let mut summary = RunSummary::new();
    let mut i: usize = 0;
    while i < outcomes.len()
        invariant
            i <= outcomes.len(),
            summary@ == tally(outcomes@.take(i as int)),
        decreases outcomes.len() - i,
    {
        proof {
            lemma_tally_total(outcomes@.take(i as int));
            lemma_tally_push(outcomes@.take(i as int), outcomes@[i as int]);
            assert(outcomes@.take(i + 1) =~= outcomes@.take(i as int).push(outcomes@[i as int]));
        }
        summary.record(outcomes[i]);
        i += 1;
    }
    assert(outcomes@.take(outcomes.len() as int) =~= outcomes@);
    summary
}

/// Counting one more outcome is tallying the longer sequence.
pub proof fn lemma_tally_push(outcomes: Seq<Outcome>, outcome: Outcome)
    ensures
        tally(outcomes.push(outcome)) == tally_with(tally(outcomes), outcome),
{
    assert(outcomes.push(outcome).drop_last() =~= outcomes);
}

/// Every outcome is counted exactly once: the four counts add up to the
/// number of outcomes.
pub proof fn lemma_tally_total(outcomes: Seq<Outcome>)
    ensures
        tally(outcomes).total() == outcomes.len(),
    decreases outcomes.len(),
{
    if outcomes.len() > 0 {
        lemma_tally_total(outcomes.drop_last());
    }
}

/// The entries counted as not found and as failed are together exactly
/// those that ended without their image.
pub proof fn lemma_tally_unsuccessful(outcomes: Seq<Outcome>)
    ensures
        tally(outcomes).not_found + tally(outcomes).failed == count(outcomes, is_unsuccessful()),
{
    lemma_count_split(outcomes, is_unsuccessful(), is_not_found(), is_failed());
}

/// The summary does not depend on the order in which entries end: two
/// sequences that hold the same outcomes, each as often as the other, have
/// the same tally.
pub proof fn lemma_tally_order_independent(first: Seq<Outcome>, second: Seq<Outcome>)
    requires
        first.to_multiset() == second.to_multiset(),
    ensures
        tally(first) == tally(second),
{
    lemma_count_permutation(first, second, is_downloaded());
    lemma_count_permutation(first, second, is_skipped());
    lemma_count_permutation(first, second, is_not_found());
    lemma_count_permutation(first, second, is_failed());
}

} // verus!
