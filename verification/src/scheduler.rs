//! The crawl scheduler: every entry of one index, under one budget.
//!
//! A [`Crawl`] holds the entries found on the index and the stage of each.
//! Its caller asks it which entry to start next, carries out the action it
//! is given, and reports the result; the crawl moves the entry on and says
//! what to do next. The crawl itself never waits and never fails: an entry
//! that cannot be located or stored ends as `NotFound` or `Failed` and the
//! others go on. Every start and every report that is waited for takes
//! away from the work that is left, so a run whose requests are answered
//! comes to its end.

use crate::counting::{
    count, lemma_count_all, lemma_count_bound, lemma_count_full, lemma_count_none,
    lemma_count_push, lemma_count_update, lemma_count_zero, one_if,
};
use crate::fetch::{classify, failure_of, page_status, FetchFailure, PageFetch, PageFetchView};
use crate::governor::{ConcurrencyBudget, Governor};
use crate::matcher::{
    anchor_selector, index_pattern, index_rule, link_views, match_links, matching_links,
    target_attribute, Link, LinkView,
};
use crate::naming::{entry_views, resolved, Entry, EntryView};
use crate::outcome::{
    is_downloaded, is_failed, is_not_found, is_skipped, is_unsuccessful, lemma_tally_total,
    lemma_tally_unsuccessful, tally, tally_with, Outcome, RunSummary, Tally,
};
use crate::pipeline::{
    action_for, action_of, action_view, advance, awaits, is_active, next_stage, steps_left,
    Action, ActionView, Event, Stage, StageView,
};
use vstd::prelude::*;

verus! {

/// Why a run could not begin.
#[derive(Clone, Copy, Debug, PartialEq, Eq, Structural)]
pub enum CrawlError {
    /// The index page could not be fetched, so there are no entries.
    IndexFetchFailed(FetchFailure),
}

/// The entry that a link of the index stands for: the link's target is
/// the entry's path and the link's text its title.
pub open spec fn entry_of(link: LinkView) -> EntryView {
    EntryView { relative_path: link.target, title: link.text }
}

/// The entries that the links of an index stand for, in order.
pub open spec fn entries_of(links: Seq<LinkView>) -> Seq<EntryView> {
    links.map_values(|l: LinkView| entry_of(l))
}

/// The entries of the index page with this body, in the order in which
/// the link matcher gives them.
pub open spec fn index_entries(body: Seq<char>) -> Seq<EntryView> {
    entries_of(matching_links(body, anchor_selector(), target_attribute(), index_pattern()))
}

/// The views of a sequence of stages.
pub open spec fn stage_views(stages: Seq<Stage>) -> Seq<StageView> {
    stages.map_values(|s: Stage| s@)
}

/// The test for the stages that occupy a place in the budget.
pub open spec fn active() -> spec_fn(StageView) -> bool {
    |s: StageView| is_active(s)
}

/// The test for the stage `Finished`.
pub open spec fn has_finished() -> spec_fn(StageView) -> bool {
    |s: StageView| s is Finished
}

/// The test for the stages that are `Finished` with an outcome that passes
/// `test`.
pub open spec fn ends_as(test: spec_fn(Outcome) -> bool) -> spec_fn(StageView) -> bool {
    |s: StageView| s matches StageView::Finished(o) && test(o)
}

/// The outcomes of the entries that have ended, in the order of the
/// entries.
pub open spec fn ended(stages: Seq<StageView>) -> Seq<Outcome>
    decreases stages.len(),
{
    if stages.len() == 0 {
        Seq::empty()
    } else {
        let before = ended(stages.drop_last());
        match stages.last() {
            StageView::Finished(outcome) => before.push(outcome),
            _ => before,
        }
    }
}

/// The most steps that a run with these stages has before it: the steps of
/// all its entries together.
pub open spec fn work_left(stages: Seq<StageView>) -> nat
    decreases stages.len(),
{
    if stages.len() == 0 {
        0
    } else {
        work_left(stages.drop_last()) + steps_left(stages.last())
    }
}

/// Turns the links of an index into entries.
pub fn entries_from_links(links: Vec<Link>) -> (r: Vec<Entry>)
    ensures
        entry_views(r@) == entries_of(link_views(links@)),
{
    let mut out: Vec<Entry> = Vec::new();
    let mut i: usize = 0;
    while i < links.len()
        invariant
            i <= links.len(),
            out@.len() == i,
            forall|j: int| 0 <= j < i ==> (#[trigger] out@[j])@ == entry_of(links@[j]@),
        decreases links.len() - i,
    {
        out.push(Entry { relative_path: links[i].target.clone(), title: links[i].text.clone() });
        i += 1;
    }
    out
}

/// Reads the entries off a fetched index page.
///
/// Without the index there is nothing to do: a fetch without response, or
/// with a status outside 200 to 299, is `IndexFetchFailed` with the
/// failure. Otherwise the result is the entries of the body, in the order
/// in which the link matcher gives them, and it may be empty.
pub fn discover(index: &PageFetch) -> (r: Result<Vec<Entry>, CrawlError>)
    ensures
        match failure_of(page_status(index@)) {
            Some(failure) => r == Err::<Vec<Entry>, CrawlError>(
                CrawlError::IndexFetchFailed(failure),
            ),
            None => r matches Ok(entries) && index@ matches PageFetchView::Response { body, .. }
                && entry_views(entries@) == index_entries(body),
        },
{
    match index {
        PageFetch::Unreachable => Err(CrawlError::IndexFetchFailed(FetchFailure::Transport)),
        PageFetch::Response { status, body } => match classify(Some(*status)) {
            Some(failure) => Err(CrawlError::IndexFetchFailed(failure)),
            None => {
                let rule = index_rule();
                let links = match_links(body.as_str(), &rule);
                Ok(entries_from_links(links))
            },
        },
    }
}

/// One run over the entries of one index.
pub struct Crawl {
    base_url: String,
    directory: String,
    entries: Vec<Entry>,
    stages: Vec<Stage>,
    governor: Governor,
    summary: RunSummary,
}

impl Crawl {
    /// The location that entry paths and image links are read against.
    pub closed spec fn base(self) -> Seq<char> {
        self.base_url@
    }

    /// The directory the images are stored in.
    pub closed spec fn directory(self) -> Seq<char> {
        self.directory@
    }

    /// The entries of the run, in the order of the index.
    pub closed spec fn entries(self) -> Seq<EntryView> {
        entry_views(self.entries@)
    }

    /// The stage of each entry.
    pub closed spec fn stages(self) -> Seq<StageView> {
        stage_views(self.stages@)
    }

    /// The most entries that may be in flight at once.
    pub closed spec fn budget(self) -> nat {
        self.governor.budget()
    }

    /// The number of entries started so far.
    pub closed spec fn started(self) -> nat {
        self.governor.admitted()
    }

    /// The counts kept by the run.
    pub closed spec fn counts(self) -> Tally {
        self.summary@
    }

    /// The number of entries in flight: started and not yet ended.
    pub open spec fn in_flight(self) -> nat {
        count(self.stages(), active())
    }

    /// Whether another entry can be started now: one is waiting and the
    /// budget has a free place.
    pub open spec fn can_start(self) -> bool {
        self.started() < self.entries().len() && self.in_flight() < self.budget()
    }

    /// Whether every entry has ended.
    pub open spec fn is_complete(self) -> bool {
        forall|i: int| 0 <= i < self.stages().len() ==> (#[trigger] self.stages()[i]) is Finished
    }

    /// What ties the governor's counters to the stages.
    pub closed spec fn counters_agree(self) -> bool {
        &&& self.governor.wf()
        &&& self.governor.total() == self.stages@.len()
        &&& self.governor.in_flight() == count(self.stages(), active())
        &&& self.governor.released() == count(self.stages(), has_finished())
        &&& self.summary@.downloaded == count(self.stages(), ends_as(is_downloaded()))
        &&& self.summary@.skipped == count(self.stages(), ends_as(is_skipped()))
        &&& self.summary@.not_found == count(self.stages(), ends_as(is_not_found()))
        &&& self.summary@.failed == count(self.stages(), ends_as(is_failed()))
    }

    /// The run's invariant.
    ///
    /// Every entry has a stage. The entries started are exactly those
    /// before `started()`, so entries start in the order of the index and
    /// none is passed over. The entries in flight are within the budget,
    /// and the counts are the tally of the entries that have ended.
    pub open spec fn wf(self) -> bool {
        &&& self.stages().len() == self.entries().len()
        &&& self.budget() >= 1
        &&& self.started() <= self.entries().len()
        &&& forall|i: int|
            0 <= i < self.stages().len() ==> ((#[trigger] self.stages()[i]) is Discovered <==> i
                >= self.started())
        &&& self.in_flight() <= self.budget()
        &&& self.counts() == tally(ended(self.stages()))
        &&& self.counters_agree()
    }

    /// A run over `entries` in which nothing has been started yet.
    pub fn new(entries: Vec<Entry>, base_url: &str, directory: &str, budget: ConcurrencyBudget) -> (r:
        Crawl)
        ensures
            r.wf(),
            r.entries() == entry_views(entries@),
            r.base() == base_url@,
            r.directory() == directory@,
            r.budget() == budget.value(),
            r.started() == 0,
            r.stages() == Seq::new(entries@.len(), |i: int| StageView::Discovered),
            r.in_flight() == 0,
    {
        let mut stages: Vec<Stage> = Vec::new();
        let mut i: usize = 0;
        while i < entries.len()
            invariant
                i <= entries.len(),
                stages@.len() == i,
                forall|j: int| 0 <= j < i ==> (#[trigger] stages@[j])@ is Discovered,
            decreases entries.len() - i,
        {
            stages.push(Stage::Discovered);
            i += 1;
        }
        let governor = Governor::new(budget, entries.len());
        let crawl = Crawl {
            base_url: base_url.to_owned(),
            directory: directory.to_owned(),
            entries,
            stages,
            governor,
            summary: RunSummary::new(),
        };
        proof {
            let views = crawl.stages();
            lemma_count_none(views, active());
            lemma_count_none(views, has_finished());
            lemma_count_none(views, ends_as(is_downloaded()));
            lemma_count_none(views, ends_as(is_skipped()));
            lemma_count_none(views, ends_as(is_not_found()));
            lemma_count_none(views, ends_as(is_failed()));
            lemma_ended_counts(views);
        }
        crawl
    }

    /// Starts the next entry if one is waiting and the budget has a free
    /// place, and returns its index with the action to carry out for it.
    ///
    /// Entries are started in the order of the index. When the budget is
    /// used up the entry is not dropped: nothing changes, and a later call
    /// starts it.
    pub fn start_next(&mut self) -> (r: Option<(usize, Action)>)
        requires
            old(self).wf(),
        ensures
            final(self).wf(),
            final(self).entries() == old(self).entries(),
            final(self).base() == old(self).base(),
            final(self).directory() == old(self).directory(),
            final(self).budget() == old(self).budget(),
            final(self).counts() == old(self).counts(),
            r is Some <==> old(self).can_start(),
            r matches Some((index, action)) ==> {
                &&& index == old(self).started()
                &&& final(self).started() == old(self).started() + 1
                &&& final(self).stages() == old(self).stages().update(
                    index as int,
                    StageView::Locating,
                )
                &&& final(self).in_flight() == old(self).in_flight() + 1
                &&& work_left(final(self).stages()) == work_left(old(self).stages()) - 1
                &&& action@ == ActionView::FetchPage {
                    url: resolved(
                        old(self).base(),
                        old(self).entries()[index as int].relative_path,
                    ),
                }
            },
            r is None ==> final(self).started() == old(self).started() && final(self).stages()
                == old(self).stages(),
    {
        let ghost before = self.stages();
        match self.governor.admit_next() {
            None => None,
            Some(index) => {
                self.stages.set(index, Stage::Locating);
                proof {
                    assert(self.stages() =~= before.update(index as int, StageView::Locating));
                    lemma_counts_after_update(before, index as int, StageView::Locating);
                    lemma_work_after_update(before, index as int, StageView::Locating);
                }
                let url = self.entries[index].url(self.base_url.as_str());
                Some((index, Action::FetchPage { url }))
            },
        }
    }

    /// Takes the report `event` for entry `index` and returns the next
    /// action for that entry, if there is one.
    ///
    /// The entry moves as [`next_stage`] says and no other entry is
    /// touched. Where the entry does not wait for this report, or `index`
    /// names no entry, nothing changes and no action is returned. An
    /// entry that ends gives its place in the budget back and is counted.
    pub fn handle(&mut self, index: usize, event: &Event) -> (r: Option<Action>)
        requires
            old(self).wf(),
        ensures
            final(self).wf(),
            final(self).entries() == old(self).entries(),
            final(self).base() == old(self).base(),
            final(self).directory() == old(self).directory(),
            final(self).budget() == old(self).budget(),
            final(self).started() == old(self).started(),
            index >= old(self).stages().len() ==> final(self).stages() == old(self).stages() && r is None,
            index < old(self).stages().len() ==> {
                let stage = old(self).stages()[index as int];
                let next = next_stage(stage, event@, old(self).base());
                &&& final(self).stages() == old(self).stages().update(index as int, next)
                &&& action_view(r) == if awaits(stage, event@) {
                    action_of(
                        next,
                        old(self).entries()[index as int],
                        old(self).base(),
                        old(self).directory(),
                    )
                } else {
                    None
                }
                &&& final(self).in_flight() == old(self).in_flight() - one_if(
                    is_active(stage) && next is Finished,
                )
                &&& work_left(final(self).stages()) == work_left(old(self).stages()) - steps_left(
                    stage,
                ) + steps_left(next)
                &&& awaits(stage, event@) ==> work_left(final(self).stages()) < work_left(
                    old(self).stages(),
                )
            },
    {
        if index >= self.stages.len() {
            return None;
        }
        let ghost before = self.stages();
        let awaited = match (&self.stages[index], event) {
            (Stage::Locating, Event::PageFetched(_)) => true,
            (Stage::Located(_), Event::ExistenceChecked(_)) => true,
            (Stage::Downloading(_), Event::TransferFinished(_)) => true,
            _ => false,
        };
        if !awaited {
            proof {
                lemma_work_after_update(before, index as int, before[index as int]);
            }
            return None;
        }
        let next = advance(&self.stages[index], event, self.base_url.as_str());
        let ghost next_view = next@;
        let action = action_for(
            &next,
            &self.entries[index],
            self.base_url.as_str(),
            self.directory.as_str(),
        );
        let ended_as = match &next {
            Stage::Finished(outcome) => Some(*outcome),
            _ => None,
        };
        proof {
            lemma_counts_after_update(before, index as int, next_view);
            lemma_work_after_update(before, index as int, next_view);
            lemma_tally_total(ended(before));
            lemma_ended_length(before);
            lemma_count_bound(before, has_finished());
        }
        self.stages.set(index, next);
        assert(self.stages() =~= before.update(index as int, next_view));
        if let Some(outcome) = ended_as {
            self.governor.release();
            self.summary.record(outcome);
        }
        action
    }

    /// The number of entries of the run.
    pub fn len(&self) -> (r: usize)
        ensures
            r == self.entries().len(),
    {
        self.entries.len()
    }

    /// The most entries that may be in flight at once.
    pub fn limit(&self) -> (r: usize)
        ensures
            r == self.budget(),
    {
        self.governor.limit()
    }

    /// The number of entries started so far.
    pub fn started_count(&self) -> (r: usize)
        ensures
            r == self.started(),
    {
        self.governor.admitted_count()
    }

    /// The number of entries in flight.
    pub fn in_flight_count(&self) -> (r: usize)
        requires
            self.wf(),
        ensures
            r == self.in_flight(),
            r <= self.budget(),
    {
        self.governor.in_flight_count()
    }

    /// Tells whether every entry has ended. Then nothing is in flight and
    /// nothing is left to start.
    pub fn finished(&self) -> (r: bool)
        requires
            self.wf(),
        ensures
            r == self.is_complete(),
            r ==> self.in_flight() == 0 && !self.can_start(),
    {
        let drained = self.governor.drained();
        proof {
            let stages = self.stages();
            lemma_count_bound(stages, has_finished());
            if drained {
                lemma_count_full(stages, has_finished());
                lemma_complete_run(*self);
            } else if self.is_complete() {
                lemma_count_all(stages, has_finished());
            }
        }
        drained
    }

    /// The counts of the run so far: one for every entry that has ended,
    /// under the kind of its outcome.
    pub fn summary(&self) -> (r: RunSummary)
        requires
            self.wf(),
        ensures
            r@ == tally(ended(self.stages())),
    {
        self.summary
    }

    /// The outcome of entry `index`: `None` while it has not ended, and
    /// where `index` names no entry.
    pub fn outcome_of(&self, index: usize) -> (r: Option<Outcome>)
        ensures
            r == if index < self.stages().len() {
                match self.stages()[index as int] {
                    StageView::Finished(outcome) => Some(outcome),
                    _ => None,
                }
            } else {
                None
            },
    {
        if index < self.stages.len() {
            match &self.stages[index] {
                Stage::Finished(outcome) => Some(*outcome),
                _ => None,
            }
        } else {
            None
        }
    }
}

/// Begins a run from a fetched index page.
///
/// A failed index fetch ends the run before it starts, with no entry
/// touched. Otherwise the run holds the entries of the index, none of
/// them started.
pub fn begin(index: &PageFetch, base_url: &str, directory: &str, budget: ConcurrencyBudget) -> (r:
    Result<Crawl, CrawlError>)
    ensures
        match failure_of(page_status(index@)) {
            Some(failure) => r matches Err(error) && error == CrawlError::IndexFetchFailed(failure),
            None => r matches Ok(crawl) && index@ matches PageFetchView::Response { body, .. } && {
                &&& crawl.wf()
                &&& crawl.entries() == index_entries(body)
                &&& crawl.base() == base_url@
                &&& crawl.directory() == directory@
                &&& crawl.budget() == budget.value()
                &&& crawl.started() == 0
                &&& crawl.in_flight() == 0
            },
        },
{
    match discover(index) {
        Err(error) => Err(error),
        Ok(entries) => Ok(Crawl::new(entries, base_url, directory, budget)),
    }
}

/// The outcomes of the entries that have ended are counted kind by kind
/// like the stages they come from.
pub proof fn lemma_ended_count(stages: Seq<StageView>, test: spec_fn(Outcome) -> bool)
    ensures
        count(ended(stages), test) == count(stages, ends_as(test)),
    decreases stages.len(),
{
    if stages.len() > 0 {
        lemma_ended_count(stages.drop_last(), test);
        match stages.last() {
            StageView::Finished(outcome) => {
                lemma_count_push(ended(stages.drop_last()), outcome, test);
            },
            _ => {},
        }
    }
}

/// The tally of the ended entries, read off the stages.
pub proof fn lemma_ended_counts(stages: Seq<StageView>)
    ensures
        tally(ended(stages)).downloaded == count(stages, ends_as(is_downloaded())),
        tally(ended(stages)).skipped == count(stages, ends_as(is_skipped())),
        tally(ended(stages)).not_found == count(stages, ends_as(is_not_found())),
        tally(ended(stages)).failed == count(stages, ends_as(is_failed())),
{
    lemma_ended_count(stages, is_downloaded());
    lemma_ended_count(stages, is_skipped());
    lemma_ended_count(stages, is_not_found());
    lemma_ended_count(stages, is_failed());
}

/// How the counts move when the stage of one entry changes: each count
/// loses the old stage if it counted it and gains the new one if it
/// counts it, and the tally of the ended entries moves with them.
pub proof fn lemma_counts_after_update(stages: Seq<StageView>, i: int, next: StageView)
    requires
        0 <= i < stages.len(),
    ensures
        count(stages.update(i, next), active()) == count(stages, active()) - one_if(
            is_active(stages[i]),
        ) + one_if(is_active(next)),
        count(stages.update(i, next), has_finished()) == count(stages, has_finished()) - one_if(
            stages[i] is Finished,
        ) + one_if(next is Finished),
        !(stages[i] is Finished) ==> tally(ended(stages.update(i, next))) == match next {
            StageView::Finished(outcome) => tally_with(tally(ended(stages)), outcome),
            _ => tally(ended(stages)),
        },
        !(stages[i] is Finished) ==> forall|test: spec_fn(Outcome) -> bool|
            count(stages.update(i, next), #[trigger] ends_as(test)) == count(
                stages,
                ends_as(test),
            ) + one_if(ends_as(test)(next)),
{
    lemma_count_update(stages, i, next, active());
    lemma_count_update(stages, i, next, has_finished());
    assert forall|test: spec_fn(Outcome) -> bool| !(stages[i] is Finished) implies count(
        stages.update(i, next),
        #[trigger] ends_as(test),
    ) == count(stages, ends_as(test)) + one_if(ends_as(test)(next)) by {
        lemma_count_update(stages, i, next, ends_as(test));
    }
    lemma_ended_counts(stages);
    lemma_ended_counts(stages.update(i, next));
}

/// How the work left moves when the stage of one entry changes.
pub proof fn lemma_work_after_update(stages: Seq<StageView>, i: int, next: StageView)
    requires
        0 <= i < stages.len(),
    ensures
        work_left(stages.update(i, next)) == work_left(stages) - steps_left(stages[i])
            + steps_left(next),
        work_left(stages) >= steps_left(stages[i]),
    decreases stages.len(),
{
    if i == stages.len() - 1 {
        assert(stages.update(i, next).drop_last() =~= stages.drop_last());
    } else {
        assert(stages.update(i, next).drop_last() =~= stages.drop_last().update(i, next));
        lemma_work_after_update(stages.drop_last(), i, next);
    }
}

/// A run has work left exactly while it is not complete, and never more
/// than four steps for each entry.
pub proof fn lemma_work_left(stages: Seq<StageView>)
    ensures
        work_left(stages) <= 4 * stages.len(),
        work_left(stages) == 0 <==> forall|i: int|
            0 <= i < stages.len() ==> (#[trigger] stages[i]) is Finished,
    decreases stages.len(),
{
    if stages.len() > 0 {
        let front = stages.drop_last();
        lemma_work_left(front);
        if work_left(stages) == 0 {
            assert forall|i: int| 0 <= i < stages.len() implies (#[trigger] stages[i])
                is Finished by {
                if i < front.len() {
                    assert(stages[i] == front[i]);
                }
            }
        } else if forall|i: int| 0 <= i < stages.len() ==> (#[trigger] stages[i]) is Finished {
            assert forall|i: int| 0 <= i < front.len() implies (#[trigger] front[i])
                is Finished by {
                assert(front[i] == stages[i]);
            }
            assert(stages[stages.len() - 1] is Finished);
        }
    }
}

/// As many outcomes as stages that are `Finished`.
pub proof fn lemma_ended_length(stages: Seq<StageView>)
    ensures
        ended(stages).len() == count(stages, has_finished()),
    decreases stages.len(),
{
    if stages.len() > 0 {
        lemma_ended_length(stages.drop_last());
    }
}

/// Bounded concurrency: in every state of a run, the entries in flight
/// are at most the budget.
pub proof fn lemma_bounded_concurrency(crawl: Crawl)
    requires
        crawl.wf(),
    ensures
        crawl.in_flight() <= crawl.budget(),
{
}

/// No entry is left behind: while a run is not complete, an entry is in
/// flight, whose report will move the run on, or another can be started.
pub proof fn lemma_run_can_go_on(crawl: Crawl)
    requires
        crawl.wf(),
        !crawl.is_complete(),
    ensures
        crawl.in_flight() > 0 || crawl.can_start(),
{
    if crawl.in_flight() == 0 && !crawl.can_start() {
        lemma_count_zero(crawl.stages(), active());
    }
}

/// Completeness: when a run is complete, every entry was started and has
/// ended, whatever became of the others; its outcome is counted exactly
/// once, so the four counts add up to the number of entries. The entries
/// counted as not found or failed are exactly those that ended without
/// their image, and all the others were downloaded or skipped.
pub proof fn lemma_complete_run(crawl: Crawl)
    requires
        crawl.wf(),
        crawl.is_complete(),
    ensures
        crawl.started() == crawl.entries().len(),
        crawl.in_flight() == 0,
        !crawl.can_start(),
        ended(crawl.stages()).len() == crawl.entries().len(),
        forall|i: int|
            0 <= i < crawl.stages().len() ==> (#[trigger] crawl.stages()[i])
                == StageView::Finished(ended(crawl.stages())[i]),
        crawl.counts().total() == crawl.entries().len(),
        crawl.counts().not_found + crawl.counts().failed == count(
            ended(crawl.stages()),
            is_unsuccessful(),
        ),
        crawl.counts().downloaded + crawl.counts().skipped == crawl.entries().len() - count(
            ended(crawl.stages()),
            is_unsuccessful(),
        ),
{
    let stages = crawl.stages();
    lemma_tally_unsuccessful(ended(stages));
    lemma_count_none(stages, active());
    lemma_tally_total(ended(stages));
    lemma_all_ended(stages);
}

/// Where every stage is `Finished`, the outcomes of the ended entries are
/// the outcomes of all entries, index by index.
pub proof fn lemma_all_ended(stages: Seq<StageView>)
    requires
        forall|i: int| 0 <= i < stages.len() ==> (#[trigger] stages[i]) is Finished,
    ensures
        ended(stages).len() == stages.len(),
        forall|i: int|
            0 <= i < stages.len() ==> (#[trigger] stages[i]) == StageView::Finished(
                ended(stages)[i],
            ),
    decreases stages.len(),
{
    if stages.len() > 0 {
        let front = stages.drop_last();
        lemma_all_ended(front);
        assert forall|i: int| 0 <= i < stages.len() implies (#[trigger] stages[i])
            == StageView::Finished(ended(stages)[i]) by {
            if i < front.len() {
                assert(stages[i] == front[i]);
            }
        }
    }
}

} // verus!
