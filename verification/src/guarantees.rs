//! What the engine guarantees of every batch, whatever the order in which its
//! tasks end.

use vstd::prelude::*;
use vstd::multiset::*;
use crate::batch::{
    BatchView, TaskStatus, TaskView, count, diagnostics, has_succeeded, lemma_complete_wf,
    lemma_count_witness, lemma_count_zero, lemma_counts_partition, lemma_initial_wf,
    lemma_outcomes_partition, lemma_start_wf, succeeded, successes,
};
use crate::engine::{ScrapeOutcomeView, fetch_failure, task_outcome};
use crate::error::ScraperErrorView;
use crate::models::PageDataView;

verus! {

/// Something that happens to a batch: the engine starts the next pending
/// task, or the outcome of a task arrives.
pub enum Event {
    Start,
    Complete { task: int, outcome: ScrapeOutcomeView },
}

impl BatchView {
    /// The batch after `event`. A start while no task can start, and an
    /// outcome that cannot be collected, leave it as it is.
    pub open spec fn step(self, event: Event) -> BatchView {
        match event {
            Event::Start => if self.can_start() {
                self.after_start()
            } else {
                self
            },
            Event::Complete { task, outcome } => if self.accepts(task, outcome) {
                self.after_complete(task, outcome)
            } else {
                self
            },
        }
    }

    /// The batch after `events`, in their order.
    pub open spec fn run(self, events: Seq<Event>) -> BatchView
        decreases events.len(),
    {
        if events.len() == 0 {
            self
        } else {
            self.run(events.drop_last()).step(events.last())
        }
    }
}

/// Whatever happens to a batch of `urls` that is `width` wide, in whatever
/// order, it stays well formed and keeps its addresses and its width.
pub proof fn every_reachable_batch_is_well_formed(
    urls: Seq<Seq<char>>,
    width: nat,
    events: Seq<Event>,
)
    requires
        width >= 1,
    ensures
        BatchView::initial(urls, width).run(events).wf(),
        BatchView::initial(urls, width).run(events).urls == urls,
        BatchView::initial(urls, width).run(events).width == width,
    decreases events.len(),
{
    let start = BatchView::initial(urls, width);
    if events.len() == 0 {
        lemma_initial_wf(urls, width);
    } else {
        every_reachable_batch_is_well_formed(urls, width, events.drop_last());
        let before = start.run(events.drop_last());
        match events.last() {
            Event::Start => {
                if before.can_start() {
                    lemma_start_wf(before);
                }
            },
            Event::Complete { task, outcome } => {
                if before.accepts(task, outcome) {
                    lemma_complete_wf(before, task, outcome);
                }
            },
        }
    }
}

/// In a well-formed batch no more tasks run at a time than the engine is wide,
/// and no more than there are addresses.
pub proof fn in_flight_is_bounded(batch: BatchView)
    requires
        batch.wf(),
    ensures
        batch.in_flight() <= batch.width,
        batch.in_flight() <= batch.urls.len(),
{
    lemma_counts_partition(batch.tasks);
}

/// Whatever happens to a batch of `urls` that is `width` wide, never more
/// than `width` and never more than `urls.len()` of its tasks run at a time.
pub proof fn concurrency_never_exceeds_the_limit(
    urls: Seq<Seq<char>>,
    width: nat,
    events: Seq<Event>,
)
    requires
        width >= 1,
    ensures
        BatchView::initial(urls, width).run(events).in_flight() <= width,
        BatchView::initial(urls, width).run(events).in_flight() <= urls.len(),
{
    every_reachable_batch_is_well_formed(urls, width, events);
    in_flight_is_bounded(BatchView::initial(urls, width).run(events));
}

/// In a well-formed batch one outcome was collected for each task that ended,
/// and each outcome gave one record or one line of the diagnostics.
pub proof fn one_outcome_for_each_ended_task(batch: BatchView)
    requires
        batch.wf(),
    ensures
        batch.outcomes.len() == count(batch.tasks, TaskStatus::Done),
        successes(batch.outcomes).len() + diagnostics(batch.outcomes).len()
            == batch.outcomes.len(),
{
    lemma_outcomes_partition(batch.outcomes);
}

/// In a finished batch every task has ended, and the outcomes, successes and
/// failures together, are as many as the addresses that were submitted,
/// duplicates included.
pub proof fn one_outcome_for_each_address(batch: BatchView)
    requires
        batch.wf(),
        batch.is_finished(),
    ensures
        forall|i: int| 0 <= i < batch.urls.len() ==> #[trigger] batch.tasks[i] is Done,
        batch.in_flight() == 0,
        batch.outcomes.len() == batch.urls.len(),
        successes(batch.outcomes).len() + diagnostics(batch.outcomes).len() == batch.urls.len(),
{
    lemma_counts_partition(batch.tasks);
    lemma_count_zero(batch.tasks, TaskStatus::Running);
    lemma_outcomes_partition(batch.outcomes);
}

/// A batch in which no task can start and none runs is finished: the engine
/// never waits while nothing runs.
pub proof fn idle_batch_is_finished(batch: BatchView)
    requires
        batch.wf(),
        !batch.can_start(),
        batch.in_flight() == 0,
    ensures
        batch.is_finished(),
        batch.steps_left() == 0,
{
    lemma_counts_partition(batch.tasks);
}

/// A batch that is not finished can go on: a task can start, or a task runs
/// whose outcome can be collected. The engine never waits for a task that
/// does not exist.
pub proof fn unfinished_batch_can_go_on(batch: BatchView)
    requires
        batch.wf(),
        !batch.is_finished(),
    ensures
        batch.steps_left() > 0,
        batch.can_start() || exists|task: int|
            0 <= task < batch.urls.len() && #[trigger] batch.tasks[task] is Running,
{
    lemma_counts_partition(batch.tasks);
    if !batch.can_start() {
        let task = lemma_count_witness(batch.tasks, TaskStatus::Running);
    }
}

/// Running a batch through one event and then through more is running it
/// through all of them.
pub proof fn lemma_run_after_step(batch: BatchView, event: Event, rest: Seq<Event>)
    ensures
        batch.run(seq![event] + rest) == batch.step(event).run(rest),
    decreases rest.len(),
{
    let all = seq![event] + rest;
    if rest.len() == 0 {
        assert(batch.run(all.drop_last()) == batch);
    } else {
        assert(all.drop_last() =~= seq![event] + rest.drop_last());
        lemma_run_after_step(batch, event, rest.drop_last());
    }
}

/// Every well-formed batch can be finished, in as many further steps as it
/// says are left: the engine cannot come to a state from which the batch
/// does not end.
pub proof fn every_batch_can_finish(batch: BatchView) -> (events: Seq<Event>)
    requires
        batch.wf(),
    ensures
        events.len() == batch.steps_left(),
        batch.run(events).wf(),
        batch.run(events).is_finished(),
    decreases batch.steps_left(),
{
    lemma_counts_partition(batch.tasks);
    if batch.is_finished() {
        Seq::empty()
    } else {
        unfinished_batch_can_go_on(batch);
        let event = if batch.can_start() {
            lemma_start_wf(batch);
            Event::Start
        } else {
            let task = choose|task: int|
                0 <= task < batch.urls.len() && #[trigger] batch.tasks[task] is Running;
            let outcome = ScrapeOutcomeView::Failure { url: batch.urls[task], reason: Seq::empty() };
            lemma_complete_wf(batch, task, outcome);
            Event::Complete { task, outcome }
        };
        let rest = every_batch_can_finish(batch.step(event));
        lemma_run_after_step(batch, event, rest);
        seq![event] + rest
    }
}

/// A record occurs among the successes as often as its success occurs among
/// the outcomes.
pub proof fn lemma_successes_count(outcomes: Seq<ScrapeOutcomeView>, page: PageDataView)
    ensures
        successes(outcomes).to_multiset().count(page) == outcomes.to_multiset().count(
            ScrapeOutcomeView::Success(page),
        ),
    decreases outcomes.len(),
{
    broadcast use group_multiset_axioms;

    if outcomes.len() == 0 {
        outcomes.to_multiset_ensures();
        successes(outcomes).to_multiset_ensures();
    } else {
        let before = outcomes.drop_last();
        let last = outcomes.last();
        lemma_successes_count(before, page);
        assert(outcomes =~= before.push(last));
        vstd::seq_lib::to_multiset_build(before, last);
        match last {
            ScrapeOutcomeView::Success(found) => {
                vstd::seq_lib::to_multiset_build(successes(before), found);
            },
            ScrapeOutcomeView::Failure { url, reason } => {},
        }
    }
}

/// Every record that a well-formed batch holds is the record of a task of
/// the batch that ended in success: a task that failed leaves no record.
pub proof fn every_record_is_of_a_task_that_succeeded(batch: BatchView, k: int)
    requires
        batch.wf(),
        0 <= k < successes(batch.outcomes).len(),
    ensures
        exists|task: int|
            0 <= task < batch.urls.len() && #[trigger] batch.tasks[task] == TaskView::Done(
                ScrapeOutcomeView::Success(successes(batch.outcomes)[k]),
            ) && successes(batch.outcomes)[k].url == batch.urls[task],
{
    let records = successes(batch.outcomes);
    let page = records[k];
    let ended = TaskView::Done(ScrapeOutcomeView::Success(page));
    records.to_multiset_ensures();
    lemma_successes_count(batch.outcomes, page);
    batch.tasks.to_multiset_ensures();
    let task = choose|task: int| 0 <= task < batch.tasks.len() && batch.tasks[task] == ended;
}

/// A well-formed batch holds as many records as it has tasks that ended in
/// success, and as many lines of diagnostics as it has tasks that ended in
/// failure: a task that failed leaves no record.
pub proof fn failed_tasks_leave_no_record(batch: BatchView)
    requires
        batch.wf(),
    ensures
        successes(batch.outcomes).len() == succeeded(batch.tasks),
        diagnostics(batch.outcomes).len() + succeeded(batch.tasks) == count(
            batch.tasks,
            TaskStatus::Done,
        ),
{
    lemma_outcomes_partition(batch.outcomes);
}

/// A task whose fetch failed ends in the failure of the fetch, whatever the
/// markup engine would make of any document: nothing is parsed for it, and it
/// is no success.
pub proof fn failed_fetch_is_never_parsed(url: Seq<char>, error: ScraperErrorView)
    ensures
        task_outcome(url, Err(error)) == fetch_failure(url, error),
        task_outcome(url, Err(error)) is Failure,
        !has_succeeded(TaskView::Done(task_outcome(url, Err(error)))),
{
}

/// Two well-formed batches whose tasks ended alike hold the same records, each
/// as often in the one as in the other, in whatever order the outcomes were
/// collected.
pub proof fn records_do_not_depend_on_the_order(first: BatchView, second: BatchView)
    requires
        first.wf(),
        second.wf(),
        first.tasks == second.tasks,
    ensures
        first.outcomes.to_multiset() == second.outcomes.to_multiset(),
        successes(first.outcomes).to_multiset() == successes(second.outcomes).to_multiset(),
{
    assert forall|page: PageDataView|
        successes(first.outcomes).to_multiset().count(page) == successes(
            second.outcomes,
        ).to_multiset().count(page) by {
        lemma_successes_count(first.outcomes, page);
        lemma_successes_count(second.outcomes, page);
    }
}

/// Scraping the same addresses twice, against a fetch that gives the same
/// result for the same address, yields the same records, each as often the
/// second time as the first; the order may differ.
pub proof fn scraping_again_yields_the_same_records(
    first: BatchView,
    second: BatchView,
    fetch: spec_fn(Seq<char>) -> Result<Seq<char>, ScraperErrorView>,
)
    requires
        first.wf(),
        second.wf(),
        first.is_finished(),
        second.is_finished(),
        first.urls == second.urls,
        forall|i: int|
            0 <= i < first.urls.len() ==> #[trigger] first.tasks[i] == TaskView::Done(
                task_outcome(first.urls[i], fetch(first.urls[i])),
            ),
        forall|i: int|
            0 <= i < second.urls.len() ==> #[trigger] second.tasks[i] == TaskView::Done(
                task_outcome(second.urls[i], fetch(second.urls[i])),
            ),
    ensures
        successes(first.outcomes).to_multiset() == successes(second.outcomes).to_multiset(),
{
    assert(first.tasks =~= second.tasks);
    records_do_not_depend_on_the_order(first, second);
}

} // verus!
