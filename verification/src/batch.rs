//! The bookkeeping of one batch of scrape tasks: which task starts next, how
//! many run at a time, and what is collected when they end.

use vstd::prelude::*;
use crate::engine::{ScrapeOutcome, ScrapeOutcomeView};
use crate::models::{PageData, PageDataView};

verus! {

/// Where a task stands: not yet started; started and not yet ended, while its
/// document is fetched or parsed; or ended, in success or in failure. A task
/// moves forward only, and ends once.
#[derive(Debug, Clone, Copy, PartialEq, Eq, Structural)]
pub enum TaskStatus {
    Pending,
    Running,
    Done,
}

/// Where a task stands, and how it ended once it has.
pub enum TaskView {
    Pending,
    Running,
    Done(ScrapeOutcomeView),
}

impl TaskView {
    /// Where the task stands, without how it ended.
    pub open spec fn status(self) -> TaskStatus {
        match self {
            TaskView::Pending => TaskStatus::Pending,
            TaskView::Running => TaskStatus::Running,
            TaskView::Done(_) => TaskStatus::Done,
        }
    }
}

/// How many of `tasks` stand at `status`.
pub open spec fn count(tasks: Seq<TaskView>, status: TaskStatus) -> nat
    decreases tasks.len(),
{
    if tasks.len() == 0 {
        0
    } else {
        let last: nat = if tasks.last().status() == status {
            1
        } else {
            0
        };
        count(tasks.drop_last(), status) + last
    }
}

/// Whether a task has ended in success.
pub open spec fn has_succeeded(task: TaskView) -> bool {
    task matches TaskView::Done(ScrapeOutcomeView::Success(_))
}

/// How many of `tasks` have ended in success.
pub open spec fn succeeded(tasks: Seq<TaskView>) -> nat
    decreases tasks.len(),
{
    if tasks.len() == 0 {
        0
    } else {
        let last: nat = if has_succeeded(tasks.last()) {
            1
        } else {
            0
        };
        succeeded(tasks.drop_last()) + last
    }
}

/// The records among `outcomes`, in the same order; a failure gives none.
pub open spec fn successes(outcomes: Seq<ScrapeOutcomeView>) -> Seq<PageDataView>
    decreases outcomes.len(),
{
    if outcomes.len() == 0 {
        Seq::empty()
    } else {
        let before = successes(outcomes.drop_last());
        match outcomes.last() {
            ScrapeOutcomeView::Success(page) => before.push(page),
            ScrapeOutcomeView::Failure { url, reason } => before,
        }
    }
}

/// The line that reports the failure of the task for `url`.
pub open spec fn diagnostic(url: Seq<char>, reason: Seq<char>) -> Seq<char> {
    "Error scraping "@ + url + ": "@ + reason
}

/// One line for each failure among `outcomes`, in the same order; a success
/// gives none.
pub open spec fn diagnostics(outcomes: Seq<ScrapeOutcomeView>) -> Seq<Seq<char>>
    decreases outcomes.len(),
{
    if outcomes.len() == 0 {
        Seq::empty()
    } else {
        let before = diagnostics(outcomes.drop_last());
        match outcomes.last() {
            ScrapeOutcomeView::Success(page) => before,
            ScrapeOutcomeView::Failure { url, reason } => before.push(diagnostic(url, reason)),
        }
    }
}

/// The mathematical value of a [`Batch`]: the addresses in the order of
/// submission, the number of tasks that may run at a time, where each task
/// stands, and the outcomes in the order in which they were collected.
pub struct BatchView {
    pub urls: Seq<Seq<char>>,
    pub width: nat,
    pub tasks: Seq<TaskView>,
    pub outcomes: Seq<ScrapeOutcomeView>,
}

impl BatchView {
    /// The batch before any task has started: one pending task for each
    /// address, duplicates included.
    pub open spec fn initial(urls: Seq<Seq<char>>, width: nat) -> BatchView {
        BatchView {
            urls,
            width,
            tasks: Seq::new(urls.len(), |i: int| TaskView::Pending),
            outcomes: Seq::empty(),
        }
    }

    /// How many tasks have been started.
    pub open spec fn started(self) -> nat {
        (self.tasks.len() - count(self.tasks, TaskStatus::Pending)) as nat
    }

    /// How many tasks run now.
    pub open spec fn in_flight(self) -> nat {
        count(self.tasks, TaskStatus::Running)
    }

    /// What holds of every batch that the engine can reach.
    pub open spec fn wf(self) -> bool {
        &&& self.width >= 1
        &&& self.tasks.len() == self.urls.len()
        // tasks start in the order of submission
        &&& forall|i: int|
            0 <= i < self.tasks.len() ==> (#[trigger] self.tasks[i] is Pending <==> i
                >= self.started())
        // no more tasks run than the engine is wide
        &&& self.in_flight() <= self.width
        // an outcome was collected for each task that ended, and for no other
        &&& self.outcomes.len() == count(self.tasks, TaskStatus::Done)
        &&& forall|outcome: ScrapeOutcomeView| #[trigger]
            self.outcomes.to_multiset().count(outcome) == self.tasks.to_multiset().count(
                TaskView::Done(outcome),
            )
        // a record was kept for each task that succeeded, and for no other
        &&& successes(self.outcomes).len() == succeeded(self.tasks)
        // and each outcome is about the address of its task
        &&& forall|i: int|
            0 <= i < self.tasks.len() ==> (#[trigger] self.tasks[i] matches TaskView::Done(outcome)
                ==> outcome.url() == self.urls[i])
    }

    /// Whether a task can start now: one is pending, and fewer run than the
    /// engine is wide.
    pub open spec fn can_start(self) -> bool {
        self.started() < self.tasks.len() && self.in_flight() < self.width
    }

    /// The batch after its next pending task has started.
    pub open spec fn after_start(self) -> BatchView {
        BatchView { tasks: self.tasks.update(self.started() as int, TaskView::Running), ..self }
    }

    /// Whether `outcome` can be collected for `task`: the task runs, and the
    /// outcome is about its address.
    pub open spec fn accepts(self, task: int, outcome: ScrapeOutcomeView) -> bool {
        &&& 0 <= task < self.tasks.len()
        &&& self.tasks[task] is Running
        &&& outcome.url() == self.urls[task]
    }

    /// The batch after `outcome` was collected for `task`.
    pub open spec fn after_complete(self, task: int, outcome: ScrapeOutcomeView) -> BatchView {
        BatchView {
            tasks: self.tasks.update(task, TaskView::Done(outcome)),
            outcomes: self.outcomes.push(outcome),
            ..self
        }
    }

    /// Whether every task has ended and its outcome was collected.
    pub open spec fn is_finished(self) -> bool {
        self.outcomes.len() == self.urls.len()
    }

    /// How many more starts and collections the batch needs until it is
    /// finished.
    pub open spec fn steps_left(self) -> nat {
        2 * count(self.tasks, TaskStatus::Pending) + count(self.tasks, TaskStatus::Running)
    }
}

/// Every task stands at exactly one status.
pub proof fn lemma_counts_partition(tasks: Seq<TaskView>)
    ensures
        count(tasks, TaskStatus::Pending) + count(tasks, TaskStatus::Running) + count(
            tasks,
            TaskStatus::Done,
        ) == tasks.len(),
    decreases tasks.len(),
{
    if tasks.len() > 0 {
        lemma_counts_partition(tasks.drop_last());
    }
}

/// Moving one task to another status changes the two counts by one.
pub proof fn lemma_count_update(tasks: Seq<TaskView>, i: int, task: TaskView, status: TaskStatus)
    requires
        0 <= i < tasks.len(),
    ensures
        count(tasks.update(i, task), status) + (if tasks[i].status() == status {
            1nat
        } else {
            0nat
        }) == count(tasks, status) + (if task.status() == status {
            1nat
        } else {
            0nat
        }),
    decreases tasks.len(),
{
    let updated = tasks.update(i, task);
    if i == tasks.len() - 1 {
        assert(updated.drop_last() =~= tasks.drop_last());
    } else {
        assert(updated.drop_last() =~= tasks.drop_last().update(i, task));
        lemma_count_update(tasks.drop_last(), i, task, status);
    }
}

/// Moving one task to another state changes the number of successes by what
/// the two states differ in.
pub proof fn lemma_succeeded_update(tasks: Seq<TaskView>, i: int, task: TaskView)
    requires
        0 <= i < tasks.len(),
    ensures
        succeeded(tasks.update(i, task)) + (if has_succeeded(tasks[i]) {
            1nat
        } else {
            0nat
        }) == succeeded(tasks) + (if has_succeeded(task) {
            1nat
        } else {
            0nat
        }),
    decreases tasks.len(),
{
    let updated = tasks.update(i, task);
    if i == tasks.len() - 1 {
        assert(updated.drop_last() =~= tasks.drop_last());
    } else {
        assert(updated.drop_last() =~= tasks.drop_last().update(i, task));
        lemma_succeeded_update(tasks.drop_last(), i, task);
    }
}

/// Among tasks of which none has ended, none has succeeded.
pub proof fn lemma_succeeded_none(tasks: Seq<TaskView>)
    requires
        count(tasks, TaskStatus::Done) == 0,
    ensures
        succeeded(tasks) == 0,
    decreases tasks.len(),
{
    if tasks.len() > 0 {
        lemma_succeeded_none(tasks.drop_last());
    }
}

/// Tasks that all stand at one status are counted there and nowhere else.
pub proof fn lemma_count_uniform(tasks: Seq<TaskView>, status: TaskStatus)
    requires
        forall|i: int| 0 <= i < tasks.len() ==> (#[trigger] tasks[i]).status() == status,
    ensures
        count(tasks, status) == tasks.len(),
    decreases tasks.len(),
{
    if tasks.len() > 0 {
        lemma_count_uniform(tasks.drop_last(), status);
    }
}

/// A task that stands at `status` is counted there.
pub proof fn lemma_count_positive(tasks: Seq<TaskView>, i: int, status: TaskStatus)
    requires
        0 <= i < tasks.len(),
        tasks[i].status() == status,
    ensures
        count(tasks, status) >= 1,
    decreases tasks.len(),
{
    if i < tasks.len() - 1 {
        lemma_count_positive(tasks.drop_last(), i, status);
    }
}

/// Where a task is counted at `status`, one stands there.
pub proof fn lemma_count_witness(tasks: Seq<TaskView>, status: TaskStatus) -> (i: int)
    requires
        count(tasks, status) >= 1,
    ensures
        0 <= i < tasks.len(),
        tasks[i].status() == status,
    decreases tasks.len(),
{
    if tasks.last().status() == status {
        tasks.len() - 1
    } else {
        lemma_count_witness(tasks.drop_last(), status)
    }
}

/// Where no task is counted at `status`, none stands there.
pub proof fn lemma_count_zero(tasks: Seq<TaskView>, status: TaskStatus)
    requires
        count(tasks, status) == 0,
    ensures
        forall|i: int| 0 <= i < tasks.len() ==> (#[trigger] tasks[i]).status() != status,
{
    assert forall|i: int| 0 <= i < tasks.len() implies (#[trigger] tasks[i]).status()
        != status by {
        if tasks[i].status() == status {
            lemma_count_positive(tasks, i, status);
        }
    }
}

/// Every outcome is a record or a line of the diagnostics, never both.
pub proof fn lemma_outcomes_partition(outcomes: Seq<ScrapeOutcomeView>)
    ensures
        successes(outcomes).len() + diagnostics(outcomes).len() == outcomes.len(),
    decreases outcomes.len(),
{
    if outcomes.len() > 0 {
        lemma_outcomes_partition(outcomes.drop_last());
    }
}

/// A batch starts out well formed.
pub proof fn lemma_initial_wf(urls: Seq<Seq<char>>, width: nat)
    requires
        width >= 1,
    ensures
        BatchView::initial(urls, width).wf(),
        BatchView::initial(urls, width).started() == 0,
        BatchView::initial(urls, width).in_flight() == 0,
{
    let batch = BatchView::initial(urls, width);
    lemma_count_uniform(batch.tasks, TaskStatus::Pending);
    lemma_counts_partition(batch.tasks);
    lemma_succeeded_none(batch.tasks);
    assert forall|outcome: ScrapeOutcomeView| #[trigger]
        batch.outcomes.to_multiset().count(outcome) == batch.tasks.to_multiset().count(
            TaskView::Done(outcome),
        ) by {
        batch.outcomes.to_multiset_ensures();
        batch.tasks.to_multiset_ensures();
    }
}

/// Starting the next pending task keeps the batch well formed.
pub proof fn lemma_start_wf(batch: BatchView)
    requires
        batch.wf(),
        batch.can_start(),
    ensures
        batch.after_start().wf(),
        batch.after_start().started() == batch.started() + 1,
        batch.after_start().in_flight() == batch.in_flight() + 1,
        batch.after_start().steps_left() + 1 == batch.steps_left(),
{
    let next = batch.started() as int;
    let after = batch.after_start();
    lemma_counts_partition(after.tasks);
    lemma_count_update(batch.tasks, next, TaskView::Running, TaskStatus::Pending);
    lemma_count_update(batch.tasks, next, TaskView::Running, TaskStatus::Running);
    lemma_count_update(batch.tasks, next, TaskView::Running, TaskStatus::Done);
    lemma_succeeded_update(batch.tasks, next, TaskView::Running);
    assert forall|outcome: ScrapeOutcomeView| #[trigger]
        after.outcomes.to_multiset().count(outcome) == after.tasks.to_multiset().count(
            TaskView::Done(outcome),
        ) by {
        vstd::seq_lib::to_multiset_update(batch.tasks, next, TaskView::Running);
    }
}

/// Collecting the outcome of a running task keeps the batch well formed.
pub proof fn lemma_complete_wf(batch: BatchView, task: int, outcome: ScrapeOutcomeView)
    requires
        batch.wf(),
        batch.accepts(task, outcome),
    ensures
        batch.after_complete(task, outcome).wf(),
        batch.after_complete(task, outcome).started() == batch.started(),
        batch.after_complete(task, outcome).in_flight() + 1 == batch.in_flight(),
        batch.after_complete(task, outcome).steps_left() + 1 == batch.steps_left(),
{
    let done = TaskView::Done(outcome);
    let after = batch.after_complete(task, outcome);
    lemma_count_update(batch.tasks, task, done, TaskStatus::Pending);
    lemma_count_update(batch.tasks, task, done, TaskStatus::Running);
    lemma_count_update(batch.tasks, task, done, TaskStatus::Done);
    lemma_succeeded_update(batch.tasks, task, done);
    assert(after.outcomes.drop_last() =~= batch.outcomes);
    assert forall|other: ScrapeOutcomeView| #[trigger]
        after.outcomes.to_multiset().count(other) == after.tasks.to_multiset().count(
            TaskView::Done(other),
        ) by {
        vstd::seq_lib::to_multiset_update(batch.tasks, task, done);
        vstd::seq_lib::to_multiset_build(batch.outcomes, outcome);
    }
}

/// What the engine does next.
#[derive(Debug, Clone)]
pub enum Action {
    /// Start the task with this number, for this address.
    Start { task: usize, url: String },
    /// No task can start now: wait until a running task has ended, and
    /// collect its outcome.
    Wait,
    /// Every task has ended and its outcome was collected.
    Finished,
}

/// What a finished batch returns: the records of the pages that were scraped,
/// and one line for each task that failed, both in the order in which the
/// tasks ended.
#[derive(Debug, Clone)]
pub struct ScrapeReport {
    pub records: Vec<PageData>,
    pub diagnostics: Vec<String>,
}

/// One batch of scrape tasks, one task for each address.
pub struct Batch {
    urls: Vec<String>,
    width: usize,
    status: Vec<TaskStatus>,
    started: usize,
    running: usize,
    records: Vec<PageData>,
    diagnostics: Vec<String>,
    tasks: Ghost<Seq<TaskView>>,
    outcomes: Ghost<Seq<ScrapeOutcomeView>>,
}

impl View for Batch {
    type V = BatchView;

    closed spec fn view(&self) -> BatchView {
        BatchView {
            urls: self.urls.deep_view(),
            width: self.width as nat,
            tasks: self.tasks@,
            outcomes: self.outcomes@,
        }
    }
}

/// The line that reports the failure of the task for `url`.
pub fn diagnostic_line(url: &str, reason: &str) -> (line: String)
    ensures
        line@ == diagnostic(url@, reason@),
{
    String::from_str("Error scraping ").concat(url).concat(": ").concat(reason)
}

impl Batch {
    /// Whether the batch is one that the engine can reach, and its counters
    /// and collections agree with its value.
    pub closed spec fn wf(&self) -> bool {
        &&& self@.wf()
        &&& self.status@.len() == self.tasks@.len()
        &&& forall|i: int|
            0 <= i < self.status@.len() ==> #[trigger] self.status@[i] == self.tasks@[i].status()
        &&& self.started == self@.started()
        &&& self.running == self@.in_flight()
        &&& self.records.deep_view() == successes(self.outcomes@)
        &&& self.diagnostics.deep_view() == diagnostics(self.outcomes@)
    }

    /// A well-formed batch has a well-formed value.
    pub proof fn lemma_wf_view(&self)
        requires
            self.wf(),
        ensures
            self@.wf(),
    {
    }

    /// A batch of one pending task for each of `urls`, of which up to `width`
    /// run at a time.
    pub fn new(urls: Vec<String>, width: usize) -> (batch: Batch)
        requires
            width >= 1,
        ensures
            batch.wf(),
            batch@ == BatchView::initial(urls.deep_view(), width as nat),
            batch@.started() == 0,
            batch@.in_flight() == 0,
    {
        let mut status: Vec<TaskStatus> = Vec::new();
        let mut i: usize = 0;
        while i < urls.len()
            invariant
                i <= urls.len(),
                status@.len() == i,
                forall|k: int| 0 <= k < i ==> #[trigger] status@[k] == TaskStatus::Pending,
            decreases urls.len() - i,
        {
            status.push(TaskStatus::Pending);
            i += 1;
        }
        let ghost names = urls.deep_view();
        let batch = Batch {
            urls,
            width,
            status,
            started: 0,
            running: 0,
            records: Vec::new(),
            diagnostics: Vec::new(),
            tasks: Ghost(Seq::new(names.len(), |i: int| TaskView::Pending)),
            outcomes: Ghost(Seq::empty()),
        };
        proof {
            lemma_initial_wf(names, width as nat);
            assert(batch.records.deep_view() =~= successes(batch.outcomes@));
            assert(batch.diagnostics.deep_view() =~= diagnostics(batch.outcomes@));
        }
        batch
    }

    /// How many tasks the batch has: one for each address.
    pub fn task_count(&self) -> (n: usize)
        requires
            self.wf(),
        ensures
            n == self@.urls.len(),
    {
        self.status.len()
    }

    /// How many tasks may run at a time.
    pub fn width(&self) -> (n: usize)
        ensures
            n == self@.width,
    {
        self.width
    }

    /// How many tasks have been started.
    pub fn started(&self) -> (n: usize)
        requires
            self.wf(),
        ensures
            n == self@.started(),
    {
        self.started
    }

    /// How many tasks run now.
    pub fn in_flight(&self) -> (n: usize)
        requires
            self.wf(),
        ensures
            n == self@.in_flight(),
    {
        self.running
    }

    /// Where the task with the number `task` stands; nothing where the batch
    /// has no such task.
    pub fn status_of(&self, task: usize) -> (status: Option<TaskStatus>)
        requires
            self.wf(),
        ensures
            status == if task < self@.tasks.len() {
                Some(self@.tasks[task as int].status())
            } else {
                None
            },
    {
        if task < self.status.len() {
            Some(self.status[task])
        } else {
            None
        }
    }

    /// How many outcomes were collected.
    pub fn completed(&self) -> (n: usize)
        requires
            self.wf(),
        ensures
            n == self@.outcomes.len(),
    {
        proof {
            lemma_counts_partition(self@.tasks);
        }
        self.started - self.running
    }

    /// Whether every task has ended and its outcome was collected.
    pub fn is_finished(&self) -> (finished: bool)
        requires
            self.wf(),
        ensures
            finished == self@.is_finished(),
    {
        proof {
            lemma_counts_partition(self@.tasks);
        }
        self.started == self.status.len() && self.running == 0
    }

    /// Decides what the engine does next. While a task is pending and fewer
    /// run than the engine is wide, the next pending task starts, in the order
    /// of submission. Else the engine waits, as long as a task runs. Else the
    /// batch is finished.
    pub fn next_action(&mut self) -> (action: Action)
        requires
            old(self).wf(),
        ensures
            final(self).wf(),
            action is Start <==> old(self)@.can_start(),
            action is Finished <==> old(self)@.is_finished(),
            match action {
                Action::Start { task, url } => {
                    &&& task == old(self)@.started()
                    &&& url@ == old(self)@.urls[task as int]
                    &&& final(self)@ == old(self)@.after_start()
                    &&& final(self)@.started() == old(self)@.started() + 1
                    &&& final(self)@.in_flight() == old(self)@.in_flight() + 1
                    &&& final(self)@.steps_left() + 1 == old(self)@.steps_left()
                },
                Action::Wait => old(self)@.in_flight() > 0 && final(self)@ == old(self)@,
                Action::Finished => final(self)@ == old(self)@,
            },
    {
        let ghost before = self@;
        proof {
            lemma_counts_partition(before.tasks);
        }
        if self.started < self.status.len() && self.running < self.width {
            let task = self.started;
            let url = self.urls[task].clone();
            self.status.set(task, TaskStatus::Running);
            self.started = self.started + 1;
            self.running = self.running + 1;
            self.tasks = Ghost(before.tasks.update(task as int, TaskView::Running));
            proof {
                lemma_start_wf(before);
            }
            Action::Start { task, url }
        } else if self.running > 0 {
            Action::Wait
        } else {
            Action::Finished
        }
    }

    /// Collects `outcome` for the task with the number `task`. It is accepted
    /// where that task runs and the outcome is about its address; else the
    /// batch stays as it is. An accepted record joins the records, an accepted
    /// failure gives a line of the diagnostics.
    pub fn complete(&mut self, task: usize, outcome: ScrapeOutcome) -> (accepted: bool)
        requires
            old(self).wf(),
        ensures
            final(self).wf(),
            accepted == old(self)@.accepts(task as int, outcome@),
            accepted ==> {
                &&& final(self)@ == old(self)@.after_complete(task as int, outcome@)
                &&& final(self)@.started() == old(self)@.started()
                &&& final(self)@.in_flight() + 1 == old(self)@.in_flight()
                &&& final(self)@.steps_left() + 1 == old(self)@.steps_left()
            },
            !accepted ==> final(self)@ == old(self)@,
    {
        let ghost before = self@;
        let ghost seen = outcome@;
        if task >= self.status.len() {
            return false;
        }
        match self.status[task] {
            TaskStatus::Running => {},
            _ => {
                return false;
            },
        }
        let about_its_address = match &outcome {
            ScrapeOutcome::Success(page) => page.url == self.urls[task],
            ScrapeOutcome::Failure { url, reason } => *url == self.urls[task],
        };
        if !about_its_address {
            return false;
        }
        proof {
            lemma_complete_wf(before, task as int, seen);
            assert(before.outcomes.push(seen).drop_last() =~= before.outcomes);
        }
        self.status.set(task, TaskStatus::Done);
        self.running = self.running - 1;
        match outcome {
            ScrapeOutcome::Success(page) => {
                let ghost earlier = self.records.deep_view();
                let ghost added = page@;
                self.records.push(page);
                assert(self.records.deep_view() =~= earlier.push(added));
            },
            ScrapeOutcome::Failure { url, reason } => {
                let ghost earlier = self.diagnostics.deep_view();
                let line = diagnostic_line(url.as_str(), reason.as_str());
                let ghost added = line@;
                self.diagnostics.push(line);
                assert(self.diagnostics.deep_view() =~= earlier.push(added));
            },
        }
        self.tasks = Ghost(before.tasks.update(task as int, TaskView::Done(seen)));
        self.outcomes = Ghost(before.outcomes.push(seen));
        true
    }

    /// Ends the batch. Where every task has ended, the report holds the
    /// records of the successes and one line for each failure, both in the
    /// order of collection; a batch with a task outstanding gives no report.
    pub fn finish(self) -> (report: Option<ScrapeReport>)
        requires
            self.wf(),
        ensures
            report is Some <==> self@.is_finished(),
            report matches Some(found) ==> {
                &&& found.records.deep_view() == successes(self@.outcomes)
                &&& found.diagnostics.deep_view() == diagnostics(self@.outcomes)
                &&& found.records.len() + found.diagnostics.len() == self@.urls.len()
            },
    {
        proof {
            lemma_outcomes_partition(self@.outcomes);
        }
        if self.is_finished() {
            Some(ScrapeReport { records: self.records, diagnostics: self.diagnostics })
        } else {
            None
        }
    }
}

} // verus!
