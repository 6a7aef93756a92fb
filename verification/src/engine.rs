//! The scrape engine and its task: what becomes of one address once its
//! fetch has ended.

use vstd::prelude::*;
use crate::batch::{Batch, BatchView};
use crate::error::{ScraperError, ScraperErrorView, result_view};
use crate::models::{PageData, PageDataView};
use crate::parser::{HtmlParser, parsed};

verus! {

/// How one scrape task ended: with the record of its page, or with the
/// address and the description of what failed.
#[derive(Debug, Clone)]
pub enum ScrapeOutcome {
    Success(PageData),
    Failure { url: String, reason: String },
}

/// The mathematical value of a [`ScrapeOutcome`].
pub enum ScrapeOutcomeView {
    Success(PageDataView),
    Failure { url: Seq<char>, reason: Seq<char> },
}

impl ScrapeOutcomeView {
    /// The address of the page that the outcome is about.
    pub open spec fn url(self) -> Seq<char> {
        match self {
            ScrapeOutcomeView::Success(page) => page.url,
            ScrapeOutcomeView::Failure { url, reason } => url,
        }
    }
}

impl DeepView for ScrapeOutcome {
    type V = ScrapeOutcomeView;

    open spec fn deep_view(&self) -> ScrapeOutcomeView {
        match self {
            ScrapeOutcome::Success(page) => ScrapeOutcomeView::Success(page@),
            ScrapeOutcome::Failure { url, reason } => ScrapeOutcomeView::Failure {
                url: url@,
                reason: reason@,
            },
        }
    }
}

impl View for ScrapeOutcome {
    type V = ScrapeOutcomeView;

    open spec fn view(&self) -> ScrapeOutcomeView {
        self.deep_view()
    }
}

/// The outcome of a task whose fetch failed with `error`.
pub open spec fn fetch_failure(url: Seq<char>, error: ScraperErrorView) -> ScrapeOutcomeView {
    ScrapeOutcomeView::Failure { url, reason: "fetch: "@ + error.message() }
}

/// The outcome of a task whose document was fetched and whose parse ended in
/// `parsed`.
pub open spec fn parse_outcome(
    url: Seq<char>,
    parsed: Result<PageDataView, ScraperErrorView>,
) -> ScrapeOutcomeView {
    match parsed {
        Ok(page) => ScrapeOutcomeView::Success(page),
        Err(error) => ScrapeOutcomeView::Failure { url, reason: "parse: "@ + error.message() },
    }
}

/// The outcome of a task that broke off before its fetch or its parse had
/// ended.
pub open spec fn broken_off(url: Seq<char>) -> ScrapeOutcomeView {
    ScrapeOutcomeView::Failure { url, reason: "task: broken off"@ }
}

/// The outcome of the task for `url` whose fetch ended in `fetched`: a failed
/// fetch ends the task, and only a fetched document is parsed.
pub open spec fn task_outcome(
    url: Seq<char>,
    fetched: Result<Seq<char>, ScraperErrorView>,
) -> ScrapeOutcomeView {
    match fetched {
        Err(error) => fetch_failure(url, error),
        Ok(html) => parse_outcome(url, parsed(html, url)),
    }
}

/// The scrape engine: how many tasks it lets run at a time.
pub struct ScraperEngine {
    pub num_threads: usize,
}

impl ScraperEngine {
    /// An engine that runs up to `num_threads` tasks at a time.
    pub fn new(num_threads: usize) -> (engine: Self)
        ensures
            engine.num_threads == num_threads,
    {
        Self { num_threads }
    }

    /// Begins the scrape of `urls`: a batch of one pending task for each
    /// address, in the order given and duplicates included, of which up to
    /// `num_threads` run at a time.
    pub fn scrape_urls(&self, urls: Vec<String>) -> (batch: Batch)
        requires
            self.num_threads >= 1,
        ensures
            batch.wf(),
            batch@ == BatchView::initial(urls.deep_view(), self.num_threads as nat),
            batch@.started() == 0,
            batch@.in_flight() == 0,
    {
        Batch::new(urls, self.num_threads)
    }

    /// Runs the task for `url` from the point where its fetch has ended in
    /// `fetched`: a failure of the fetch is the outcome, and the document is
    /// not parsed; a fetched document is parsed, and the record or the failure
    /// of the parse is the outcome.
    pub fn scrape_single(
        url: &str,
        fetched: Result<String, ScraperError>,
    ) -> (outcome: ScrapeOutcome)
        ensures
            outcome@ == task_outcome(url@, result_view(fetched)),
            fetched matches Err(error) ==> outcome@ == fetch_failure(url@, error@),
    {
        match fetched {
            Err(error) => Self::fetch_failed(url, &error),
            Ok(html) => {
                let parsed = HtmlParser::parse(html.as_str(), url.to_owned());
                Self::conclude(url, parsed)
            },
        }
    }

    /// The outcome of the task for `url` whose fetch failed with `error`.
    pub fn fetch_failed(url: &str, error: &ScraperError) -> (outcome: ScrapeOutcome)
        ensures
            outcome@ == fetch_failure(url@, error@),
    {
        ScrapeOutcome::Failure {
            url: url.to_owned(),
            reason: String::from_str("fetch: ").concat(error.message().as_str()),
        }
    }

    /// The outcome of the task for `url` that broke off before its fetch or its
    /// parse had ended: a failure, so that the batch can go on without it.
    pub fn task_broke_off(url: &str) -> (outcome: ScrapeOutcome)
        ensures
            outcome@ == broken_off(url@),
    {
        ScrapeOutcome::Failure {
            url: url.to_owned(),
            reason: String::from_str("task: broken off"),
        }
    }

    /// The outcome of the task for `url` whose parse ended in `parsed`.
    pub fn conclude(url: &str, parsed: Result<PageData, ScraperError>) -> (outcome: ScrapeOutcome)
        ensures
            outcome@ == parse_outcome(url@, result_view(parsed)),
    {
        match parsed {
            Ok(page) => ScrapeOutcome::Success(page),
            Err(error) => ScrapeOutcome::Failure {
                url: url.to_owned(),
                reason: String::from_str("parse: ").concat(error.message().as_str()),
            },
        }
    }
}

} // verus!
