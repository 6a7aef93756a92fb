//! The failures that scraping and persisting a page can end in.

use vstd::prelude::*;

verus! {

/// Why a page could not be fetched, parsed or persisted. Each variant holds
/// the description that the failing collaborator gave.
#[derive(Debug, Clone)]
pub enum ScraperError {
    /// The request failed: transport, or a status that is no success.
    RequestError(String),
    /// The markup could not be queried.
    HtmlParseError(String),
    /// Reading or writing a file failed.
    IoError(String),
    /// The records could not be written as JSON.
    JsonError(String),
    /// The records could not be written as CSV.
    CsvError(String),
}

/// The mathematical value of a [`ScraperError`].
pub enum ScraperErrorView {
    RequestError(Seq<char>),
    HtmlParseError(Seq<char>),
    IoError(Seq<char>),
    JsonError(Seq<char>),
    CsvError(Seq<char>),
}

impl ScraperErrorView {
    /// The line that reports this error: the kind's label, then the description.
    pub open spec fn message(self) -> Seq<char> {
        match self {
            ScraperErrorView::RequestError(detail) => "Request error: "@ + detail,
            ScraperErrorView::HtmlParseError(detail) => "HTML parse error: "@ + detail,
            ScraperErrorView::IoError(detail) => "IO error: "@ + detail,
            ScraperErrorView::JsonError(detail) => "JSON error: "@ + detail,
            ScraperErrorView::CsvError(detail) => "CSV error: "@ + detail,
        }
    }
}

impl DeepView for ScraperError {
    type V = ScraperErrorView;

    open spec fn deep_view(&self) -> ScraperErrorView {
        match self {
            ScraperError::RequestError(detail) => ScraperErrorView::RequestError(detail@),
            ScraperError::HtmlParseError(detail) => ScraperErrorView::HtmlParseError(detail@),
            ScraperError::IoError(detail) => ScraperErrorView::IoError(detail@),
            ScraperError::JsonError(detail) => ScraperErrorView::JsonError(detail@),
            ScraperError::CsvError(detail) => ScraperErrorView::CsvError(detail@),
        }
    }
}

impl View for ScraperError {
    type V = ScraperErrorView;

    open spec fn view(&self) -> ScraperErrorView {
        self.deep_view()
    }
}

impl ScraperError {
    /// The line that reports this error.
    pub fn message(&self) -> (line: String)
        ensures
            line@ == self@.message(),
    {
        match self {
            ScraperError::RequestError(detail) => String::from_str("Request error: ").concat(
                detail.as_str(),
            ),
            ScraperError::HtmlParseError(detail) => String::from_str("HTML parse error: ").concat(
                detail.as_str(),
            ),
            ScraperError::IoError(detail) => String::from_str("IO error: ").concat(detail.as_str()),
            ScraperError::JsonError(detail) => String::from_str("JSON error: ").concat(
                detail.as_str(),
            ),
            ScraperError::CsvError(detail) => String::from_str("CSV error: ").concat(
                detail.as_str(),
            ),
        }
    }
}

/// The mathematical value of a result that holds a page or an error.
pub open spec fn result_view<T: DeepView>(result: Result<T, ScraperError>) -> Result<
    T::V,
    ScraperErrorView,
> {
    match result {
        Ok(value) => Ok(value.deep_view()),
        Err(error) => Err(error@),
    }
}

} // verus!
