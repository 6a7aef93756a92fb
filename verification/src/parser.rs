//! Extraction of a page record from markup.

use vstd::prelude::*;
use crate::error::{ScraperError, ScraperErrorView, result_view};
use crate::markup::{
    Element, ElementView, MAX_BUFFER_LENGTH, Query, document_fits, outgrows, select_elements,
    selected, trim, trimmed,
};
use crate::models::{Heading, HeadingView, Link, LinkView, PageData, PageDataView};

verus! {

/// The selector of the element that holds a page's title.
pub const TITLE_SELECTOR: &'static str = "title";

/// The selector of the element that holds a page's description.
pub const DESCRIPTION_SELECTOR: &'static str = "meta[name=\"description\"]";

/// The attribute in which that element holds the description.
pub const DESCRIPTION_ATTRIBUTE: &'static str = "content";

/// The selector of a page's headings.
pub const HEADING_SELECTOR: &'static str = "h1, h2, h3, h4, h5, h6";

/// The selector of a page's anchors.
pub const LINK_SELECTOR: &'static str = "a";

/// The attribute in which an anchor holds its target.
pub const LINK_ATTRIBUTE: &'static str = "href";

/// The title that the elements matched by [`TITLE_SELECTOR`] give: the trimmed
/// text of the first, absent where there is none.
pub open spec fn title_of(elements: Seq<ElementView>) -> Option<Seq<char>> {
    if elements.len() == 0 {
        None
    } else {
        Some(trimmed(elements[0].text))
    }
}

/// The description that the elements matched by [`DESCRIPTION_SELECTOR`] give:
/// the attribute of the first, absent where there is no element or the first
/// lacks the attribute.
pub open spec fn description_of(elements: Seq<ElementView>) -> Option<Seq<char>> {
    if elements.len() == 0 {
        None
    } else {
        elements[0].attribute
    }
}

/// The heading that one element gives.
pub open spec fn heading_of(element: ElementView) -> HeadingView {
    HeadingView { level: element.name, text: trimmed(element.text) }
}

/// The headings that the elements matched by [`HEADING_SELECTOR`] give: one for
/// each, in the same order.
pub open spec fn headings_of(elements: Seq<ElementView>) -> Seq<HeadingView> {
    elements.map_values(|element: ElementView| heading_of(element))
}

/// The text of a link: the trimmed text of its anchor, absent where that is
/// empty.
pub open spec fn link_text_of(text: Seq<char>) -> Option<Seq<char>> {
    if trimmed(text).len() == 0 {
        None
    } else {
        Some(trimmed(text))
    }
}

/// The links that the elements matched by [`LINK_SELECTOR`] give: one for each
/// anchor that has a target, in the same order; an anchor without a target
/// gives none.
pub open spec fn links_of(elements: Seq<ElementView>) -> Seq<LinkView>
    decreases elements.len(),
{
    if elements.len() == 0 {
        Seq::empty()
    } else {
        let before = links_of(elements.drop_last());
        match elements.last().attribute {
            Some(href) => before.push(LinkView { href, text: link_text_of(elements.last().text) }),
            None => before,
        }
    }
}

/// The error that reports `selector` as one that the markup engine refused.
pub open spec fn invalid_selector(selector: Seq<char>) -> ScraperErrorView {
    ScraperErrorView::HtmlParseError("invalid selector: "@ + selector)
}

/// The record of the page at `url`, given what each of the four selections
/// found; the error of the first selection that the markup engine refused.
pub open spec fn assembled(
    url: Seq<char>,
    titles: Option<Seq<ElementView>>,
    descriptions: Option<Seq<ElementView>>,
    headings: Option<Seq<ElementView>>,
    anchors: Option<Seq<ElementView>>,
) -> Result<PageDataView, ScraperErrorView> {
    if titles is None {
        Err(invalid_selector(TITLE_SELECTOR@))
    } else if descriptions is None {
        Err(invalid_selector(DESCRIPTION_SELECTOR@))
    } else if headings is None {
        Err(invalid_selector(HEADING_SELECTOR@))
    } else if anchors is None {
        Err(invalid_selector(LINK_SELECTOR@))
    } else {
        Ok(
            PageDataView {
                url,
                title: title_of(titles->0),
                meta_description: description_of(descriptions->0),
                headings: headings_of(headings->0),
                links: links_of(anchors->0),
            },
        )
    }
}

/// The error that reports a document as larger than the markup engine takes.
pub open spec fn document_too_long() -> ScraperErrorView {
    ScraperErrorView::HtmlParseError("document too long"@)
}

/// What parsing the document `html`, found at `url`, gives: a failure for a
/// document that may outgrow a buffer of the markup engine, else what the
/// four selections assemble to.
pub open spec fn parsed(html: Seq<char>, url: Seq<char>) -> Result<PageDataView, ScraperErrorView> {
    if !document_fits(html) {
        Err(document_too_long())
    } else {
        assembled(
            url,
            selected(html, TITLE_SELECTOR@, None),
            selected(html, DESCRIPTION_SELECTOR@, Some(DESCRIPTION_ATTRIBUTE@)),
            selected(html, HEADING_SELECTOR@, None),
            selected(html, LINK_SELECTOR@, Some(LINK_ATTRIBUTE@)),
        )
    }
}

/// A document fails to parse for its size alone. One that may outgrow a
/// buffer of the markup engine fails. Of those that fit all give a record or
/// none does, as the markup engine accepts the four selectors or refuses one:
/// malformed or empty markup is no failure. A record keeps the address that
/// it was parsed for.
pub proof fn parse_fails_for_size_alone(
    html: Seq<char>,
    url: Seq<char>,
    other_html: Seq<char>,
    other_url: Seq<char>,
)
    ensures
        !document_fits(html) ==> parsed(html, url) == Err::<PageDataView, ScraperErrorView>(
            document_too_long(),
        ),
        document_fits(html) && document_fits(other_html) ==> (parsed(html, url) is Ok <==> parsed(
            other_html,
            other_url,
        ) is Ok),
        parsed(html, url) matches Ok(page) ==> page.url == url,
{
}

/// Extracts the record of a page from its markup.
pub struct HtmlParser {}

impl HtmlParser {
    /// Parses the document `html`, found at `url`, into its record. A document
    /// that may outgrow a buffer of the markup engine is refused, and not
    /// handed to it.
    pub fn parse(html: &str, url: String) -> (result: Result<PageData, ScraperError>)
        ensures
            result_view(result) == parsed(html@, url@),
    {
        if outgrows(html.as_bytes(), MAX_BUFFER_LENGTH) {
            return Err(ScraperError::HtmlParseError(String::from_str("document too long")));
        }
        proof {
            reveal_strlit("title");
            reveal_strlit("meta[name=\"description\"]");
            reveal_strlit("h1, h2, h3, h4, h5, h6");
            reveal_strlit("a");
        }
        let (titles, descriptions, headings, anchors) = select_elements(
            html,
            Query { selector: TITLE_SELECTOR, attribute: None },
            Query { selector: DESCRIPTION_SELECTOR, attribute: Some(DESCRIPTION_ATTRIBUTE) },
            Query { selector: HEADING_SELECTOR, attribute: None },
            Query { selector: LINK_SELECTOR, attribute: Some(LINK_ATTRIBUTE) },
        );
        Self::assemble(url, titles, descriptions, headings, anchors)
    }

    /// Puts the record of the page at `url` together from what the four
    /// selections found; fails with the first selection that was refused.
    pub fn assemble(
        url: String,
        titles: Option<Vec<Element>>,
        descriptions: Option<Vec<Element>>,
        headings: Option<Vec<Element>>,
        anchors: Option<Vec<Element>>,
    ) -> (result: Result<PageData, ScraperError>)
        ensures
            result_view(result) == assembled(
                url@,
                titles.deep_view(),
                descriptions.deep_view(),
                headings.deep_view(),
                anchors.deep_view(),
            ),
    {
        let titles = match titles {
            Some(elements) => elements,
            None => { return Err(Self::refused(TITLE_SELECTOR)); },
        };
        let descriptions = match descriptions {
            Some(elements) => elements,
            None => { return Err(Self::refused(DESCRIPTION_SELECTOR)); },
        };
        let headings = match headings {
            Some(elements) => elements,
            None => { return Err(Self::refused(HEADING_SELECTOR)); },
        };
        let anchors = match anchors {
            Some(elements) => elements,
            None => { return Err(Self::refused(LINK_SELECTOR)); },
        };
        Ok(
            PageData {
                url,
                title: Self::extract_title(&titles),
                meta_description: Self::extract_meta_description(&descriptions),
                headings: Self::extract_headings(&headings),
                links: Self::extract_links(&anchors),
            },
        )
    }

    /// The error that reports `selector` as refused.
    fn refused(selector: &str) -> (error: ScraperError)
        ensures
            error@ == invalid_selector(selector@),
    {
        ScraperError::HtmlParseError(String::from_str("invalid selector: ").concat(selector))
    }

    /// The title among the elements that [`TITLE_SELECTOR`] matched.
    pub fn extract_title(elements: &Vec<Element>) -> (title: Option<String>)
        ensures
            title.deep_view() == title_of(elements.deep_view()),
    {
        if elements.len() == 0 {
            None
        } else {
            Some(trim(elements[0].text.as_str()).to_owned())
        }
    }

    /// The description among the elements that [`DESCRIPTION_SELECTOR`] matched.
    pub fn extract_meta_description(elements: &Vec<Element>) -> (description: Option<String>)
        ensures
            description.deep_view() == description_of(elements.deep_view()),
    {
        if elements.len() == 0 {
            None
        } else {
            match &elements[0].attribute {
                Some(content) => Some(content.clone()),
                None => None,
            }
        }
    }

    /// The headings that the elements matched by [`HEADING_SELECTOR`] give.
    pub fn extract_headings(elements: &Vec<Element>) -> (headings: Vec<Heading>)
        ensures
            headings.deep_view() == headings_of(elements.deep_view()),
    {
        let mut headings: Vec<Heading> = Vec::new();
        let mut i: usize = 0;
        while i < elements.len()
            invariant
                i <= elements.len(),
                headings.deep_view() == headings_of(elements.deep_view().take(i as int)),
            decreases elements.len() - i,
        {
            let element = &elements[i];
            let heading = Heading {
                level: element.name.clone(),
                text: trim(element.text.as_str()).to_owned(),
            };
            let ghost before = headings.deep_view();
            let ghost added = heading@;
            headings.push(heading);
            proof {
                let all = elements.deep_view();
                assert(headings_of(all.take(i + 1)) =~= before.push(added));
            }
            i += 1;
        }
        headings
    }

    /// The links that the elements matched by [`LINK_SELECTOR`] give.
    pub fn extract_links(elements: &Vec<Element>) -> (links: Vec<Link>)
        ensures
            links.deep_view() == links_of(elements.deep_view()),
    {
        let mut links: Vec<Link> = Vec::new();
        let mut i: usize = 0;
        while i < elements.len()
            invariant
                i <= elements.len(),
                links.deep_view() == links_of(elements.deep_view().take(i as int)),
            decreases elements.len() - i,
        {
            let element = &elements[i];
            proof {
                let all = elements.deep_view();
                assert(all.take(i + 1).drop_last() =~= all.take(i as int));
            }
            match &element.attribute {
                Some(href) => {
                    let text = trim(element.text.as_str());
                    let link = Link {
                        href: href.clone(),
                        text: if text.is_empty() {
                            None
                        } else {
                            Some(text.to_owned())
                        },
                    };
                    links.push(link);
                },
                None => {},
            }
            i += 1;
        }
        proof {
            assert(elements.deep_view().take(i as int) =~= elements.deep_view());
        }
        links
    }
}

} // verus!
