//! The records that one scraped page yields.

use vstd::prelude::*;

verus! {

/// One heading of a page: its tag name (`h1` to `h6`) and its trimmed text.
#[derive(Debug, Clone)]
pub struct Heading {
    pub level: String,
    pub text: String,
}

/// The mathematical value of a [`Heading`].
pub struct HeadingView {
    pub level: Seq<char>,
    pub text: Seq<char>,
}

impl DeepView for Heading {
    type V = HeadingView;

    open spec fn deep_view(&self) -> HeadingView {
        HeadingView { level: self.level@, text: self.text@ }
    }
}

impl View for Heading {
    type V = HeadingView;

    open spec fn view(&self) -> HeadingView {
        self.deep_view()
    }
}

/// One link of a page: its target, and its trimmed text where that is not empty.
#[derive(Debug, Clone)]
pub struct Link {
    pub href: String,
    pub text: Option<String>,
}

/// The mathematical value of a [`Link`].
pub struct LinkView {
    pub href: Seq<char>,
    pub text: Option<Seq<char>>,
}

impl DeepView for Link {
    type V = LinkView;

    open spec fn deep_view(&self) -> LinkView {
        LinkView { href: self.href@, text: self.text.deep_view() }
    }
}

impl View for Link {
    type V = LinkView;

    open spec fn view(&self) -> LinkView {
        self.deep_view()
    }
}

/// What was extracted from one page.
#[derive(Debug, Clone)]
pub struct PageData {
    pub url: String,
    pub title: Option<String>,
    pub meta_description: Option<String>,
    pub headings: Vec<Heading>,
    pub links: Vec<Link>,
}

/// The mathematical value of a [`PageData`].
pub struct PageDataView {
    pub url: Seq<char>,
    pub title: Option<Seq<char>>,
    pub meta_description: Option<Seq<char>>,
    pub headings: Seq<HeadingView>,
    pub links: Seq<LinkView>,
}

impl PageDataView {
    /// The record of a page of which nothing but the address is known.
    pub open spec fn blank(url: Seq<char>) -> PageDataView {
        PageDataView {
            url,
            title: None,
            meta_description: None,
            headings: Seq::empty(),
            links: Seq::empty(),
        }
    }
}

impl DeepView for PageData {
    type V = PageDataView;

    open spec fn deep_view(&self) -> PageDataView {
        PageDataView {
            url: self.url@,
            title: self.title.deep_view(),
            meta_description: self.meta_description.deep_view(),
            headings: self.headings.deep_view(),
            links: self.links.deep_view(),
        }
    }
}

impl View for PageData {
    type V = PageDataView;

    open spec fn view(&self) -> PageDataView {
        self.deep_view()
    }
}

impl PageData {
    /// A record for `url` with every extracted field absent or empty.
    pub fn new(url: String) -> (page: Self)
        ensures
            page@ == PageDataView::blank(url@),
    {
        let page = Self {
            url,
            title: None,
            meta_description: None,
            headings: Vec::new(),
            links: Vec::new(),
        };
        assert(page.headings.deep_view() =~= Seq::empty());
        assert(page.links.deep_view() =~= Seq::empty());
        page
    }

    /// The record that stands for a page that could not be scraped: the
    /// address alone, every extracted field absent or empty.
    pub fn error(url: String) -> (page: Self)
        ensures
            page@ == PageDataView::blank(url@),
    {
        let page = Self {
            url,
            title: None,
            meta_description: None,
            headings: Vec::new(),
            links: Vec::new(),
        };
        assert(page.headings.deep_view() =~= Seq::empty());
        assert(page.links.deep_view() =~= Seq::empty());
        page
    }
}

} // verus!
