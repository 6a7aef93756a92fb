//! The boundary to the markup engine: which elements of a document a selector
//! matches, as plain values, and the trimming of their text.

use vstd::prelude::*;

verus! {

/// What is read of one element of a document: its tag name, the text below it
/// and, where a query asked for an attribute, that attribute's value.
#[derive(Debug, Clone)]
pub struct Element {
    pub name: String,
    pub text: String,
    pub attribute: Option<String>,
}

/// The mathematical value of an [`Element`].
pub struct ElementView {
    pub name: Seq<char>,
    pub text: Seq<char>,
    pub attribute: Option<Seq<char>>,
}

impl DeepView for Element {
    type V = ElementView;

    open spec fn deep_view(&self) -> ElementView {
        ElementView { name: self.name@, text: self.text@, attribute: self.attribute.deep_view() }
    }
}

impl View for Element {
    type V = ElementView;

    open spec fn view(&self) -> ElementView {
        self.deep_view()
    }
}

/// Whether `c` is one of the code points that Unicode gives the property
/// `White_Space`.
pub open spec fn is_white_space(c: char) -> bool {
    let code = c as u32;
    ||| 0x09 <= code <= 0x0D
    ||| code == 0x20
    ||| code == 0x85
    ||| code == 0xA0
    ||| code == 0x1680
    ||| 0x2000 <= code <= 0x200A
    ||| code == 0x2028
    ||| code == 0x2029
    ||| code == 0x202F
    ||| code == 0x205F
    ||| code == 0x3000
}

/// `text` without the white space that it starts with.
pub open spec fn trimmed_start(text: Seq<char>) -> Seq<char>
    decreases text.len(),
{
    if text.len() > 0 && is_white_space(text.first()) {
        trimmed_start(text.drop_first())
    } else {
        text
    }
}

/// `text` without the white space that it ends with.
pub open spec fn trimmed_end(text: Seq<char>) -> Seq<char>
    decreases text.len(),
{
    if text.len() > 0 && is_white_space(text.last()) {
        trimmed_end(text.drop_last())
    } else {
        text
    }
}

/// `text` without the white space at either end.
pub open spec fn trimmed(text: Seq<char>) -> Seq<char> {
    trimmed_end(trimmed_start(text))
}

/// `str::trim`, trusted: the slice of `text` that is left when the leading and
/// the trailing white space, as Unicode's `White_Space` property defines it,
/// are removed.
#[verifier::external_body]
pub(crate) fn trim(text: &str) -> (rest: &str)
    ensures
        rest@ == trimmed(text@),
{
    text.trim()
}

/// The size, in bytes, beyond which no buffer of the markup engine can grow.
pub const MAX_BUFFER_LENGTH: usize = 0x8000_0000;

/// The longest selector, in characters, that is handed to the markup engine.
pub const MAX_SELECTOR_LENGTH: usize = 64;

/// How many bytes the markup engine may write for one byte that it reads:
/// three for a null character, which it may replace by the replacement
/// character; two for an ampersand, since a character reference may stand for
/// one byte more than it is long; one for any other byte.
pub open spec fn grown_by(byte: u8) -> nat {
    if byte == 0 {
        3
    } else if byte == 0x26 {
        2
    } else {
        1
    }
}

/// A bound on what the markup engine writes into any one buffer when it reads
/// `bytes`: the sum of [`grown_by`] over them.
pub open spec fn grown_length(bytes: Seq<u8>) -> nat
    decreases bytes.len(),
{
    if bytes.len() == 0 {
        0
    } else {
        grown_length(bytes.drop_last()) + grown_by(bytes.last())
    }
}

/// Whether the markup engine can take the document `html`: nothing that it
/// reads from it outgrows a buffer.
pub open spec fn document_fits(html: Seq<char>) -> bool {
    grown_length(vstd::utf8::encode_utf8(html)) <= MAX_BUFFER_LENGTH
}

/// Whether `selector` is short and has no bracketed part. The markup engine
/// reads and matches such a selector without descending into the document or
/// into the selector by recursion; one with a bracketed part, such as
/// `:has(a)`, it may not.
pub open spec fn is_plain_selector(selector: Seq<char>) -> bool {
    &&& selector.len() <= MAX_SELECTOR_LENGTH
    &&& forall|i: int| 0 <= i < selector.len() ==> selector[i] != '('
}

/// What was read grows to no less than its length and to no more than three
/// times its length.
pub proof fn lemma_grown_length_bounds(bytes: Seq<u8>)
    ensures
        bytes.len() <= grown_length(bytes) <= 3 * bytes.len(),
    decreases bytes.len(),
{
    if bytes.len() > 0 {
        lemma_grown_length_bounds(bytes.drop_last());
    }
}

/// The first `n` bytes grow to no more than all of them.
pub proof fn lemma_grown_length_prefix(bytes: Seq<u8>, n: int)
    requires
        0 <= n <= bytes.len(),
    ensures
        grown_length(bytes.take(n)) <= grown_length(bytes),
    decreases bytes.len(),
{
    if n < bytes.len() {
        assert(bytes.drop_last().take(n) =~= bytes.take(n));
        lemma_grown_length_prefix(bytes.drop_last(), n);
    } else {
        assert(bytes.take(n) =~= bytes);
    }
}

/// Whether `bytes` may grow beyond `limit` in the markup engine.
pub fn outgrows(bytes: &[u8], limit: usize) -> (over: bool)
    ensures
        over == (grown_length(bytes@) > limit),
{
    proof {
        lemma_grown_length_bounds(bytes@);
    }
    if bytes.len() > limit {
        return true;
    }
    if bytes.len() <= limit / 3 {
        return false;
    }
    let mut total: usize = 0;
    let mut i: usize = 0;
    while i < bytes.len()
        invariant
            i <= bytes.len(),
            total == grown_length(bytes@.take(i as int)),
            total <= limit,
        decreases bytes.len() - i,
    {
        let byte = bytes[i];
        let more: usize = if byte == 0 {
            3
        } else if byte == 0x26 {
            2
        } else {
            1
        };
        proof {
            assert(bytes@.take(i + 1).drop_last() =~= bytes@.take(i as int));
            lemma_grown_length_prefix(bytes@, i + 1);
        }
        if more > limit - total {
            return true;
        }
        total = total + more;
        i += 1;
    }
    assert(bytes@.take(i as int) =~= bytes@);
    false
}

/// One selection in a document: a selector group and, where one is of
/// interest, the name of an attribute.
#[derive(Debug, Clone, Copy)]
pub struct Query<'a> {
    pub selector: &'a str,
    pub attribute: Option<&'a str>,
}

/// Whether the markup engine accepts `selector` as a selector group.
pub uninterp spec fn selector_is_valid(selector: Seq<char>) -> bool;

/// The elements of the document `html` that the valid selector group
/// `selector` matches, in the order in which the markup engine yields them;
/// each with its tag name, the concatenated text of its descendants and,
/// where `attribute` names one, the value of that attribute.
pub uninterp spec fn matched_elements(
    html: Seq<char>,
    selector: Seq<char>,
    attribute: Option<Seq<char>>,
) -> Seq<ElementView>;

/// What one selection in the document `html` finds: the elements that
/// `selector` matches, or nothing where the markup engine refuses `selector`.
pub open spec fn selected(
    html: Seq<char>,
    selector: Seq<char>,
    attribute: Option<Seq<char>>,
) -> Option<Seq<ElementView>> {
    if selector_is_valid(selector) {
        Some(matched_elements(html, selector, attribute))
    } else {
        None
    }
}

/// The markup engine, trusted: `Html::parse_document` on `html`, once, and
/// for each of the four queries `Selector::parse` on its selector,
/// `Html::select`, and of each element that it yields `Element::name`,
/// `ElementRef::text` and, where the query names an attribute,
/// `Element::attr`. A query finds nothing where `Selector::parse` refuses its
/// selector, which depends on the selector alone. Of what is found nothing is
/// claimed but that it is determined by the document and the query.
///
/// Two kinds of input are left out. A document that may outgrow a buffer: the
/// engine panics where a buffer would pass [`MAX_BUFFER_LENGTH`]. A selector
/// that is not plain: the engine reads a bracketed part by recursion, and
/// matches some by recursion over the document.
#[verifier::external_body]
pub(crate) fn select_elements(
    html: &str,
    first: Query,
    second: Query,
    third: Query,
    fourth: Query,
) -> (found: (
    Option<Vec<Element>>,
    Option<Vec<Element>>,
    Option<Vec<Element>>,
    Option<Vec<Element>>,
))
    requires
        document_fits(html@),
        is_plain_selector(first.selector@),
        is_plain_selector(second.selector@),
        is_plain_selector(third.selector@),
        is_plain_selector(fourth.selector@),
    ensures
        found.0 is Some <==> selector_is_valid(first.selector@),
        found.0 matches Some(elements) ==> elements.deep_view() == matched_elements(
            html@,
            first.selector@,
            first.attribute.deep_view(),
        ),
        found.1 is Some <==> selector_is_valid(second.selector@),
        found.1 matches Some(elements) ==> elements.deep_view() == matched_elements(
            html@,
            second.selector@,
            second.attribute.deep_view(),
        ),
        found.2 is Some <==> selector_is_valid(third.selector@),
        found.2 matches Some(elements) ==> elements.deep_view() == matched_elements(
            html@,
            third.selector@,
            third.attribute.deep_view(),
        ),
        found.3 is Some <==> selector_is_valid(fourth.selector@),
        found.3 matches Some(elements) ==> elements.deep_view() == matched_elements(
            html@,
            fourth.selector@,
            fourth.attribute.deep_view(),
        ),
{
    let document = scraper::Html::parse_document(html);
    let find = |query: Query| {
        let selector = scraper::Selector::parse(query.selector).ok()?;
        let elements = document.select(&selector).map(|element| Element {
            name: element.value().name().to_string(),
            text: element.text().collect(),
            attribute: query.attribute.and_then(|name| element.value().attr(name)).map(str::to_string),
        });
        Some(elements.collect())
    };
    (find(first), find(second), find(third), find(fourth))
}

} // verus!
