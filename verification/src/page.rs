//! Reading a fetched page: its titles and the link targets under a selector.
use vstd::prelude::*;
use vstd::string::*;
use crate::listing::{join, joined};
use crate::text::{fix_whitespace, normalized};

verus! {

/// For each element of the document `html` that the CSS selector `selector`
/// selects, in the order in which the selection yields them, the texts of
/// its descendant text nodes. `None` where `selector` is no CSS selector.
pub uninterp spec fn selected_texts(html: Seq<char>, selector: Seq<char>) -> Option<
    Seq<Seq<Seq<char>>>,
>;

/// For each element of the document `html` that the CSS selector `selector`
/// selects, in the order in which the selection yields them, the value of
/// its attribute `attr`, where it has one. `None` where `selector` is no CSS
/// selector.
pub uninterp spec fn selected_attrs(html: Seq<char>, selector: Seq<char>, attr: Seq<char>) -> Option<
    Seq<Option<Seq<char>>>,
>;

/// Calls `scraper::Selector::parse`, `scraper::Html::parse_document` and
/// `Html::select`, and reads each match with `ElementRef::text`. Nothing is
/// claimed of the outcome but that it is the one `selected_texts` names.
#[verifier::external_body]
pub(crate) fn select_texts(html: &str, selector: &str) -> (r: Option<Vec<Vec<String>>>)
    ensures
        r.deep_view() == selected_texts(html@, selector@),
{
    match scraper::Selector::parse(selector) {
        Ok(sel) => Some(
            scraper::Html::parse_document(html).select(&sel).map(
                |e| e.text().map(str::to_owned).collect(),
            ).collect(),
        ),
        Err(_) => None,
    }
}

/// Calls `scraper::Selector::parse`, `scraper::Html::parse_document` and
/// `Html::select`, and reads each match with `ElementRef::attr`. Nothing is
/// claimed of the outcome but that it is the one `selected_attrs` names.
#[verifier::external_body]
pub(crate) fn select_attrs(html: &str, selector: &str, attr: &str) -> (r: Option<Vec<Option<String>>>)
    ensures
        r.deep_view() == selected_attrs(html@, selector@, attr@),
{
    match scraper::Selector::parse(selector) {
        Ok(sel) => Some(
            scraper::Html::parse_document(html).select(&sel).map(
                |e| e.attr(attr).map(str::to_owned),
            ).collect(),
        ),
        Err(_) => None,
    }
}

/// The title that the first of the found elements gives: its text nodes
/// joined by `sep`, then normalised. `None` where nothing was found.
pub open spec fn title_of(found: Option<Seq<Seq<Seq<char>>>>, sep: Seq<char>) -> Option<Seq<char>> {
    match found {
        Some(elements) => if elements.len() > 0 {
            Some(normalized(joined(elements[0], sep)))
        } else {
            None
        },
        None => None,
    }
}

/// The page title of a document: the title of its first `title` element,
/// empty where it has none.
pub open spec fn page_title_of(html: Seq<char>) -> Seq<char> {
    match title_of(selected_texts(html, "title"@), ""@) {
        Some(t) => t,
        None => Seq::empty(),
    }
}

/// The article title of a document: the title of the first `h1` inside an
/// `article`, else that of the first `h1` anywhere, else empty.
pub open spec fn article_title_of(html: Seq<char>) -> Seq<char> {
    match title_of(selected_texts(html, "article h1"@), " "@) {
        Some(t) => t,
        None => match title_of(selected_texts(html, "h1"@), " "@) {
            Some(t) => t,
            None => Seq::empty(),
        },
    }
}

/// The title that the first of the found elements gives.
pub fn first_title(found: &Option<Vec<Vec<String>>>, sep: &str) -> (r: Option<String>)
    ensures
        r.deep_view() == title_of(found.deep_view(), sep@),
{
    match found {
        Some(elements) => {
            if elements.len() > 0 {
                assert(found.deep_view().unwrap()[0] == elements@[0].deep_view());
                Some(fix_whitespace(join(&elements[0], sep)))
            } else {
                None
            }
        },
        None => None,
    }
}

/// Reads the page title of a document.
pub fn page_title(html: &str) -> (r: String)
    ensures
        r@ == page_title_of(html@),
{
    match first_title(&select_texts(html, "title"), "") {
        Some(t) => t,
        None => String::new(),
    }
}

/// Reads the article title of a document.
pub fn article_title(html: &str) -> (r: String)
    ensures
        r@ == article_title_of(html@),
{
    match first_title(&select_texts(html, "article h1"), " ") {
        Some(t) => t,
        None => match first_title(&select_texts(html, "h1"), " ") {
            Some(t) => t,
            None => String::new(),
        },
    }
}

} // verus!
