//! HTML pages, and what the `scraper` crate selects from them.

use scraper::{ElementRef, Html, Selector};
use vstd::prelude::*;

verus! {

/// One element of a page.
#[derive(Debug, PartialEq)]
pub struct Element {
    /// All text in it.
    pub text: String,
    pub href: Option<String>,
    pub class: Option<String>,
}

/// What `Element` holds.
#[verifier::ext_equal]
pub struct ElementView {
    pub text: Seq<char>,
    pub href: Option<Seq<char>>,
    pub class: Option<Seq<char>>,
}

impl DeepView for Element {
    type V = ElementView;

    open spec fn deep_view(&self) -> ElementView {
        ElementView {
            text: self.text@,
            href: self.href.deep_view(),
            class: self.class.deep_view(),
        }
    }
}

/// A selected element, and the first match in it of each of several selectors.
#[derive(Debug, PartialEq)]
pub struct Row {
    pub own: Element,
    pub parts: Vec<Option<Element>>,
}

/// What `Row` holds.
#[verifier::ext_equal]
pub struct RowView {
    pub own: ElementView,
    pub parts: Seq<Option<ElementView>>,
}

impl DeepView for Row {
    type V = RowView;

    open spec fn deep_view(&self) -> RowView {
        RowView { own: self.own.deep_view(), parts: self.parts.deep_view() }
    }
}

impl RowView {
    /// The match of selector `i`.
    pub open spec fn part(self, i: int) -> Option<ElementView> {
        if 0 <= i < self.parts.len() {
            self.parts[i]
        } else {
            None
        }
    }
}

impl Row {
    /// The match of selector `i`.
    pub fn part(&self, i: usize) -> (r: Option<&Element>)
        ensures
            match r {
                Some(e) => self.deep_view().part(i as int) == Some(e.deep_view()),
                None => self.deep_view().part(i as int) is None,
            },
    {
        if i < self.parts.len() {
            assert(self.parts.deep_view()[i as int] == self.parts@[i as int].deep_view());
            match &self.parts[i] {
                Some(e) => Some(e),
                None => None,
            }
        } else {
            None
        }
    }
}

/// Whether `scraper::Selector::parse` accepts a CSS selector.
pub uninterp spec fn selector_ok(css: Seq<char>) -> bool;

/// What the `scraper` crate selects from a page: each match of `item`, in document order,
/// with the first match in it of each of `parts`. Nothing where `item` is not accepted, and
/// no match for a part that is not.
pub uninterp spec fn page_rows(
    html: Seq<char>,
    item: Seq<char>,
    parts: Seq<Seq<char>>,
) -> Seq<RowView>;

/// `scraper::Selector::parse`: whether it accepts depends on the selector alone.
#[verifier::external_body]
pub(crate) fn valid_selector(css: &str) -> (r: bool)
    ensures
        r == selector_ok(css@),
{
    Selector::parse(css).is_ok()
}

/// `scraper::Html::parse_document` and `select`: the text, the `href` and the `class` of
/// what is selected depend on the page and the selectors alone.
#[verifier::external_body]
pub(crate) fn select_rows(html: &str, item: &str, parts: &Vec<String>) -> (r: Vec<Row>)
    ensures
        r.deep_view() == page_rows(html@, item@, parts.deep_view()),
{
    let Ok(item) = Selector::parse(item) else {
        return Vec::new();
    };
    let attr = |e: &ElementRef, name: &str| e.value().attr(name).map(str::to_string);
    let read = |e: ElementRef| {
        Element { text: e.text().collect(), href: attr(&e, "href"), class: attr(&e, "class") }
    };
    Html::parse_document(html)
        .select(&item)
        .map(|e| {
            let first = |p| Selector::parse(p).ok().and_then(|s| e.select(&s).next().map(read));
            Row { own: read(e), parts: parts.iter().map(|p| first(p.as_str())).collect() }
        })
        .collect()
}

/// `parts` as owned texts.
pub(crate) fn selectors(parts: [&str; 3]) -> (r: Vec<String>)
    ensures
        r.deep_view() == seq![parts@[0]@, parts@[1]@, parts@[2]@],
{
    let mut out: Vec<String> = Vec::new();
    out.push(parts[0].to_owned());
    out.push(parts[1].to_owned());
    out.push(parts[2].to_owned());
    assert(out.deep_view() =~= seq![parts@[0]@, parts@[1]@, parts@[2]@]);
    out
}

} // verus!
