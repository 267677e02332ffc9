//! HTML documents, parsed and queried with CSS selectors by the `scraper`
//! crate. The library sees a selected element as plain values: its text, the
//! attributes it was asked for, and its outer HTML.
use vstd::prelude::*;
use crate::text::views;
use scraper::{Html, Selector, ElementRef};

verus! {

/// An element picked from a document: the concatenation of its text nodes,
/// the values of the requested attributes (in the order requested), and its
/// outer HTML.
#[derive(Debug, Clone)]
pub struct HtmlElement {
    pub text: String,
    pub attrs: Vec<Option<String>>,
    pub html: String,
}

/// An element matched by the outer selector, with the elements each inner
/// selector matches among its descendants (`None` for an inner selector the
/// crate rejects).
#[derive(Debug, Clone)]
pub struct Picked {
    pub element: HtmlElement,
    pub inner: Vec<Option<Vec<HtmlElement>>>,
}

/// An element as plain values.
pub type ElementView = (Seq<char>, Seq<Option<Seq<char>>>, Seq<char>);

/// The plain values of an element.
pub open spec fn element_view(e: HtmlElement) -> ElementView {
    (e.text@, crate::regex_ext::opt_views(e.attrs@), e.html@)
}

/// The plain values of a list of elements.
pub open spec fn elements_view(v: Seq<HtmlElement>) -> Seq<ElementView> {
    v.map_values(|e: HtmlElement| element_view(e))
}

/// The plain values of a picked element.
pub open spec fn picked_view(p: Picked) -> (ElementView, Seq<Option<Seq<ElementView>>>) {
    (element_view(p.element), p.inner@.map_values(|o: Option<Vec<HtmlElement>>| match o {
        Some(v) => Some(elements_view(v@)),
        None => None,
    }))
}

/// What the `scraper` crate (built with its `deterministic` feature, so that an
/// element's attributes keep their order in the document and its outer HTML
/// is the same on every call) finds when `document` is parsed with
/// `Html::parse_document`, `selector` with `Selector::parse`, and the
/// document's matches are taken in document order, each with the requested
/// attributes (`ElementRef::attr`) and what each inner selector matches below
/// it (`ElementRef::select`); the `Debug` text of the parse error when the
/// outer selector is rejected.
pub uninterp spec fn html_picked(document: Seq<char>, selector: Seq<char>, attr_names: Seq<Seq<char>>, inner: Seq<Seq<char>>) -> Result<Seq<(ElementView, Seq<Option<Seq<ElementView>>>)>, Seq<char>>;

/// Wraps `Html::parse_document`, `Selector::parse`, `Html::select`,
/// `ElementRef::text`, `ElementRef::attr`, `ElementRef::html` and
/// `ElementRef::select`; the result is named `html_picked` of the arguments.
#[verifier::external_body]
pub fn html_pick(document: &str, selector: &str, attr_names: &[String], inner: &[String]) -> (r: Result<Vec<Picked>, String>)
    ensures
        match r {
            Ok(v) => html_picked(document@, selector@, views(attr_names@), views(inner@))
                == Ok::<_, Seq<char>>(v@.map_values(|p: Picked| picked_view(p))),
            Err(e) => html_picked(document@, selector@, views(attr_names@), views(inner@))
                == Err::<Seq<(ElementView, Seq<Option<Seq<ElementView>>>)>, Seq<char>>(e@),
        },
{
    let doc = Html::parse_document(document);
    let sel = Selector::parse(selector).map_err(|e| format!("{e:?}"))?;
    let conv = |e: ElementRef| HtmlElement { text: e.text().collect(), html: e.html(),
        attrs: attr_names.iter().map(|a| e.attr(a).map(String::from)).collect() };
    Ok(doc.select(&sel).map(|e| Picked { element: conv(e), inner: inner.iter()
        .map(|s| Selector::parse(s).ok().map(|s| e.select(&s).map(conv).collect())).collect() }).collect())
}

} // verus!
