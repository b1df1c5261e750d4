use scraper::{ElementRef, Html, Selector};
use vstd::prelude::*;

use crate::extract::{extract_document, result_view, spec_extract};
use crate::model::{DocModel, DocV, EntryV, ExtractionError, Field, TermEntry, TermPair};

verus! {

/// The first text node of the document's first `title` element, or `None`
/// when there is no such element or it holds no text. HTML parsing is a pure
/// function of the text, so the result bears a name.
pub uninterp spec fn title_of(html: Seq<char>) -> Option<Seq<char>>;

/// What the visible term-list container of the document holds: `None` when
/// the container is absent, otherwise one entry per term element in source
/// order, each side the first text node of its sub-element.
pub uninterp spec fn primary_of(html: Seq<char>) -> Option<Seq<EntryV>>;

/// What the hidden fallback block of the document holds: `None` when the
/// block is absent, otherwise the first text node of each of its `span`
/// elements in document order.
pub uninterp spec fn fallback_of(html: Seq<char>) -> Option<Seq<Option<Seq<char>>>>;

/// Everything extraction reads from the page, as one value.
pub open spec fn spec_doc_of(html: Seq<char>) -> DocV {
    DocV { title: title_of(html), primary: primary_of(html), fallback: fallback_of(html) }
}

/// Relies on scraper (Html::parse_document, Selector::parse, select,
/// ElementRef::text): returns the first text node of the first `title`
/// element, a pure function of `html` named `title_of`.
#[verifier::external_body]
fn scan_title(html: &str) -> (t: Option<String>)
    ensures
        t.deep_view() == title_of(html@),
{
    let doc = Html::parse_document(html);
    let sel = Selector::parse("title").unwrap();
    doc.select(&sel).next().and_then(|e| e.text().next().map(|t| t.to_owned()))
}

/// Relies on scraper (Html::parse_document, Selector::parse, select,
/// ElementRef::text): returns, for the first `section.SetPageTerms-termsList`
/// container, one entry per `div[aria-label="Term"]` element in source order,
/// each side the first text node of the entry's first
/// `div.SetPageTerm-smallSide` / `div.SetPageTerm-largeSide` sub-element; or
/// `None` when the container is absent. A pure function of `html`, named
/// `primary_of`.
#[verifier::external_body]
fn scan_primary(html: &str) -> (p: Option<Vec<TermEntry>>)
    ensures
        p.deep_view() == primary_of(html@),
{
    let doc = Html::parse_document(html);
    let sect = Selector::parse("section.SetPageTerms-termsList").unwrap();
    let term = Selector::parse("div[aria-label=\"Term\"]").unwrap();
    let small = Selector::parse("div.SetPageTerm-smallSide").unwrap();
    let large = Selector::parse("div.SetPageTerm-largeSide").unwrap();
    let field = |e: Option<ElementRef>| match e {
        None => Field::Missing,
        Some(e) => e.text().next().map_or(Field::NoText, |t| Field::Text(t.to_owned())),
    };
    let section = doc.select(&sect).next()?;
    Some(section.select(&term).map(
        |d| TermEntry { small: field(d.select(&small).next()), large: field(d.select(&large).next()) },
    ).collect())
}

/// Relies on scraper (Html::parse_document, Selector::parse, select,
/// ElementRef::text): returns, for the first hidden block selected by
/// `div.SetPage-terms > div[style="display:none"]`, the first text node of
/// each of its `span` elements in document order; or `None` when the block is
/// absent. A pure function of `html`, named `fallback_of`.
#[verifier::external_body]
fn scan_fallback(html: &str) -> (f: Option<Vec<Option<String>>>)
    ensures
        f.deep_view() == fallback_of(html@),
{
    let doc = Html::parse_document(html);
    let block = Selector::parse("div.SetPage-terms > div[style=\"display:none\"]").unwrap();
    let span = Selector::parse("span").unwrap();
    let div = doc.select(&block).next()?;
    Some(div.select(&span).map(|s| s.text().next().map(|t| t.to_owned())).collect())
}

/// Extracts the ordered term/definition pairs and the trimmed page title from
/// the raw HTML text of one page, or the first failure met.
pub fn extract(html: &str) -> (r: Result<(Vec<TermPair>, String), ExtractionError>)
    ensures
        result_view(r) == spec_extract(spec_doc_of(html@)),
{
    let doc = DocModel {
        title: scan_title(html),
        primary: scan_primary(html),
        fallback: scan_fallback(html),
    };
    extract_document(&doc)
}

} // verus!
