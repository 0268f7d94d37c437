//! What the extraction reads of a page: the elements that a selector matches,
//! each reduced to one attribute and its first text.
//!
//! Parsing markup and matching selectors is the work of `scraper`. This module
//! hands a page to it and takes plain values back; which elements a page
//! holds is named, not defined, on this side.

use crate::error::ScrapeError;
use crate::text::text_view;
use vstd::prelude::*;

verus! {

/// An element of a page, reduced to what the extraction reads of it.
#[derive(Debug, Clone, PartialEq)]
pub struct Selected {
    /// The value of the attribute that was asked for, where the element has it.
    pub attribute: Option<String>,
    /// The first piece of text inside the element, where there is any.
    pub text: Option<String>,
}

/// A `Selected` as plain values.
pub struct SelectedView {
    pub attribute: Option<Seq<char>>,
    pub text: Option<Seq<char>>,
}

impl View for Selected {
    type V = SelectedView;

    open spec fn view(&self) -> SelectedView {
        SelectedView { attribute: text_view(self.attribute), text: text_view(self.text) }
    }
}

/// The views of a list of elements, in order.
pub open spec fn selected_views(elements: Seq<Selected>) -> Seq<SelectedView> {
    elements.map_values(|e: Selected| e@)
}

/// The views of the outcome of a selection.
pub open spec fn selection_view(found: Option<Vec<Selected>>) -> Option<Seq<SelectedView>> {
    match found {
        Some(elements) => Some(selected_views(elements@)),
        None => None,
    }
}

/// The elements of the document `document` that the selector `selector`
/// matches, in document order, each with its attribute `attribute` and its
/// first text; `None` where `selector` is no selector.
pub uninterp spec fn document_selection(
    document: Seq<char>,
    selector: Seq<char>,
    attribute: Seq<char>,
) -> Option<Seq<SelectedView>>;

/// The same for markup that is a fragment of a document's body.
pub uninterp spec fn fragment_selection(
    fragment: Seq<char>,
    selector: Seq<char>,
    attribute: Seq<char>,
) -> Option<Seq<SelectedView>>;

/// Parses `document` with `scraper::Html::parse_document`, parses `selector`
/// with `scraper::Selector::parse`, and walks `Html::select`; of each element
/// it keeps `Element::attr(attribute)` and the first item of
/// `ElementRef::text`. The contract claims only that the outcome is a function
/// of the three texts.
#[verifier::external_body]
pub(crate) fn select_in_document(document: &str, selector: &str, attribute: &str) -> (found: Option<
    Vec<Selected>,
>)
    ensures
        selection_view(found) == document_selection(document@, selector@, attribute@),
{
    let selector = scraper::Selector::parse(selector).ok()?;
    let html = scraper::Html::parse_document(document);
    let elements = html.select(&selector).map(|e| Selected {
        attribute: e.value().attr(attribute).map(str::to_owned),
        text: e.text().next().map(str::to_owned),
    });
    Some(elements.collect())
}

/// As `select_in_document`, with `scraper::Html::parse_fragment` in place of
/// `parse_document`.
#[verifier::external_body]
pub(crate) fn select_in_fragment(fragment: &str, selector: &str, attribute: &str) -> (found: Option<
    Vec<Selected>,
>)
    ensures
        selection_view(found) == fragment_selection(fragment@, selector@, attribute@),
{
    let selector = scraper::Selector::parse(selector).ok()?;
    let html = scraper::Html::parse_fragment(fragment);
    let elements = html.select(&selector).map(|e| Selected {
        attribute: e.value().attr(attribute).map(str::to_owned),
        text: e.text().next().map(str::to_owned),
    });
    Some(elements.collect())
}

/// The elements of the document `document` that the selector `selector`
/// matches, in the order of the document, each with its attribute
/// `attribute` and its first text. Fails where `selector` is no selector.
pub fn select(document: &str, selector: &str, attribute: &str) -> (outcome: Result<
    Vec<Selected>,
    ScrapeError,
>)
    ensures
        match outcome {
            Ok(elements) => document_selection(document@, selector@, attribute@) == Some(
                selected_views(elements@),
            ),
            Err(e) => e == ScrapeError::Selector && document_selection(
                document@,
                selector@,
                attribute@,
            ) is None,
        },
{
    match select_in_document(document, selector, attribute) {
        Some(elements) => Ok(elements),
        None => Err(ScrapeError::Selector),
    }
}

} // verus!
