//! Why a page could not be read.

use vstd::prelude::*;

verus! {

/// The ways in which a page of the site fails to have the expected shape.
/// Each of them ends the crawl that met it.
#[derive(Clone, Copy, Debug, PartialEq, Eq)]
pub enum ScrapeError {
    /// The selector for the page's links could not be read.
    Selector,
    /// The front page has no navigation bar, or one without links.
    MissingNavigation,
    /// A link of the navigation has no address.
    MissingAddress,
    /// A link of the navigation has no text.
    MissingText,
    /// The label in the address of a subcategory is not valid text.
    Label,
}

impl ScrapeError {
    /// A sentence that says what went wrong.
    pub fn message(&self) -> (text: &'static str)
        ensures
            text@ == match *self {
                ScrapeError::Selector => "the selector for the links is malformed"@,
                ScrapeError::MissingNavigation => "the front page has no navigation"@,
                ScrapeError::MissingAddress => "a link has no address"@,
                ScrapeError::MissingText => "a link has no text"@,
                ScrapeError::Label => "the label of a subcategory is not valid text"@,
            },
    {
        match self {
            ScrapeError::Selector => "the selector for the links is malformed",
            ScrapeError::MissingNavigation => "the front page has no navigation",
            ScrapeError::MissingAddress => "a link has no address",
            ScrapeError::MissingText => "a link has no text",
            ScrapeError::Label => "the label of a subcategory is not valid text",
        }
    }
}

} // verus!
