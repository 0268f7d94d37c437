//! Subcategories: the second level of the site's navigation.

use crate::error::ScrapeError;
use crate::html::{document_selection, select, selected_views, Selected, SelectedView};
use crate::text::{
    after_last, from_chars, has_substring, str_contains, tail_after_last, text_view, texts,
    to_chars, trim, trimmed,
};
use vstd::prelude::*;
use vstd::utf8::{decode_utf8, encode_utf8, valid_utf8};

verus! {

/// A subcategory of the site.
#[derive(Clone, Debug, PartialEq)]
pub struct Subcategory {
    /// The name of the subcategory.
    pub name: String,
    /// The kind of subcategory.
    pub kind: SubcategoryKind,
}

/// The kind of a subcategory.
#[derive(Clone, Debug, PartialEq)]
pub enum SubcategoryKind {
    /// A subcategory that gathers the cassettes with one label.
    Label(String),
    /// A subcategory that is a single cassette, given by the address of its post.
    Cassette(String),
}

/// A `SubcategoryKind` as plain values.
pub enum SubcategoryKindView {
    Label(Seq<char>),
    Cassette(Seq<char>),
}

/// A `Subcategory` as plain values.
pub struct SubcategoryView {
    pub name: Seq<char>,
    pub kind: SubcategoryKindView,
}

impl View for SubcategoryKind {
    type V = SubcategoryKindView;

    open spec fn view(&self) -> SubcategoryKindView {
        match *self {
            SubcategoryKind::Label(label) => SubcategoryKindView::Label(label@),
            SubcategoryKind::Cassette(url) => SubcategoryKindView::Cassette(url@),
        }
    }
}

impl View for Subcategory {
    type V = SubcategoryView;

    open spec fn view(&self) -> SubcategoryView {
        SubcategoryView { name: self.name@, kind: self.kind@ }
    }
}

/// The views of a list of subcategories, in order.
pub open spec fn subcategory_views(subcategories: Seq<Subcategory>) -> Seq<SubcategoryView> {
    subcategories.map_values(|s: Subcategory| s@)
}

impl Subcategory {
    /// A copy of the subcategory.
    pub fn duplicate(&self) -> (copy: Subcategory)
        ensures
            copy == *self,
    {
        let kind = match &self.kind {
            SubcategoryKind::Label(label) => SubcategoryKind::Label(label.clone()),
            SubcategoryKind::Cassette(url) => SubcategoryKind::Cassette(url.clone()),
        };
        Subcategory { name: self.name.clone(), kind }
    }
}

/// The view of the outcome of reading subcategories.
pub open spec fn subcategories_view(outcome: Result<Vec<Subcategory>, ScrapeError>) -> Result<
    Seq<SubcategoryView>,
    ScrapeError,
> {
    match outcome {
        Ok(subcategories) => Ok(subcategory_views(subcategories@)),
        Err(e) => Err(e),
    }
}

/// The value of the hexadecimal digit `byte`, where it is one.
pub open spec fn hex_value(byte: u8) -> Option<int> {
    if 0x30 <= byte <= 0x39 {
        Some(byte - 0x30)
    } else if 0x41 <= byte <= 0x46 {
        Some(byte - 0x41 + 10)
    } else if 0x61 <= byte <= 0x66 {
        Some(byte - 0x61 + 10)
    } else {
        None
    }
}

/// `bytes` with each percent sign that two hexadecimal digits follow replaced,
/// together with them, by the byte that the digits write. The bytes are read
/// from the left; every other byte stays.
pub open spec fn percent_decoded(bytes: Seq<u8>) -> Seq<u8>
    decreases bytes.len(),
{
    if bytes.len() == 0 {
        bytes
    } else if bytes[0] == 0x25 && bytes.len() >= 3 && hex_value(bytes[1]) is Some && hex_value(
        bytes[2],
    ) is Some {
        seq![(hex_value(bytes[1])->0 * 16 + hex_value(bytes[2])->0) as u8] + percent_decoded(
            bytes.skip(3),
        )
    } else {
        seq![bytes[0]] + percent_decoded(bytes.skip(1))
    }
}

/// The text that `text` stands for once its percent escapes are resolved, or
/// `None` where the bytes that come out are not UTF-8.
pub open spec fn unescaped(text: Seq<char>) -> Option<Seq<char>> {
    let bytes = percent_decoded(encode_utf8(text));
    if valid_utf8(bytes) {
        Some(decode_utf8(bytes))
    } else {
        None
    }
}

/// Calls `percent_encoding::percent_decode_str` on `text` and reads the bytes
/// as UTF-8 with `PercentDecode::decode_utf8`. The crate replaces a percent
/// sign and the two hexadecimal digits behind it by one byte and passes every
/// other byte on; `decode_utf8` fails exactly where the bytes are not UTF-8.
#[verifier::external_body]
pub(crate) fn unescape(text: &str) -> (plain: Option<String>)
    ensures
        text_view(plain) == unescaped(text@),
{
    match percent_encoding::percent_decode_str(text).decode_utf8() {
        Ok(decoded) => Some(decoded.into_owned()),
        Err(_) => None,
    }
}

/// The subcategory that a link stands for. Its text, trimmed, is the name. An
/// address with `/label/` in it is a search for a label: the label is what
/// follows the last `/`, unescaped. Any other address is that of a cassette.
pub open spec fn subcategory_of(anchor: SelectedView) -> Result<SubcategoryView, ScrapeError> {
    match anchor.text {
        None => Err(ScrapeError::MissingText),
        Some(text) => match anchor.attribute {
            None => Err(ScrapeError::MissingAddress),
            Some(href) => if has_substring(href, "/label/"@) {
                match unescaped(after_last(href, '/')) {
                    Some(label) => Ok(
                        SubcategoryView {
                            name: trimmed(text),
                            kind: SubcategoryKindView::Label(label),
                        },
                    ),
                    None => Err(ScrapeError::Label),
                }
            } else {
                Ok(SubcategoryView { name: trimmed(text), kind: SubcategoryKindView::Cassette(href) })
            },
        },
    }
}

/// The subcategories after the links `anchors` have been read in order,
/// starting with `found`: one for each link, or the error of the first link
/// that stands for none.
pub open spec fn subcategories_after(
    found: Seq<SubcategoryView>,
    anchors: Seq<SelectedView>,
) -> Result<Seq<SubcategoryView>, ScrapeError>
    decreases anchors.len(),
{
    if anchors.len() == 0 {
        Ok(found)
    } else {
        match subcategory_of(anchors[0]) {
            Ok(subcategory) => subcategories_after(found.push(subcategory), anchors.drop_first()),
            Err(e) => Err(e),
        }
    }
}

/// The subcategories that the links `anchors` of a category's page give.
pub open spec fn subcategories_of(anchors: Seq<SelectedView>) -> Result<
    Seq<SubcategoryView>,
    ScrapeError,
> {
    subcategories_after(Seq::empty(), anchors)
}

/// The view of the outcome of reading one subcategory.
pub open spec fn subcategory_view(outcome: Result<Subcategory, ScrapeError>) -> Result<
    SubcategoryView,
    ScrapeError,
> {
    match outcome {
        Ok(subcategory) => Ok(subcategory@),
        Err(e) => Err(e),
    }
}

/// Reads the subcategory that a link stands for.
pub fn subcategory_from_anchor(anchor: &Selected) -> (outcome: Result<Subcategory, ScrapeError>)
    ensures
        subcategory_view(outcome) == subcategory_of(anchor@),
{
    let text: &String = match &anchor.text {
        Some(text) => text,
        None => {
            return Err(ScrapeError::MissingText);
        },
    };
    let href: &String = match &anchor.attribute {
        Some(href) => href,
        None => {
            return Err(ScrapeError::MissingAddress);
        },
    };
    let name = from_chars(&trim(&to_chars(text.as_str())));
    if str_contains(href.as_str(), "/label/") {
        let raw = from_chars(&tail_after_last(&to_chars(href.as_str()), '/'));
        match unescape(raw.as_str()) {
            Some(label) => Ok(Subcategory { name, kind: SubcategoryKind::Label(label) }),
            None => Err(ScrapeError::Label),
        }
    } else {
        Ok(Subcategory { name, kind: SubcategoryKind::Cassette(href.clone()) })
    }
}

/// Reads the subcategories from the links of a category's page, each given
/// by its address and its text, in the order of the page.
pub fn subcategories_from_anchors(anchors: &Vec<Selected>) -> (outcome: Result<
    Vec<Subcategory>,
    ScrapeError,
>)
    ensures
        subcategories_view(outcome) == subcategories_of(selected_views(anchors@)),
{
    let mut found: Vec<Subcategory> = Vec::new();
    let ghost all = selected_views(anchors@);
    let mut i: usize = 0;
    proof {
        assert(all.skip(0) =~= all);
        assert(subcategory_views(found@) =~= Seq::empty());
    }
    while i < anchors.len()
        invariant
            i <= anchors.len(),
            all == selected_views(anchors@),
            subcategories_after(subcategory_views(found@), all.skip(i as int)) == subcategories_of(
                all,
            ),
        decreases anchors.len() - i,
    {
        proof {
            assert(all.skip(i as int)[0] == anchors@[i as int]@);
            assert(all.skip(i as int).drop_first() =~= all.skip(i + 1));
        }
        match subcategory_from_anchor(&anchors[i]) {
            Ok(subcategory) => {
                let ghost earlier = subcategory_views(found@);
                found.push(subcategory);
                assert(subcategory_views(found@) =~= earlier.push(subcategory@));
            },
            Err(e) => {
                return Err(e);
            },
        }
        i += 1;
    }
    Ok(found)
}

/// Extracts the list of subcategories from the page of a category: the links
/// under its headings of favourite posts, read as
/// `subcategories_from_anchors` reads them.
pub fn scrape_subcategories(document: &str) -> (outcome: Result<Vec<Subcategory>, ScrapeError>)
    ensures
        subcategories_view(outcome) == page_subcategories(document@),
{
    match select(document, "div.post-body h1.favourite-posts-title a", "href") {
        Ok(anchors) => subcategories_from_anchors(&anchors),
        Err(e) => Err(e),
    }
}

/// The subcategories of one category's page, as `scrape_subcategories`
/// reads them.
pub open spec fn page_subcategories(document: Seq<char>) -> Result<Seq<SubcategoryView>, ScrapeError> {
    match document_selection(document, "div.post-body h1.favourite-posts-title a"@, "href"@) {
        Some(anchors) => subcategories_of(anchors),
        None => Err(ScrapeError::Selector),
    }
}

/// The subcategories of the pages `pages`, one page after the other, behind
/// `found`; or the error of the first page that cannot be read.
pub open spec fn gathered_after(found: Seq<SubcategoryView>, pages: Seq<Seq<char>>) -> Result<
    Seq<SubcategoryView>,
    ScrapeError,
>
    decreases pages.len(),
{
    if pages.len() == 0 {
        Ok(found)
    } else {
        match page_subcategories(pages[0]) {
            Ok(subcategories) => gathered_after(found + subcategories, pages.drop_first()),
            Err(e) => Err(e),
        }
    }
}

/// Reads the subcategories of all categories from the pages of the
/// categories, in the order in which the pages are given. Subcategories that
/// several pages share stand once for each page. One page that cannot be
/// read fails the whole.
pub fn gather_subcategories(pages: &Vec<String>) -> (outcome: Result<Vec<Subcategory>, ScrapeError>)
    ensures
        subcategories_view(outcome) == gathered_after(Seq::empty(), texts(pages@)),
{
    let mut found: Vec<Subcategory> = Vec::new();
    let ghost all = texts(pages@);
    let mut i: usize = 0;
    proof {
        assert(all.skip(0) =~= all);
        assert(subcategory_views(found@) =~= Seq::empty());
    }
    while i < pages.len()
        invariant
            i <= pages.len(),
            all == texts(pages@),
            gathered_after(subcategory_views(found@), all.skip(i as int)) == gathered_after(
                Seq::empty(),
                all,
            ),
        decreases pages.len() - i,
    {
        proof {
            assert(all.skip(i as int)[0] == pages@[i as int]@);
            assert(all.skip(i as int).drop_first() =~= all.skip(i + 1));
        }
        match scrape_subcategories(pages[i].as_str()) {
            Ok(mut subcategories) => {
                let ghost earlier = subcategory_views(found@);
                let ghost added = subcategory_views(subcategories@);
                found.append(&mut subcategories);
                assert(subcategory_views(found@) =~= earlier + added);
            },
            Err(e) => {
                return Err(e);
            },
        }
        i += 1;
    }
    Ok(found)
}

/// What reading links one after the other comes to: behind what was there,
/// one subcategory for each link, in order and with nothing left out, or
/// the error of the first link that stands for none.
pub proof fn lemma_subcategories_after(found: Seq<SubcategoryView>, anchors: Seq<SelectedView>)
    ensures
        match subcategories_after(found, anchors) {
            Ok(all) => {
                &&& all.len() == found.len() + anchors.len()
                &&& all.take(found.len() as int) == found
                &&& forall|i: int|
                    0 <= i < anchors.len() ==> subcategory_of(#[trigger] anchors[i]) == Ok::<
                        SubcategoryView,
                        ScrapeError,
                    >(all[found.len() + i])
            },
            Err(e) => exists|at: int|
                {
                    &&& 0 <= at < anchors.len()
                    &&& subcategory_of(#[trigger] anchors[at]) == Err::<
                        SubcategoryView,
                        ScrapeError,
                    >(e)
                    &&& forall|j: int| 0 <= j < at ==> subcategory_of(#[trigger] anchors[j]) is Ok
                },
        },
    decreases anchors.len(),
{
    if anchors.len() == 0 {
        assert(found.take(found.len() as int) =~= found);
    } else {
        match subcategory_of(anchors[0]) {
            Ok(subcategory) => {
                let grown = found.push(subcategory);
                let rest = anchors.drop_first();
                lemma_subcategories_after(grown, rest);
                match subcategories_after(grown, rest) {
                    Ok(all) => {
                        assert(all.take(found.len() as int) =~= all.take(grown.len() as int).take(
                            found.len() as int,
                        ));
                        assert(grown.take(found.len() as int) =~= found);
                        assert(all[found.len() as int] == all.take(grown.len() as int)[found.len() as int]);
                        assert forall|i: int| 0 <= i < anchors.len() implies subcategory_of(
                            #[trigger] anchors[i],
                        ) == Ok::<SubcategoryView, ScrapeError>(all[found.len() + i]) by {
                            if i > 0 {
                                assert(rest[i - 1] == anchors[i]);
                            }
                        }
                    },
                    Err(e) => {
                        let at = choose|at: int|
                            {
                                &&& 0 <= at < rest.len()
                                &&& subcategory_of(#[trigger] rest[at]) == Err::<
                                    SubcategoryView,
                                    ScrapeError,
                                >(e)
                                &&& forall|j: int|
                                    0 <= j < at ==> subcategory_of(#[trigger] rest[j]) is Ok
                            };
                        assert(anchors[at + 1] == rest[at]);
                        assert forall|j: int| 0 <= j < at + 1 implies subcategory_of(
                            #[trigger] anchors[j],
                        ) is Ok by {
                            if j > 0 {
                                assert(rest[j - 1] == anchors[j]);
                            }
                        }
                    },
                }
            },
            Err(e) => {},
        }
    }
}

} // verus!
