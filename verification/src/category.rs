//! Categories: the first level of the site's navigation, read from the
//! navigation bar of the front page.

use crate::error::ScrapeError;
use crate::html::{document_selection, select, selected_views, Selected, SelectedView};
use crate::text::{
    append, from_chars, has_substring, str_contains, strip_leading, to_chars, trim, trimmed,
    without_leading,
};
use vstd::prelude::*;

verus! {

/// A top level category of the site.
#[derive(Debug, Clone, PartialEq)]
pub struct Category {
    /// The name of the category.
    pub name: String,
    /// The address of the page that lists the category's subcategories.
    pub url: String,
}

/// A `Category` as plain values.
pub struct CategoryView {
    pub name: Seq<char>,
    pub url: Seq<char>,
}

impl View for Category {
    type V = CategoryView;

    open spec fn view(&self) -> CategoryView {
        CategoryView { name: self.name@, url: self.url@ }
    }
}

/// The views of a list of categories, in order.
pub open spec fn category_views(categories: Seq<Category>) -> Seq<CategoryView> {
    categories.map_values(|c: Category| c@)
}

/// The view of the outcome of reading the categories.
pub open spec fn categories_view(outcome: Result<Vec<Category>, ScrapeError>) -> Result<
    Seq<CategoryView>,
    ScrapeError,
> {
    match outcome {
        Ok(categories) => Ok(category_views(categories@)),
        Err(e) => Err(e),
    }
}

/// The small letter sigma as it is written inside a word.
pub const SIGMA: char = '\u{3c3}';

/// The small letter sigma as it is written at the end of a word.
pub const FINAL_SIGMA: char = '\u{3c2}';

/// The characters that `c` becomes in upper case, as `char::to_uppercase`
/// gives them. The mapping is a table of the Unicode character database.
pub uninterp spec fn upper_case(c: char) -> Seq<char>;

/// The characters that `c` becomes in lower case, as `char::to_lowercase`
/// gives them.
pub uninterp spec fn lower_case(c: char) -> Seq<char>;

/// Collects what `char::to_uppercase` yields for `c`. The contract claims
/// only that it depends on `c` alone.
#[verifier::external_body]
pub(crate) fn to_upper(c: char) -> (mapped: Vec<char>)
    ensures
        mapped@ == upper_case(c),
{
    c.to_uppercase().collect()
}

/// Collects what `char::to_lowercase` yields for `c`. The contract claims
/// only that it depends on `c` alone.
#[verifier::external_body]
pub(crate) fn to_lower(c: char) -> (mapped: Vec<char>)
    ensures
        mapped@ == lower_case(c),
{
    c.to_lowercase().collect()
}

/// `s` with each character in lower case.
pub open spec fn lowered(s: Seq<char>) -> Seq<char>
    decreases s.len(),
{
    if s.len() == 0 {
        s
    } else {
        lowered(s.drop_last()) + lower_case(s.last())
    }
}

/// `s` with its first character in upper case and the others in lower case.
pub open spec fn capitalized(s: Seq<char>) -> Seq<char> {
    if s.len() == 0 {
        s
    } else {
        upper_case(s[0]) + lowered(s.drop_first())
    }
}

/// `s` with a sigma at its end written in the final form.
pub open spec fn with_final_sigma(s: Seq<char>) -> Seq<char> {
    if s.len() > 0 && s.last() == SIGMA {
        s.drop_last().push(FINAL_SIGMA)
    } else {
        s
    }
}

/// The name of a category whose link reads `text`: the text without white
/// space around it and without the underscores that mark an item of a
/// drop-down menu, capitalized, a sigma at its end in the final form.
pub open spec fn normalized_name(text: Seq<char>) -> Seq<char> {
    with_final_sigma(capitalized(without_leading(trimmed(text), '_')))
}

/// The address `url` has the shape of a category's page.
pub open spec fn is_category_address(url: Seq<char>) -> bool {
    has_substring(url, "/p/"@)
}

/// One of `categories` has the address `url`.
pub open spec fn has_address(categories: Seq<CategoryView>, url: Seq<char>) -> bool {
    exists|i: int| 0 <= i < categories.len() && #[trigger] categories[i].url == url
}

/// The categories after the links `anchors` have been read in order,
/// starting with `found`. A link without an address is an error. A link
/// counts if its address has the shape of a category's page and no category
/// in hand has that address; such a link without text is an error.
pub open spec fn categories_after(found: Seq<CategoryView>, anchors: Seq<SelectedView>) -> Result<
    Seq<CategoryView>,
    ScrapeError,
>
    decreases anchors.len(),
{
    if anchors.len() == 0 {
        Ok(found)
    } else {
        match anchors[0].attribute {
            None => Err(ScrapeError::MissingAddress),
            Some(url) => if is_category_address(url) && !has_address(found, url) {
                match anchors[0].text {
                    None => Err(ScrapeError::MissingText),
                    Some(text) => categories_after(
                        found.push(CategoryView { name: normalized_name(text), url }),
                        anchors.drop_first(),
                    ),
                }
            } else {
                categories_after(found, anchors.drop_first())
            },
        }
    }
}

/// The categories that the links `anchors` of a navigation bar give. A
/// navigation bar without links is an error.
pub open spec fn categories_of(anchors: Seq<SelectedView>) -> Result<
    Seq<CategoryView>,
    ScrapeError,
> {
    if anchors.len() == 0 {
        Err(ScrapeError::MissingNavigation)
    } else {
        categories_after(Seq::empty(), anchors)
    }
}

/// Writes the name of a category from the text of its link.
pub fn normalize_name(text: &str) -> (name: String)
    ensures
        name@ == normalized_name(text@),
{
    let raw = strip_leading(&trim(&to_chars(text)), '_');
    let mut cased: Vec<char> = Vec::new();
    if raw.len() > 0 {
        cased = to_upper(raw[0]);
        let ghost head = cased@;
        let mut i: usize = 1;
        assert(raw@.drop_first().take(0) =~= Seq::<char>::empty());
        assert(cased@ =~= head + lowered(raw@.drop_first().take(0)));
        while i < raw.len()
            invariant
                1 <= i <= raw.len(),
                head == upper_case(raw@[0]),
                cased@ == head + lowered(raw@.drop_first().take(i - 1)),
            decreases raw.len() - i,
        {
            let ghost before = raw@.drop_first().take(i - 1);
            let ghost now = raw@.drop_first().take(i as int);
            let low = to_lower(raw[i]);
            append(&mut cased, &low);
            proof {
                assert(now.drop_last() =~= before);
                assert(now.last() == raw@[i as int]);
                assert(cased@ =~= head + lowered(now));
            }
            i += 1;
        }
        assert(raw@.drop_first().take(raw@.len() - 1) =~= raw@.drop_first());
    }
    let n: usize = cased.len();
    if n > 0 && cased[n - 1] == SIGMA {
        let ghost full = cased@;
        cased.pop();
        cased.push(FINAL_SIGMA);
        assert(cased@ =~= full.drop_last().push(FINAL_SIGMA));
    }
    from_chars(&cased)
}

/// Tells whether one of `categories` has the address `url`.
pub fn has_category(categories: &Vec<Category>, url: &String) -> (found: bool)
    ensures
        found == has_address(category_views(categories@), url@),
{
    let mut i: usize = 0;
    while i < categories.len()
        invariant
            i <= categories.len(),
            forall|j: int| 0 <= j < i ==> category_views(categories@)[j].url != url@,
        decreases categories.len() - i,
    {
        if categories[i].url == *url {
            assert(category_views(categories@)[i as int].url == url@);
            return true;
        }
        i += 1;
    }
    false
}

/// Reads the categories from the links of the navigation bar, each given by
/// its address and its text, in the order of the page.
pub fn categories_from_anchors(anchors: &Vec<Selected>) -> (outcome: Result<
    Vec<Category>,
    ScrapeError,
>)
    ensures
        categories_view(outcome) == categories_of(selected_views(anchors@)),
{
    if anchors.len() == 0 {
        return Err(ScrapeError::MissingNavigation);
    }
    let mut found: Vec<Category> = Vec::new();
    let ghost all = selected_views(anchors@);
    let mut i: usize = 0;
    proof {
        assert(all.skip(0) =~= all);
        assert(category_views(found@) =~= Seq::empty());
    }
    while i < anchors.len()
        invariant
            i <= anchors.len(),
            all == selected_views(anchors@),
            all.len() > 0,
            categories_after(category_views(found@), all.skip(i as int)) == categories_of(all),
        decreases anchors.len() - i,
    {
        let anchor = &anchors[i];
        proof {
            assert(all.skip(i as int)[0] == anchor@);
            assert(all.skip(i as int).drop_first() =~= all.skip(i + 1));
        }
        match &anchor.attribute {
            None => {
                return Err(ScrapeError::MissingAddress);
            },
            Some(url) => {
                if str_contains(url.as_str(), "/p/") && !has_category(&found, url) {
                    match &anchor.text {
                        None => {
                            return Err(ScrapeError::MissingText);
                        },
                        Some(text) => {
                            let ghost earlier = category_views(found@);
                            let category = Category {
                                name: normalize_name(text.as_str()),
                                url: url.clone(),
                            };
                            found.push(category);
                            assert(category_views(found@) =~= earlier.push(category@));
                        },
                    }
                }
            },
        }
        i += 1;
    }
    Ok(found)
}

/// The categories of the front page `document`: those that the links of its
/// navigation bar give.
pub open spec fn page_categories(document: Seq<char>) -> Result<Seq<CategoryView>, ScrapeError> {
    match document_selection(document, "ul#nav2 li a"@, "href"@) {
        Some(anchors) => categories_of(anchors),
        None => Err(ScrapeError::Selector),
    }
}

/// Extracts the list of categories from the front page of the site: the
/// links of its navigation bar, read as `categories_from_anchors` reads them.
pub fn scrape_categories(document: &str) -> (outcome: Result<Vec<Category>, ScrapeError>)
    ensures
        categories_view(outcome) == page_categories(document@),
{
    match select(document, "ul#nav2 li a", "href") {
        Ok(anchors) => categories_from_anchors(&anchors),
        Err(e) => Err(e),
    }
}

/// The name of a category never ends in a sigma of the inner form: where the
/// capitalized text ends in one, the name is that text with the final form
/// in its place, and otherwise the name is that text.
pub proof fn lemma_name_ends_in_final_sigma(text: Seq<char>)
    ensures
        normalized_name(text).len() > 0 ==> normalized_name(text).last() != SIGMA,
        normalized_name(text).len() == capitalized(without_leading(trimmed(text), '_')).len(),
        ({
            let cased = capitalized(without_leading(trimmed(text), '_'));
            if cased.len() > 0 && cased.last() == SIGMA {
                normalized_name(text) == cased.drop_last().push(FINAL_SIGMA)
            } else {
                normalized_name(text) == cased
            }
        }),
{
}

/// The position of the first of `anchors` whose address is `url`, or their
/// number where none has it.
pub open spec fn first_link_to(anchors: Seq<SelectedView>, url: Seq<char>) -> int
    decreases anchors.len(),
{
    if anchors.len() == 0 {
        0
    } else if anchors[0].attribute == Some(url) {
        0
    } else {
        1 + first_link_to(anchors.drop_first(), url)
    }
}

/// `first_link_to` is the position of a link to `url` before which no link
/// goes there.
pub proof fn lemma_first_link_to(anchors: Seq<SelectedView>, url: Seq<char>)
    ensures
        0 <= first_link_to(anchors, url) <= anchors.len(),
        first_link_to(anchors, url) < anchors.len() ==> anchors[first_link_to(
            anchors,
            url,
        )].attribute == Some(url),
        forall|j: int| 0 <= j < first_link_to(anchors, url) ==> anchors[j].attribute != Some(url),
    decreases anchors.len(),
{
    if anchors.len() > 0 && anchors[0].attribute != Some(url) {
        let rest = anchors.drop_first();
        lemma_first_link_to(rest, url);
        assert forall|j: int| 0 <= j < first_link_to(anchors, url) implies anchors[j].attribute
            != Some(url) by {
            if j > 0 {
                assert(rest[j - 1] == anchors[j]);
            }
        }
    }
}

/// A position that holds a link to `url`, and has none before it, is
/// `first_link_to`; so is the number of the links where none goes there.
proof fn lemma_first_link_to_is(anchors: Seq<SelectedView>, url: Seq<char>, at: int)
    requires
        0 <= at <= anchors.len(),
        at < anchors.len() ==> anchors[at].attribute == Some(url),
        forall|j: int| 0 <= j < at ==> anchors[j].attribute != Some(url),
    ensures
        first_link_to(anchors, url) == at,
    decreases anchors.len(),
{
    if anchors.len() > 0 && at > 0 {
        let rest = anchors.drop_first();
        assert forall|j: int| 0 <= j < at - 1 implies rest[j].attribute != Some(url) by {
            assert(rest[j] == anchors[j + 1]);
        }
        lemma_first_link_to_is(rest, url, at - 1);
    }
}

/// What holds of the categories `found` that the links `anchors` gave: no
/// two have one address; each has the address of a category's page and the
/// name that the text of the first link to that address gives; and every
/// link to a category's page has its category.
pub open spec fn first_come(found: Seq<CategoryView>, anchors: Seq<SelectedView>) -> bool {
    &&& forall|i: int, j: int|
        0 <= i < j < found.len() ==> #[trigger] found[i].url != #[trigger] found[j].url
    &&& forall|k: int|
        0 <= k < found.len() ==> {
            let at = first_link_to(anchors, (#[trigger] found[k]).url);
            &&& is_category_address(found[k].url)
            &&& at < anchors.len()
            &&& anchors[at].text is Some
            &&& found[k].name == normalized_name(anchors[at].text->0)
        }
    &&& forall|i: int|
        0 <= i < anchors.len() && (#[trigger] anchors[i]).attribute is Some && is_category_address(
            anchors[i].attribute->0,
        ) ==> has_address(found, anchors[i].attribute->0)
}

/// Reading further links keeps `first_come`.
proof fn lemma_categories_after(
    found: Seq<CategoryView>,
    done: Seq<SelectedView>,
    rest: Seq<SelectedView>,
)
    requires
        first_come(found, done),
    ensures
        categories_after(found, rest) matches Ok(all) ==> first_come(all, done + rest),
    decreases rest.len(),
{
    if rest.len() == 0 {
        assert(done + rest =~= done);
    } else {
        let anchor = rest[0];
        let next = done.push(anchor);
        assert(next + rest.drop_first() =~= done + rest);
        if let Some(url) = anchor.attribute {
            let fresh = is_category_address(url) && !has_address(found, url);
            if fresh && anchor.text is None {
            } else {
                let grown = if fresh {
                    found.push(CategoryView { name: normalized_name(anchor.text->0), url })
                } else {
                    found
                };
                assert forall|k: int| 0 <= k < grown.len() implies ({
                    let at = first_link_to(next, (#[trigger] grown[k]).url);
                    &&& is_category_address(grown[k].url)
                    &&& at < next.len()
                    &&& next[at].text is Some
                    &&& grown[k].name == normalized_name(next[at].text->0)
                }) by {
                    if k < found.len() {
                        let at = first_link_to(done, found[k].url);
                        lemma_first_link_to(done, found[k].url);
                        assert(next[at] == done[at]);
                        assert forall|j: int| 0 <= j < at implies next[j].attribute != Some(
                            found[k].url,
                        ) by {
                            assert(next[j] == done[j]);
                        }
                        lemma_first_link_to_is(next, found[k].url, at);
                    } else {
                        assert forall|j: int| 0 <= j < done.len() implies next[j].attribute
                            != Some(url) by {
                            assert(next[j] == done[j]);
                            if done[j].attribute == Some(url) {
                                assert(has_address(found, done[j].attribute->0));
                            }
                        }
                        lemma_first_link_to_is(next, url, done.len() as int);
                    }
                }
                assert forall|i: int|
                    0 <= i < next.len() && (#[trigger] next[i]).attribute is Some
                        && is_category_address(next[i].attribute->0) implies has_address(
                    grown,
                    next[i].attribute->0,
                ) by {
                    let target = next[i].attribute->0;
                    if i < done.len() {
                        assert(next[i] == done[i]);
                        assert(has_address(found, target));
                        let k = choose|k: int| 0 <= k < found.len() && found[k].url == target;
                        assert(grown[k].url == target);
                    } else if fresh {
                        assert(grown[found.len() as int].url == target);
                    } else {
                        let k = choose|k: int| 0 <= k < found.len() && found[k].url == target;
                        assert(grown[k].url == target);
                    }
                }
                assert forall|i: int, j: int| 0 <= i < j < grown.len() implies #[trigger] grown[i].url
                    != #[trigger] grown[j].url by {
                    if j == found.len() {
                        assert(found[i].url != url);
                    }
                }
                lemma_categories_after(grown, next, rest.drop_first());
            }
        }
    }
}

/// Of the categories that a navigation bar gives, no two have one address: a
/// link to an address that was seen before adds nothing, so each category
/// keeps the name that the first link to it gave. Every link to a category's
/// page has its category.
pub proof fn lemma_first_link_names(anchors: Seq<SelectedView>)
    ensures
        categories_of(anchors) matches Ok(found) ==> first_come(found, anchors),
{
    if anchors.len() > 0 {
        lemma_categories_after(Seq::empty(), Seq::empty(), anchors);
        assert(Seq::<SelectedView>::empty() + anchors =~= anchors);
    }
}

} // verus!
