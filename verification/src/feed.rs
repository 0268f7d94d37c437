//! Reading the feed page by page: which page to ask for next, when to stop,
//! what to do with a page that does not parse, and what a page adds to the
//! catalog.
//!
//! Nothing here fetches or parses. The caller asks `next_request` for the
//! pages to fetch, fetches them side by side, and hands each page back as it
//! arrives.

use crate::blogger::Document;
use crate::catalog::{absorbed, lemma_absorbed_sound, sound, Catalog};
use crate::cassette::CassetteView;
use crate::subcategory::{subcategory_views, Subcategory, SubcategoryView};
use crate::text::{
    append, collapse_pairs, contains, decimal_of, from_chars, has_substring, push_decimal,
    to_chars, with_pairs_collapsed,
};
use vstd::prelude::*;

verus! {

/// How many posts a page of the feed holds at most.
pub const PAGE_SIZE: u64 = 25;

/// How many pages are fetched side by side at most.
pub const FETCH_WIDTH: usize = 5;

/// The address of the page of the feed that begins at post `start`, counted
/// from one, and holds up to `size` posts.
pub open spec fn page_address(endpoint: Seq<char>, start: nat, size: nat) -> Seq<char> {
    endpoint + "?alt=json&start-index="@ + decimal_of(start) + "&max-results="@ + decimal_of(size)
}

/// Writes the address of a page of the feed.
pub fn page_url(endpoint: &str, start: u64, size: u64) -> (url: String)
    ensures
        url@ == page_address(endpoint@, start as nat, size as nat),
{
    let mut url = to_chars(endpoint);
    append(&mut url, &to_chars("?alt=json&start-index="));
    push_decimal(&mut url, start);
    append(&mut url, &to_chars("&max-results="));
    push_decimal(&mut url, size);
    from_chars(&url)
}

/// What to do with the text of a page once it has been parsed, or has failed
/// to parse.
#[derive(Debug, Clone, PartialEq)]
pub enum PageStep {
    /// The text parsed: this is the page.
    Page(Document),
    /// The text did not parse but shows the known damage: parse this text,
    /// which is the same with the damage mended.
    ParseAgain(String),
    /// The text did not parse and cannot be mended: the crawl fails.
    Fatal,
}

/// The text shows the known damage of the feed: two commas side by side.
pub open spec fn is_damaged(text: Seq<char>) -> bool {
    has_substring(text, ",,"@)
}

/// The text with the known damage mended: each pair of commas is one comma.
pub open spec fn mended(text: Seq<char>) -> Seq<char> {
    with_pairs_collapsed(text, ',')
}

/// Decides what to do with the text `text` of a page, given what parsing it
/// gave (`None` if it did not parse) and whether it is a mended text already.
/// A page that parsed is taken. A text that did not parse is mended and
/// parsed again if it shows the damage and has not been mended before; in
/// every other case the page is lost for good.
pub fn after_parse(text: &str, parsed: Option<Document>, mended_before: bool) -> (step: PageStep)
    ensures
        match parsed {
            Some(document) => step == PageStep::Page(document),
            None => if !mended_before && is_damaged(text@) {
                step matches PageStep::ParseAgain(again) && again@ == mended(text@)
            } else {
                step == PageStep::Fatal
            },
        },
{
    match parsed {
        Some(document) => PageStep::Page(document),
        None => {
            if mended_before {
                return PageStep::Fatal;
            }
            let chars = to_chars(text);
            if contains(&chars, &to_chars(",,")) {
                PageStep::ParseAgain(from_chars(&collapse_pairs(&chars, ',')))
            } else {
                PageStep::Fatal
            }
        },
    }
}

/// The state of a walk through the feed, as numbers.
pub struct PaginatorView {
    /// How many posts are asked for with each page.
    pub page_size: nat,
    /// How many pages may be on their way at once.
    pub width: nat,
    /// The position, counted from one, at which the next page begins.
    pub next_start: nat,
    /// How many pages have been asked for and have not arrived.
    pub in_flight: nat,
    /// A page without posts has arrived.
    pub stopped: bool,
}

impl PaginatorView {
    /// The state before the first page is asked for.
    pub open spec fn initial(page_size: nat, width: nat) -> PaginatorView {
        PaginatorView { page_size, width, next_start: 1, in_flight: 0, stopped: false }
    }

    /// A further page may be asked for: no page without posts has arrived,
    /// fewer pages than the width are on their way, and the position after
    /// the page can still be written.
    pub open spec fn grants(self) -> bool {
        &&& !self.stopped
        &&& self.in_flight < self.width
        &&& self.next_start + self.page_size <= u64::MAX
    }

    /// The state after the next page has been asked for.
    pub open spec fn requested(self) -> PaginatorView {
        PaginatorView {
            next_start: self.next_start + self.page_size,
            in_flight: self.in_flight + 1,
            ..self
        }
    }

    /// The state after a page with `entries` posts has arrived.
    pub open spec fn arrived(self, entries: nat) -> PaginatorView {
        PaginatorView {
            in_flight: if self.in_flight > 0 {
                (self.in_flight - 1) as nat
            } else {
                0
            },
            stopped: self.stopped || entries == 0,
            ..self
        }
    }

    /// The walk is over: no page is on its way and none may be asked for.
    pub open spec fn finished(self) -> bool {
        self.in_flight == 0 && !self.grants()
    }
}

/// A walk through the pages of the feed with a bounded number of pages on
/// their way at once.
pub struct FeedPaginator {
    page_size: u64,
    width: usize,
    next_start: u64,
    in_flight: usize,
    stopped: bool,
}

impl View for FeedPaginator {
    type V = PaginatorView;

    closed spec fn view(&self) -> PaginatorView {
        PaginatorView {
            page_size: self.page_size as nat,
            width: self.width as nat,
            next_start: self.next_start as nat,
            in_flight: self.in_flight as nat,
            stopped: self.stopped,
        }
    }
}

impl FeedPaginator {
    #[verifier::type_invariant]
    spec fn bounded(self) -> bool {
        &&& self.page_size > 0
        &&& self.width > 0
        &&& self.next_start >= 1
        &&& self.in_flight <= self.width
    }

    /// A walk that has not begun, or `None` where a page would hold no post
    /// or no page could be on its way.
    pub fn new(page_size: u64, width: usize) -> (made: Option<FeedPaginator>)
        ensures
            match made {
                Some(paginator) => page_size > 0 && width > 0 && paginator@
                    == PaginatorView::initial(page_size as nat, width as nat),
                None => page_size == 0 || width == 0,
            },
    {
        if page_size == 0 || width == 0 {
            None
        } else {
            Some(FeedPaginator { page_size, width, next_start: 1, in_flight: 0, stopped: false })
        }
    }

    /// The position at which the next page to fetch begins, if a further
    /// page may be asked for now; the page then counts as on its way.
    pub fn next_request(&mut self) -> (start: Option<u64>)
        ensures
            match start {
                Some(position) => old(self)@.grants() && position == old(self)@.next_start
                    && final(self)@ == old(self)@.requested(),
                None => !old(self)@.grants() && final(self)@ == old(self)@,
            },
    {
        proof {
            use_type_invariant(&*self);
        }
        if self.stopped || self.in_flight >= self.width || self.next_start > u64::MAX
            - self.page_size {
            return None;
        }
        let position: u64 = self.next_start;
        let made = FeedPaginator {
            page_size: self.page_size,
            width: self.width,
            next_start: self.next_start + self.page_size,
            in_flight: self.in_flight + 1,
            stopped: self.stopped,
        };
        *self = made;
        Some(position)
    }

    /// Takes note that a page with `entries` posts has arrived. A page
    /// without posts ends the walk: no further page is granted after it.
    pub fn page_arrived(&mut self, entries: usize)
        ensures
            final(self)@ == old(self)@.arrived(entries as nat),
    {
        proof {
            use_type_invariant(&*self);
        }
        let made = FeedPaginator {
            page_size: self.page_size,
            width: self.width,
            next_start: self.next_start,
            in_flight: if self.in_flight > 0 {
                self.in_flight - 1
            } else {
                0
            },
            stopped: self.stopped || entries == 0,
        };
        *self = made;
    }

    /// Tells whether the walk is over: no page is on its way and none may be
    /// asked for.
    pub fn is_finished(&self) -> (over: bool)
        ensures
            over == self@.finished(),
    {
        proof {
            use_type_invariant(self);
        }
        self.in_flight == 0 && (self.stopped || self.next_start > u64::MAX - self.page_size)
    }

    /// Tells whether a page without posts has arrived.
    pub fn is_stopped(&self) -> (stopped: bool)
        ensures
            stopped == self@.stopped,
    {
        self.stopped
    }

    /// The number of pages on their way.
    pub fn in_flight(&self) -> (count: usize)
        ensures
            count == self@.in_flight,
            count <= self@.width,
    {
        proof {
            use_type_invariant(self);
        }
        self.in_flight
    }
}

/// The state of a crawl of the feed, as plain values.
pub struct CrawlView {
    /// Where the walk through the pages stands.
    pub pages: PaginatorView,
    /// The cassettes found so far.
    pub catalog: Map<u128, CassetteView>,
    /// The subcategories that cassettes are filed under.
    pub subcategories: Seq<SubcategoryView>,
}

/// A crawl of the feed: a walk through its pages that gathers the cassettes
/// of every page that arrives.
pub struct FeedCrawl {
    pages: FeedPaginator,
    catalog: Catalog,
    subcategories: Vec<Subcategory>,
}

impl View for FeedCrawl {
    type V = CrawlView;

    closed spec fn view(&self) -> CrawlView {
        CrawlView {
            pages: self.pages@,
            catalog: self.catalog@,
            subcategories: subcategory_views(self.subcategories@),
        }
    }
}

impl FeedCrawl {
    #[verifier::type_invariant]
    spec fn gathers_soundly(self) -> bool {
        sound(self.catalog@, subcategory_views(self.subcategories@))
    }

    /// A crawl that has not begun, with an empty catalog, or `None` where a
    /// page would hold no post or no page could be on its way.
    pub fn new(subcategories: Vec<Subcategory>, page_size: u64, width: usize) -> (made: Option<
        FeedCrawl,
    >)
        ensures
            match made {
                Some(crawl) => page_size > 0 && width > 0 && crawl@ == (CrawlView {
                    pages: PaginatorView::initial(page_size as nat, width as nat),
                    catalog: Map::empty(),
                    subcategories: subcategory_views(subcategories@),
                }),
                None => page_size == 0 || width == 0,
            },
    {
        match FeedPaginator::new(page_size, width) {
            Some(pages) => Some(FeedCrawl { pages, catalog: Catalog::new(), subcategories }),
            None => None,
        }
    }

    /// A crawl that is over and has found nothing: its walk is stopped with
    /// no page on its way, its catalog is empty, and it files under no
    /// subcategory. It stands in for a crawl while that crawl is taken apart.
    fn spent() -> (crawl: FeedCrawl)
        ensures
            crawl@ == (CrawlView {
                pages: PaginatorView {
                    page_size: 1,
                    width: 1,
                    next_start: 1,
                    in_flight: 0,
                    stopped: true,
                },
                catalog: Map::empty(),
                subcategories: Seq::empty(),
            }),
            crawl@.pages.finished(),
    {
        let pages = FeedPaginator {
            page_size: 1,
            width: 1,
            next_start: 1,
            in_flight: 0,
            stopped: true,
        };
        let crawl = FeedCrawl { pages, catalog: Catalog::new(), subcategories: Vec::new() };
        assert(subcategory_views(crawl.subcategories@) =~= Seq::<SubcategoryView>::empty());
        crawl
    }

    /// The position at which the next page to fetch begins, if a further
    /// page may be asked for now.
    pub fn next_request(&mut self) -> (start: Option<u64>)
        ensures
            match start {
                Some(position) => old(self)@.pages.grants() && position == old(
                    self,
                )@.pages.next_start && final(self)@ == (CrawlView {
                    pages: old(self)@.pages.requested(),
                    ..old(self)@
                }),
                None => !old(self)@.pages.grants() && final(self)@ == old(self)@,
            },
    {
        let mut taken = FeedCrawl::spent();
        std::mem::swap(self, &mut taken);
        proof {
            use_type_invariant(&taken);
        }
        let FeedCrawl { mut pages, catalog, subcategories } = taken;
        let start = pages.next_request();
        *self = FeedCrawl { pages, catalog, subcategories };
        start
    }

    /// Takes in a page that has arrived: its cassettes go into the catalog,
    /// filed under the subcategories, and a page without posts ends the
    /// walk.
    pub fn page_arrived(&mut self, document: Document)
        ensures
            final(self)@ == (CrawlView {
                pages: old(self)@.pages.arrived(document.feed.entry@.len()),
                catalog: absorbed(
                    old(self)@.catalog,
                    document.feed.entry@,
                    old(self)@.subcategories,
                ),
                ..old(self)@
            }),
    {
        let mut taken = FeedCrawl::spent();
        std::mem::swap(self, &mut taken);
        proof {
            use_type_invariant(&taken);
        }
        let FeedCrawl { mut pages, mut catalog, subcategories } = taken;
        let entries = document.feed.entry;
        let count: usize = entries.len();
        proof {
            lemma_absorbed_sound(catalog@, entries@, subcategory_views(subcategories@));
        }
        catalog.absorb(entries, &subcategories);
        pages.page_arrived(count);
        *self = FeedCrawl { pages, catalog, subcategories };
    }

    /// Tells whether the crawl is over.
    pub fn is_finished(&self) -> (over: bool)
        ensures
            over == self@.pages.finished(),
    {
        self.pages.is_finished()
    }

    /// The cassettes that the crawl has found. Each stands under its own
    /// identifier, has the identifier that its address gives, and is filed
    /// under exactly those subcategories of the crawl that hold it.
    pub fn into_catalog(self) -> (catalog: Catalog)
        ensures
            catalog@ == self@.catalog,
            sound(catalog@, self@.subcategories),
    {
        proof {
            use_type_invariant(&self);
        }
        self.catalog
    }
}

/// What happens to a walk: the caller asks for the next page, or a page
/// with so many posts arrives.
pub enum WalkEvent {
    Asked,
    Arrived(nat),
}

impl PaginatorView {
    /// The state after one event. Asking changes the state only where a
    /// page is granted.
    pub open spec fn after(self, event: WalkEvent) -> PaginatorView {
        match event {
            WalkEvent::Asked => if self.grants() {
                self.requested()
            } else {
                self
            },
            WalkEvent::Arrived(entries) => self.arrived(entries),
        }
    }

    /// The state after the events `events`, one after the other.
    pub open spec fn after_all(self, events: Seq<WalkEvent>) -> PaginatorView
        decreases events.len(),
    {
        if events.len() == 0 {
            self
        } else {
            self.after_all(events.drop_last()).after(events.last())
        }
    }

    /// The positions of the pages that were granted in the course of
    /// `events`, in the order in which they were granted.
    pub open spec fn granted(self, events: Seq<WalkEvent>) -> Seq<nat>
        decreases events.len(),
    {
        if events.len() == 0 {
            Seq::empty()
        } else {
            let before = self.after_all(events.drop_last());
            let earlier = self.granted(events.drop_last());
            if events.last() is Asked && before.grants() {
                earlier.push(before.next_start)
            } else {
                earlier
            }
        }
    }
}

/// Pages are granted in the order of the feed, whatever order they arrive
/// in: the page granted as number `i`, counted from zero, begins `i` pages
/// behind the first. Never more pages are on their way than the width
/// allows.
pub proof fn lemma_pages_in_order(walk: PaginatorView, events: Seq<WalkEvent>)
    requires
        walk.in_flight <= walk.width,
    ensures
        walk.after_all(events).in_flight <= walk.width,
        walk.after_all(events).width == walk.width,
        walk.after_all(events).page_size == walk.page_size,
        walk.after_all(events).next_start == walk.next_start + walk.granted(events).len()
            * walk.page_size,
        forall|i: int|
            0 <= i < walk.granted(events).len() ==> #[trigger] walk.granted(events)[i]
                == walk.next_start + i * walk.page_size,
    decreases events.len(),
{
    if events.len() > 0 {
        let front = events.drop_last();
        lemma_pages_in_order(walk, front);
        let before = walk.after_all(front);
        let earlier = walk.granted(front);
        assert((earlier.len() + 1) * walk.page_size == earlier.len() * walk.page_size
            + walk.page_size) by (nonlinear_arith);
    }
}

/// Once a page without posts has arrived the walk is stopped for good: no
/// page is granted after it, whatever is asked and whatever arrives.
pub proof fn lemma_stop_is_final(walk: PaginatorView, events: Seq<WalkEvent>)
    requires
        walk.stopped,
    ensures
        walk.after_all(events).stopped,
        walk.after_all(events).next_start == walk.next_start,
        walk.granted(events) == Seq::<nat>::empty(),
    decreases events.len(),
{
    if events.len() > 0 {
        lemma_stop_is_final(walk, events.drop_last());
    }
}

/// A page without posts stops the walk in whatever order the pages arrive:
/// if one of the events is the arrival of such a page, the walk is stopped
/// after all of them.
pub proof fn lemma_empty_page_stops(walk: PaginatorView, events: Seq<WalkEvent>, at: int)
    requires
        0 <= at < events.len(),
        events[at] == WalkEvent::Arrived(0),
    ensures
        walk.after_all(events).stopped,
    decreases events.len(),
{
    if at < events.len() - 1 {
        lemma_empty_page_stops(walk, events.drop_last(), at);
    }
}

} // verus!
