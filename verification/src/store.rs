//! The life of the published catalog: loaded or built at the start, then
//! replaced as a whole by each refresh that succeeds.
//!
//! The store decides; it does not crawl, wait or write. The caller reports
//! what happened as a `StoreEvent` and carries out the `StoreAction` that
//! comes back.

use crate::cassette::CassetteView;
use crate::catalog::Catalog;
use vstd::prelude::*;

verus! {

/// The seconds between two refreshes: one day.
pub const REFRESH_INTERVAL: u64 = 86_400;

/// The seconds to wait after a crawl that failed.
pub const RETRY_BACKOFF: u64 = 30;

/// Where the store stands.
#[derive(Clone, Copy, Debug, PartialEq, Eq)]
pub enum Phase {
    /// Nothing has happened yet.
    Empty,
    /// No catalog is published; the first crawl is under way or will be
    /// tried again.
    Building,
    /// A catalog is published and no crawl is under way.
    Published,
    /// A catalog is published; a crawl to replace it is under way or will be
    /// tried again.
    Refreshing,
}

/// What the caller reports to the store.
pub enum StoreEvent {
    /// The service starts, with the snapshot of an earlier run if one could
    /// be read.
    Started(Option<Catalog>),
    /// A crawl has ended and found this catalog.
    CrawlSucceeded(Catalog),
    /// A crawl has failed.
    CrawlFailed,
    /// The time that the last action asked to wait has passed.
    TimerElapsed,
}

/// A `StoreEvent` as plain values.
pub enum StoreEventView {
    Started(Option<Map<u128, CassetteView>>),
    CrawlSucceeded(Map<u128, CassetteView>),
    CrawlFailed,
    TimerElapsed,
}

impl View for StoreEvent {
    type V = StoreEventView;

    open spec fn view(&self) -> StoreEventView {
        match *self {
            StoreEvent::Started(Some(snapshot)) => StoreEventView::Started(Some(snapshot@)),
            StoreEvent::Started(None) => StoreEventView::Started(None),
            StoreEvent::CrawlSucceeded(catalog) => StoreEventView::CrawlSucceeded(catalog@),
            StoreEvent::CrawlFailed => StoreEventView::CrawlFailed,
            StoreEvent::TimerElapsed => StoreEventView::TimerElapsed,
        }
    }
}

/// What the store asks the caller to do.
#[derive(Clone, Copy, Debug, PartialEq, Eq)]
pub enum StoreAction {
    /// Crawl the site, and report how the crawl ended.
    Crawl,
    /// A catalog has been published. Where `persist` is set, write it out as
    /// the snapshot for later runs. Where `refresh_after` holds a number,
    /// wait that many seconds and report that the time has passed.
    Serve { persist: bool, refresh_after: Option<u64> },
    /// Wait `after` seconds and report that the time has passed.
    Retry { after: u64 },
    /// The event does not fit where the store stands: do nothing.
    Ignore,
}

/// The state of a store, as plain values.
pub struct StoreView {
    /// Where the store stands.
    pub phase: Phase,
    /// The published catalog; empty while there is none.
    pub catalog: Map<u128, CassetteView>,
    /// Whether the catalog is refreshed in the background.
    pub refresh: bool,
    /// The seconds between two refreshes.
    pub interval: u64,
    /// The seconds to wait after a crawl that failed.
    pub backoff: u64,
}

impl StoreView {
    /// A catalog is published, so readers are served.
    pub open spec fn serves(self) -> bool {
        self.phase == Phase::Published || self.phase == Phase::Refreshing
    }

    /// The wait before the next refresh, where the store refreshes at all.
    pub open spec fn refresh_after(self) -> Option<u64> {
        if self.refresh {
            Some(self.interval)
        } else {
            None
        }
    }

    /// The state after `event`, and what the caller is to do.
    ///
    /// At the start a snapshot is published as it is, without a crawl;
    /// without a snapshot the first crawl begins. The catalog of a crawl
    /// that succeeds is published in place of the one before; that of the
    /// first crawl is also written out. A crawl that fails is tried again
    /// after the backoff, and leaves what is published as it is. A
    /// published catalog is refreshed after the interval, where the store
    /// refreshes at all.
    pub open spec fn step(self, event: StoreEventView) -> (StoreView, StoreAction) {
        match (self.phase, event) {
            (Phase::Empty, StoreEventView::Started(Some(snapshot))) => (
                StoreView { phase: Phase::Published, catalog: snapshot, ..self },
                StoreAction::Serve { persist: false, refresh_after: self.refresh_after() },
            ),
            (Phase::Empty, StoreEventView::Started(None)) => (
                StoreView { phase: Phase::Building, ..self },
                StoreAction::Crawl,
            ),
            (Phase::Building, StoreEventView::CrawlSucceeded(catalog)) => (
                StoreView { phase: Phase::Published, catalog, ..self },
                StoreAction::Serve { persist: true, refresh_after: self.refresh_after() },
            ),
            (Phase::Refreshing, StoreEventView::CrawlSucceeded(catalog)) => (
                StoreView { phase: Phase::Published, catalog, ..self },
                StoreAction::Serve { persist: false, refresh_after: self.refresh_after() },
            ),
            (Phase::Building, StoreEventView::CrawlFailed) => (
                self,
                StoreAction::Retry { after: self.backoff },
            ),
            (Phase::Refreshing, StoreEventView::CrawlFailed) => (
                self,
                StoreAction::Retry { after: self.backoff },
            ),
            (Phase::Building, StoreEventView::TimerElapsed) => (self, StoreAction::Crawl),
            (Phase::Refreshing, StoreEventView::TimerElapsed) => (self, StoreAction::Crawl),
            (Phase::Published, StoreEventView::TimerElapsed) => if self.refresh {
                (StoreView { phase: Phase::Refreshing, ..self }, StoreAction::Crawl)
            } else {
                (self, StoreAction::Ignore)
            },
            _ => (self, StoreAction::Ignore),
        }
    }
}

/// The owner of the published catalog.
pub struct CatalogStore {
    phase: Phase,
    catalog: Catalog,
    refresh: bool,
    interval: u64,
    backoff: u64,
}

impl View for CatalogStore {
    type V = StoreView;

    closed spec fn view(&self) -> StoreView {
        StoreView {
            phase: self.phase,
            catalog: self.catalog@,
            refresh: self.refresh,
            interval: self.interval,
            backoff: self.backoff,
        }
    }
}

impl CatalogStore {
    /// A store in which nothing has happened yet. It refreshes its catalog
    /// every `interval` seconds if `refresh` is set, and tries a failed
    /// crawl again after `backoff` seconds.
    pub fn new(refresh: bool, interval: u64, backoff: u64) -> (store: CatalogStore)
        ensures
            store@ == (StoreView {
                phase: Phase::Empty,
                catalog: Map::empty(),
                refresh,
                interval,
                backoff,
            }),
    {
        CatalogStore { phase: Phase::Empty, catalog: Catalog::new(), refresh, interval, backoff }
    }

    /// Takes note of `event`, and says what the caller is to do.
    pub fn handle(&mut self, event: StoreEvent) -> (action: StoreAction)
        ensures
            (final(self)@, action) == old(self)@.step(event@),
    {
        let refresh_after: Option<u64> = if self.refresh {
            Some(self.interval)
        } else {
            None
        };
        match event {
            StoreEvent::Started(Some(snapshot)) => match self.phase {
                Phase::Empty => {
                    self.catalog = snapshot;
                    self.phase = Phase::Published;
                    StoreAction::Serve { persist: false, refresh_after }
                },
                _ => StoreAction::Ignore,
            },
            StoreEvent::Started(None) => match self.phase {
                Phase::Empty => {
                    self.phase = Phase::Building;
                    StoreAction::Crawl
                },
                _ => StoreAction::Ignore,
            },
            StoreEvent::CrawlSucceeded(catalog) => match self.phase {
                Phase::Building => {
                    self.catalog = catalog;
                    self.phase = Phase::Published;
                    StoreAction::Serve { persist: true, refresh_after }
                },
                Phase::Refreshing => {
                    self.catalog = catalog;
                    self.phase = Phase::Published;
                    StoreAction::Serve { persist: false, refresh_after }
                },
                _ => StoreAction::Ignore,
            },
            StoreEvent::CrawlFailed => match self.phase {
                Phase::Building | Phase::Refreshing => StoreAction::Retry { after: self.backoff },
                _ => StoreAction::Ignore,
            },
            StoreEvent::TimerElapsed => match self.phase {
                Phase::Building | Phase::Refreshing => StoreAction::Crawl,
                Phase::Published => {
                    if self.refresh {
                        self.phase = Phase::Refreshing;
                        StoreAction::Crawl
                    } else {
                        StoreAction::Ignore
                    }
                },
                Phase::Empty => StoreAction::Ignore,
            },
        }
    }

    /// Where the store stands.
    pub fn phase(&self) -> (phase: Phase)
        ensures
            phase == self@.phase,
    {
        self.phase
    }

    /// The published catalog, while there is one.
    pub fn published(&self) -> (catalog: Option<&Catalog>)
        ensures
            match catalog {
                Some(published) => self@.serves() && published@ == self@.catalog,
                None => !self@.serves(),
            },
    {
        match self.phase {
            Phase::Published | Phase::Refreshing => Some(&self.catalog),
            _ => None,
        }
    }
}

/// The catalog that an event brings, where it brings one.
pub open spec fn brought(event: StoreEventView) -> Option<Map<u128, CassetteView>> {
    match event {
        StoreEventView::Started(snapshot) => snapshot,
        StoreEventView::CrawlSucceeded(catalog) => Some(catalog),
        _ => None,
    }
}

/// A catalog is published as a whole or not at all: after any event the
/// store holds the catalog it held before, or the one that the event
/// brought, and never anything between the two. Once readers are served
/// they are served for good, and a crawl that fails changes nothing.
pub proof fn lemma_publish_is_whole(state: StoreView, event: StoreEventView)
    ensures
        state.step(event).0.catalog == state.catalog || brought(event) == Some(
            state.step(event).0.catalog,
        ),
        state.serves() ==> state.step(event).0.serves(),
        event is CrawlFailed ==> state.step(event).0 == state,
        state.step(event).0.refresh == state.refresh,
        state.step(event).0.interval == state.interval,
        state.step(event).0.backoff == state.backoff,
{
}

} // verus!
