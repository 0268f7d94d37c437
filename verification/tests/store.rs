use kasetophono::cassette::Cassette;
use kasetophono::catalog::Catalog;
use kasetophono::store::{
    CatalogStore, Phase, StoreAction, StoreEvent, REFRESH_INTERVAL, RETRY_BACKOFF,
};

fn catalog(names: &[&str]) -> Catalog {
    Catalog::from_cassettes(
        names
            .iter()
            .enumerate()
            .map(|(i, name)| Cassette {
                uuid: i as u128 + 1,
                name: (*name).into(),
                safe_name: (*name).into(),
                path: String::new(),
                url: String::new(),
                yt_url: String::new(),
                videos: vec![],
                image_url: None,
                labels: vec![],
                subcategories: vec![],
                created_at: String::new(),
            })
            .collect(),
    )
}

fn served(store: &CatalogStore) -> Option<usize> {
    store.published().map(|c| c.len())
}

#[test]
fn the_waits() {
    assert_eq!(REFRESH_INTERVAL, 24 * 60 * 60);
    assert_eq!(RETRY_BACKOFF, 30);
}

#[test]
fn a_snapshot_is_published_without_a_crawl() {
    let mut store = CatalogStore::new(true, REFRESH_INTERVAL, RETRY_BACKOFF);
    assert_eq!(store.phase(), Phase::Empty);
    assert_eq!(served(&store), None);
    let action = store.handle(StoreEvent::Started(Some(catalog(&["a", "b"]))));
    assert_eq!(action, StoreAction::Serve { persist: false, refresh_after: Some(86_400) });
    assert_eq!(store.phase(), Phase::Published);
    assert_eq!(served(&store), Some(2));

    let mut store = CatalogStore::new(false, REFRESH_INTERVAL, RETRY_BACKOFF);
    let action = store.handle(StoreEvent::Started(Some(catalog(&["a"]))));
    assert_eq!(action, StoreAction::Serve { persist: false, refresh_after: None });
    assert_eq!(store.handle(StoreEvent::TimerElapsed), StoreAction::Ignore);
    assert_eq!(store.phase(), Phase::Published);
    assert_eq!(served(&store), Some(1));
}

#[test]
fn without_a_snapshot_the_catalog_is_built() {
    let mut store = CatalogStore::new(true, 600, 5);
    assert_eq!(store.handle(StoreEvent::Started(None)), StoreAction::Crawl);
    assert_eq!(store.phase(), Phase::Building);
    assert_eq!(served(&store), None);
    // a failing crawl is tried again and again
    for _ in 0..3 {
        assert_eq!(store.handle(StoreEvent::CrawlFailed), StoreAction::Retry { after: 5 });
        assert_eq!(store.phase(), Phase::Building);
        assert_eq!(served(&store), None);
        assert_eq!(store.handle(StoreEvent::TimerElapsed), StoreAction::Crawl);
    }
    let action = store.handle(StoreEvent::CrawlSucceeded(catalog(&["a", "b", "c"])));
    assert_eq!(action, StoreAction::Serve { persist: true, refresh_after: Some(600) });
    assert_eq!(store.phase(), Phase::Published);
    assert_eq!(served(&store), Some(3));
}

#[test]
fn a_refresh_replaces_the_catalog_as_a_whole() {
    let mut store = CatalogStore::new(true, 600, 5);
    store.handle(StoreEvent::Started(Some(catalog(&["a", "b"]))));
    assert_eq!(store.handle(StoreEvent::TimerElapsed), StoreAction::Crawl);
    assert_eq!(store.phase(), Phase::Refreshing);
    assert_eq!(served(&store), Some(2));
    // a failing refresh leaves the catalog as it is
    assert_eq!(store.handle(StoreEvent::CrawlFailed), StoreAction::Retry { after: 5 });
    assert_eq!(store.phase(), Phase::Refreshing);
    assert_eq!(served(&store), Some(2));
    assert_eq!(store.published().unwrap().get(1).unwrap().name, "a");
    assert_eq!(store.handle(StoreEvent::TimerElapsed), StoreAction::Crawl);
    let action = store.handle(StoreEvent::CrawlSucceeded(catalog(&["x", "y", "z", "w", "v"])));
    assert_eq!(action, StoreAction::Serve { persist: false, refresh_after: Some(600) });
    assert_eq!(store.phase(), Phase::Published);
    assert_eq!(served(&store), Some(5));
    assert_eq!(store.published().unwrap().get(1).unwrap().name, "x");
}

#[test]
fn events_out_of_place_are_ignored() {
    let mut store = CatalogStore::new(true, 600, 5);
    assert_eq!(store.handle(StoreEvent::TimerElapsed), StoreAction::Ignore);
    assert_eq!(store.handle(StoreEvent::CrawlFailed), StoreAction::Ignore);
    assert_eq!(store.handle(StoreEvent::CrawlSucceeded(catalog(&["a"]))), StoreAction::Ignore);
    assert_eq!(store.phase(), Phase::Empty);
    assert_eq!(served(&store), None);
    store.handle(StoreEvent::Started(Some(catalog(&["a", "b"]))));
    assert_eq!(store.handle(StoreEvent::Started(Some(catalog(&[])))), StoreAction::Ignore);
    assert_eq!(store.handle(StoreEvent::Started(None)), StoreAction::Ignore);
    assert_eq!(store.handle(StoreEvent::CrawlSucceeded(catalog(&["a"]))), StoreAction::Ignore);
    assert_eq!(store.handle(StoreEvent::CrawlFailed), StoreAction::Ignore);
    assert_eq!(store.phase(), Phase::Published);
    assert_eq!(served(&store), Some(2));
}
