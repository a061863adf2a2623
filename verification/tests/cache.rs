use tpp_bot_beard::cache::{CacheAction, FreshData};
use tpp_bot_beard::search::REFRESH_INTERVAL;

#[test]
fn new_cache_expires_one_interval_later() {
    let cache = FreshData::new(900_000, 1_000, "first");
    assert_eq!(cache.expiry(), 901_000);
    assert_eq!(cache.interval(), 900_000);
    assert_eq!(*cache.get(), "first");
}

#[test]
fn refresh_interval_is_a_quarter_of_an_hour() {
    assert_eq!(REFRESH_INTERVAL, 15 * 60 * 1000);
}

#[test]
fn value_is_served_until_it_expires() {
    let cache = FreshData::new(100, 1_000, 7);
    assert_eq!(cache.poll(1_000), CacheAction::Serve);
    assert_eq!(cache.poll(1_099), CacheAction::Serve);
    assert_eq!(cache.poll(1_100), CacheAction::Refresh);
    assert_eq!(cache.poll(5_000), CacheAction::Refresh);
    assert_eq!(*cache.get(), 7);
}

#[test]
fn successful_refresh_replaces_value_and_expiry() {
    let mut cache = FreshData::new(100, 1_000, 7);
    assert_eq!(cache.poll(1_200), CacheAction::Refresh);
    let done: Result<(), String> = cache.complete(1_250, Ok(8));
    assert_eq!(done, Ok(()));
    assert_eq!(*cache.get(), 8);
    assert_eq!(cache.expiry(), 1_350);
    assert_eq!(cache.interval(), 100);
    assert_eq!(cache.poll(1_349), CacheAction::Serve);
    assert_eq!(cache.poll(1_350), CacheAction::Refresh);
}

#[test]
fn failed_refresh_keeps_the_stale_value_and_is_tried_again() {
    let mut cache = FreshData::new(100, 1_000, 7);
    let done = cache.complete(1_250, Err("no network".to_string()));
    assert_eq!(done, Err("no network".to_string()));
    assert_eq!(*cache.get(), 7);
    assert_eq!(cache.expiry(), 1_100);
    assert_eq!(cache.poll(1_260), CacheAction::Refresh);
    let done: Result<(), String> = cache.complete(1_300, Ok(9));
    assert_eq!(done, Ok(()));
    assert_eq!(*cache.get(), 9);
    assert_eq!(cache.poll(1_399), CacheAction::Serve);
}

#[test]
fn one_fetch_answers_every_reader_within_the_interval() {
    let mut cache = FreshData::new(100, 0, 0);
    let mut fetches = 0;
    for reader in 0..50 {
        let now = 100 + reader;
        if cache.poll(now) == CacheAction::Refresh {
            fetches += 1;
            let done: Result<(), ()> = cache.complete(now, Ok(fetches));
            assert!(done.is_ok());
        }
        assert_eq!(*cache.get(), 1);
    }
    assert_eq!(fetches, 1);
}

#[test]
fn negative_interval_is_stale_at_once() {
    let cache = FreshData::new(-5, 1_000, ());
    assert_eq!(cache.expiry(), 995);
    assert_eq!(cache.poll(1_000), CacheAction::Refresh);
}
