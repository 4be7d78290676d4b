use rekor_query::cache::{EntryCache, EntryRecord, ResolveStep};
use rekor_query::controller::QueryController;
use rekor_query::timestamp::{format_utc, render_integration_time, UtcDateTime};

fn ids(v: &[&str]) -> Vec<String> {
    v.iter().map(|s| s.to_string()).collect()
}

#[test]
fn identity_is_stored_verbatim() {
    let mut c = QueryController::new();
    assert_eq!(c.identity(), None);
    c.set_identity("  Alice@Example.com \n".to_string());
    assert_eq!(c.identity(), Some("  Alice@Example.com \n".to_string()));
    c.set_identity(String::new());
    assert_eq!(c.identity(), Some(String::new()));
}

#[test]
fn submit_without_identity_issues_nothing() {
    let mut c = QueryController::new();
    assert!(c.submit_search().is_none());
    c.apply_search_outcome::<()>(Ok(ids(&["x"])));
    assert!(c.submit_search().is_none());
    assert_eq!(c.candidates(), &ids(&["x"]));
}

#[test]
fn submit_with_identity_queries_that_identity() {
    let mut c = QueryController::new();
    c.set_identity("first@example.com".to_string());
    c.set_identity("bob@example.com".to_string());
    let q = c.submit_search().unwrap();
    assert_eq!(q.email, "bob@example.com");
}

#[test]
fn search_result_replaces_candidates_in_order() {
    let mut c = QueryController::new();
    c.set_identity("a@example.com".to_string());
    c.apply_search_outcome::<()>(Ok(ids(&["old1", "old2"])));
    c.apply_search_outcome::<()>(Ok(ids(&["c", "a", "b"])));
    assert_eq!(c.candidates(), &ids(&["c", "a", "b"]));
    assert_eq!(c.entries_props().entries, ids(&["c", "a", "b"]));
    c.apply_search_outcome::<()>(Ok(Vec::new()));
    assert!(c.candidates().is_empty());
}

#[test]
fn failed_search_keeps_previous_candidates() {
    let mut c = QueryController::new();
    c.set_identity("a@example.com".to_string());
    c.apply_search_outcome::<String>(Ok(ids(&["a", "b"])));
    c.apply_search_outcome::<String>(Err("service unavailable".to_string()));
    assert_eq!(c.candidates(), &ids(&["a", "b"]));
}

#[test]
fn last_search_to_arrive_wins() {
    let mut c = QueryController::new();
    c.set_identity("first@example.com".to_string());
    let _first = c.submit_search().unwrap();
    c.set_identity("second@example.com".to_string());
    let _second = c.submit_search().unwrap();
    // The second search answers first, the first one last.
    c.apply_search_outcome::<()>(Ok(ids(&["b"])));
    c.apply_search_outcome::<()>(Ok(ids(&["a"])));
    assert_eq!(c.candidates(), &ids(&["a"]));
}

#[test]
fn second_resolve_is_served_from_cache() {
    let mut cache = EntryCache::new();
    let k = "24296fb24b8ad77a".to_string();
    let rec = EntryRecord { log_index: 42, integrated_time: 1600000000 };
    let mut fetches = 0;
    for _ in 0..2 {
        match cache.resolve(&k) {
            ResolveStep::Fetch => {
                fetches += 1;
                cache.record_fetch::<()>(k.clone(), Ok(rec));
            }
            ResolveStep::Cached(r) => assert_eq!(r, rec),
        }
    }
    assert_eq!(fetches, 1);
    assert_eq!(cache.lookup(&k), Some(rec));
}

#[test]
fn failed_resolve_is_retried() {
    let mut cache = EntryCache::new();
    let k = "abc".to_string();
    assert_eq!(cache.resolve(&k), ResolveStep::Fetch);
    cache.record_fetch::<String>(k.clone(), Err("timeout".to_string()));
    assert_eq!(cache.lookup(&k), None);
    assert_eq!(cache.resolve(&k), ResolveStep::Fetch);
    let rec = EntryRecord { log_index: 7, integrated_time: 0 };
    cache.record_fetch::<String>(k.clone(), Ok(rec));
    assert_eq!(cache.resolve(&k), ResolveStep::Cached(rec));
}

#[test]
fn resolved_record_is_never_replaced() {
    let mut cache = EntryCache::new();
    let k = "k".to_string();
    let first = EntryRecord { log_index: 1, integrated_time: 10 };
    let second = EntryRecord { log_index: 2, integrated_time: 20 };
    cache.record_fetch::<()>(k.clone(), Ok(first));
    cache.record_fetch::<()>(k.clone(), Ok(second));
    cache.record_fetch::<()>(k.clone(), Err(()));
    assert_eq!(cache.lookup(&k), Some(first));
}

#[test]
fn cache_keeps_identifiers_apart() {
    let mut cache = EntryCache::new();
    let a = EntryRecord { log_index: 1, integrated_time: 1 };
    let b = EntryRecord { log_index: 2, integrated_time: 2 };
    cache.record_fetch::<()>("a".to_string(), Ok(a));
    cache.record_fetch::<()>("b".to_string(), Ok(b));
    assert_eq!(cache.lookup(&"a".to_string()), Some(a));
    assert_eq!(cache.lookup(&"b".to_string()), Some(b));
    assert_eq!(cache.lookup(&"c".to_string()), None);
    assert_eq!(cache.resolve(&"A".to_string()), ResolveStep::Fetch);
}

#[test]
fn integration_time_renders_as_utc() {
    assert_eq!(render_integration_time(1600000000), Some("2020-09-13T12:26:40Z".to_string()));
}

#[test]
fn epoch_and_leap_day_render() {
    assert_eq!(render_integration_time(0), Some("1970-01-01T00:00:00Z".to_string()));
    assert_eq!(render_integration_time(-1), Some("1969-12-31T23:59:59Z".to_string()));
    assert_eq!(render_integration_time(951785999), Some("2000-02-29T00:59:59Z".to_string()));
}

#[test]
fn years_outside_four_digits_render_with_sign() {
    assert_eq!(render_integration_time(253402300800), Some("+10000-01-01T00:00:00Z".to_string()));
    assert_eq!(render_integration_time(-62167219200), Some("0000-01-01T00:00:00Z".to_string()));
    assert_eq!(render_integration_time(-62167219201), Some("-0001-12-31T23:59:59Z".to_string()));
}

#[test]
fn out_of_range_times_do_not_render() {
    assert_eq!(
        render_integration_time(8210266876799),
        Some("+262142-12-31T23:59:59Z".to_string())
    );
    assert_eq!(render_integration_time(8210266876800), None);
    assert_eq!(
        render_integration_time(-8334601228800),
        Some("-262143-01-01T00:00:00Z".to_string())
    );
    assert_eq!(render_integration_time(-8334601228801), None);
    assert_eq!(render_integration_time(i64::MAX), None);
    assert_eq!(render_integration_time(i64::MIN), None);
}

#[test]
fn format_utc_pads_fields() {
    let t = UtcDateTime { year: 987, month: 3, day: 4, hour: 5, minute: 6, second: 7 };
    assert_eq!(format_utc(&t), "0987-03-04T05:06:07Z");
    let t = UtcDateTime { year: -12345, month: 12, day: 31, hour: 23, minute: 59, second: 59 };
    assert_eq!(format_utc(&t), "-12345-12-31T23:59:59Z");
}

#[test]
fn record_texts() {
    let rec = EntryRecord { log_index: 3710573, integrated_time: 1600000000 };
    assert_eq!(rec.index_text(), "3710573");
    assert_eq!(rec.time_text(), Some("2020-09-13T12:26:40Z".to_string()));
    assert_eq!(EntryRecord { log_index: 0, integrated_time: 0 }.index_text(), "0");
    let neg = EntryRecord { log_index: i64::MIN, integrated_time: i64::MAX };
    assert_eq!(neg.index_text(), "-9223372036854775808");
    assert_eq!(neg.time_text(), None);
}
