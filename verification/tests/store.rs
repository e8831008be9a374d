use cassiopeia::error::ApiError;
use cassiopeia::repo::cache_repo::CacheRepo;
use cassiopeia::repo::iss_repo::IssRepo;
use cassiopeia::repo::osdr_repo::{marked, resolve_key, synthetic_key, OsdrRepo};
use cassiopeia::time::Timestamp;

fn at(secs: i64) -> Timestamp {
    Timestamp { secs, nanos: 0 }
}

fn text(s: &str) -> Option<String> {
    Some(String::from(s))
}

fn upsert(repo: &mut OsdrRepo, key: Option<&str>, title: &str, raw: &str, now: i64) -> i64 {
    repo.upsert(key.map(String::from), text(title), text("open"), Some(at(7)), String::from(raw), at(now))
        .expect("a write")
}

#[test]
fn the_same_key_twice_leaves_one_row_with_the_second_payload() {
    let mut repo = OsdrRepo::new();
    let first = upsert(&mut repo, Some("OSD-1"), "first", "{\"v\":1}", 100);
    let second = repo
        .upsert(text("OSD-1"), text("second"), None, Some(at(3)), String::from("{\"v\":2}"), at(200))
        .expect("a write");
    assert_eq!(first, 1);
    assert_eq!(second, 1);
    assert_eq!(repo.count(), 1);
    let row = repo.find_by_dataset_id("OSD-1").expect("the row");
    assert_eq!(row.id, 1);
    assert_eq!(row.title.as_deref(), Some("second"));
    assert_eq!(row.status, None);
    assert_eq!(row.updated_at, Some(at(3)));
    assert_eq!(row.raw, "{\"v\":2}");
    assert_eq!(row.inserted_at, at(100));
}

#[test]
fn the_order_of_the_writes_decides_not_the_upstream_time() {
    let mut repo = OsdrRepo::new();
    repo.upsert(text("k"), text("newer upstream"), None, Some(at(9_000)), String::from("a"), at(1))
        .expect("a write");
    repo.upsert(text("k"), text("older upstream"), None, Some(at(1_000)), String::from("b"), at(2))
        .expect("a write");
    let row = repo.find_by_dataset_id("k").expect("the row");
    assert_eq!(row.title.as_deref(), Some("older upstream"));
    assert_eq!(row.updated_at, Some(at(1_000)));
    assert_eq!(row.raw, "b");
}

#[test]
fn the_same_text_without_a_key_leaves_one_row() {
    let mut repo = OsdrRepo::new();
    let first = upsert(&mut repo, None, "a", "{\"a\":1}", 1);
    let second = upsert(&mut repo, None, "a", "{\"a\":1}", 2);
    assert_eq!(first, second);
    assert_eq!(repo.count(), 1);
    let third = upsert(&mut repo, None, "a", "{\"a\":2}", 3);
    assert_ne!(first, third);
    assert_eq!(repo.count(), 2);
}

#[test]
fn the_derived_key_is_the_marked_name_based_identifier_of_the_text() {
    assert_eq!(synthetic_key("{\"a\":1}"), "gen-171fb8c7-a826-5398-b15d-7b84d868613c");
    assert_eq!(synthetic_key("{\"a\":2}"), "gen-484ef6fb-3c00-5873-962d-bb2339157762");
    assert_eq!(synthetic_key("example.org"), "gen-34784df9-b065-5094-92c7-00bb3da97a30");
    assert_eq!(resolve_key(None, "example.org"), "gen-34784df9-b065-5094-92c7-00bb3da97a30");
    assert_eq!(resolve_key(text("OSD-7"), "example.org"), "OSD-7");
    assert_eq!(marked("abc"), "gen-abc");
    assert_eq!(marked(""), "gen-");

    let mut repo = OsdrRepo::new();
    upsert(&mut repo, None, "t", "example.org", 1);
    let row = repo.find_by_dataset_id("gen-34784df9-b065-5094-92c7-00bb3da97a30").expect("the row");
    assert_eq!(row.raw, "example.org");
}

#[test]
fn new_keys_get_rising_ids_and_are_listed_newest_first() {
    let mut repo = OsdrRepo::new();
    assert_eq!(repo.count(), 0);
    assert!(repo.list(10, 0).is_empty());
    for (i, key) in ["a", "b", "c", "d"].iter().enumerate() {
        assert_eq!(upsert(&mut repo, Some(key), key, "{}", i as i64), i as i64 + 1);
    }
    upsert(&mut repo, Some("b"), "b again", "{}", 50);
    let keys = |rows: Vec<cassiopeia::repo::osdr_repo::OsdrItem>| -> Vec<String> {
        rows.into_iter().map(|row| row.dataset_id).collect()
    };
    assert_eq!(keys(repo.list(10, 0)), vec!["d", "c", "b", "a"]);
    assert_eq!(keys(repo.list(2, 0)), vec!["d", "c"]);
    assert_eq!(keys(repo.list(2, 1)), vec!["c", "b"]);
    assert_eq!(keys(repo.list(2, 3)), vec!["a"]);
    assert!(repo.list(2, 4).is_empty());
    assert!(repo.list(0, 0).is_empty());
    assert!(repo.list(usize::MAX, usize::MAX).is_empty());
    assert_eq!(keys(repo.list(usize::MAX, 1)), vec!["c", "b", "a"]);
    assert!(repo.find_by_dataset_id("e").is_none());
}

#[test]
fn the_cache_appends_and_reads_the_newest_of_a_source() {
    let mut cache = CacheRepo::new();
    assert!(cache.get_latest("apod").is_none());
    assert_eq!(cache.insert("apod", String::from("first picture"), at(1)).expect("a write"), 1);
    assert_eq!(cache.insert("neo", String::from("n1"), at(2)).expect("a write"), 2);
    assert_eq!(cache.insert("apod", String::from("second picture"), at(3)).expect("a write"), 3);
    assert_eq!(cache.insert("apod", String::from("second picture"), at(4)).expect("a write"), 4);
    assert_eq!(cache.len(), 4);
    let latest = cache.get_latest("apod").expect("a row");
    assert_eq!((latest.id, latest.source.as_str(), latest.payload.as_str()), (4, "apod", "second picture"));
    assert_eq!(latest.fetched_at, at(4));
    let ids = |rows: Vec<cassiopeia::repo::cache_repo::SpaceCacheEntry>| -> Vec<i64> {
        rows.into_iter().map(|row| row.id).collect()
    };
    assert_eq!(ids(cache.get_last_n("apod", 2)), vec![4, 3]);
    assert_eq!(ids(cache.get_last_n("apod", 10)), vec![4, 3, 1]);
    assert_eq!(ids(cache.get_last_n("neo", 10)), vec![2]);
    assert!(cache.get_last_n("apod", 0).is_empty());
    assert!(cache.get_last_n("cme", 3).is_empty());
}

#[test]
fn a_cleanup_keeps_the_newest_rows_of_its_source_and_all_others() {
    let mut cache = CacheRepo::new();
    for i in 0..6 {
        let source = if i % 2 == 0 { "flr" } else { "cme" };
        cache.insert(source, format!("payload {}", i), at(i)).expect("a write");
    }
    assert_eq!(cache.cleanup_old("flr", 1), 2);
    assert_eq!(cache.len(), 4);
    let ids = |rows: Vec<cassiopeia::repo::cache_repo::SpaceCacheEntry>| -> Vec<i64> {
        rows.into_iter().map(|row| row.id).collect()
    };
    assert_eq!(ids(cache.get_last_n("flr", 10)), vec![5]);
    assert_eq!(ids(cache.get_last_n("cme", 10)), vec![6, 4, 2]);
    assert_eq!(cache.cleanup_old("flr", 1), 0);
    assert_eq!(cache.cleanup_old("cme", 0), 3);
    assert!(cache.get_latest("cme").is_none());
    assert_eq!(cache.cleanup_old("apod", 0), 0);
    assert_eq!(cache.insert("cme", String::from("late"), at(9)).expect("a write"), 7);
}

#[test]
fn the_fetch_log_reads_its_newest_rows_and_a_range_of_time() {
    let mut log = IssRepo::new();
    assert!(log.get_last().is_none());
    assert_eq!(log.count(), 0);
    for i in 1..=5 {
        let id = log.insert("https://example.org/iss", format!("payload {}", i), at(i * 10)).expect("a write");
        assert_eq!(id, i);
    }
    assert_eq!(log.count(), 5);
    let last = log.get_last().expect("a row");
    assert_eq!((last.id, last.payload.as_str(), last.source_url.as_str()), (5, "payload 5", "https://example.org/iss"));
    let ids = |rows: Vec<cassiopeia::repo::iss_repo::FetchRecord>| -> Vec<i64> {
        rows.into_iter().map(|row| row.id).collect()
    };
    assert_eq!(ids(log.get_last_n(2)), vec![5, 4]);
    assert_eq!(ids(log.get_last_n(9)), vec![5, 4, 3, 2, 1]);
    assert!(log.get_last_n(0).is_empty());
    assert_eq!(ids(log.get_by_time_range(at(20), at(40))), vec![4, 3, 2]);
    assert_eq!(
        ids(log.get_by_time_range(Timestamp { secs: 20, nanos: 1 }, Timestamp { secs: 40, nanos: 0 })),
        vec![4, 3]
    );
    assert!(log.get_by_time_range(at(41), at(49)).is_empty());
    assert!(log.get_by_time_range(at(40), at(20)).is_empty());
}

#[test]
fn a_write_error_is_a_storage_failure() {
    let e = ApiError::from_storage(String::from("nextval: reached maximum value of sequence"));
    assert_eq!(e.code(), "DATABASE_ERROR");
}
