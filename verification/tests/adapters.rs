use cassiopeia::clients::iss_client::IssClient;
use cassiopeia::clients::nasa_client::NasaClient;
use cassiopeia::clients::spacex_client::SpacexClient;
use cassiopeia::handlers::space_handlers::{default_sources, trim, RefreshQuery};
use cassiopeia::repo::cache_repo::CacheRepo;
use cassiopeia::repo::iss_repo::IssRepo;
use cassiopeia::services::iss_service::IssService;
use cassiopeia::services::scheduler::Job;
use cassiopeia::services::space_service::{tag, SpaceService};
use cassiopeia::time::{date_before, day_before, Timestamp};

fn pairs(list: &[(&str, &str)]) -> Vec<(String, String)> {
    list.iter().map(|(a, b)| (String::from(*a), String::from(*b))).collect()
}

// 2024-03-01, counted in days with 0001-01-01 as day 1.
const TODAY: i32 = 738_946;

#[test]
fn days_are_printed_as_the_calendar_has_them() {
    assert_eq!(date_before(730_000, 0).as_deref(), Some("1999-09-03"));
    assert_eq!(date_before(TODAY, 0).as_deref(), Some("2024-03-01"));
    assert_eq!(date_before(TODAY, 2).as_deref(), Some("2024-02-28"));
    assert_eq!(date_before(TODAY, 5).as_deref(), Some("2024-02-25"));
    assert_eq!(date_before(1, 0).as_deref(), Some("0001-01-01"));
    assert_eq!(date_before(1, 1).as_deref(), Some("0000-12-31"));
    assert_eq!(date_before(i32::MIN, 1), None);
    assert_eq!(date_before(i32::MAX, 0), None);
    assert_eq!(date_before(0, u32::MAX), None);
    assert_eq!(day_before(10, 3), Some(7));
    assert_eq!(day_before(i32::MIN, 0), Some(i32::MIN));
    assert_eq!(day_before(i32::MIN, 1), None);
    assert_eq!(day_before(i32::MAX, u32::MAX), Some(i32::MIN));
    assert_eq!(day_before(-5, u32::MAX), None);
}

#[test]
fn seconds_become_instants_where_the_calendar_reaches() {
    let fallback = Timestamp { secs: 1, nanos: 2 };
    assert_eq!(Timestamp::at_second(50, true, fallback), Timestamp { secs: 50, nanos: 0 });
    assert_eq!(Timestamp::at_second(50, false, fallback), fallback);
    assert_eq!(Timestamp::from_epoch_seconds(0, fallback), Timestamp { secs: 0, nanos: 0 });
    assert_eq!(Timestamp::from_epoch_seconds(-1, fallback), Timestamp { secs: -1, nanos: 0 });
    assert_eq!(Timestamp::from_epoch_seconds(i64::MAX, fallback), fallback);
    assert_eq!(Timestamp::from_epoch_seconds(i64::MIN, fallback), fallback);
    assert_eq!(Timestamp::parse("2024-05-01T10:00:00Z"), Some(Timestamp { secs: 1_714_557_600, nanos: 0 }));
    assert_eq!(Timestamp::parse("2024-05-01 10:00:00"), Some(Timestamp { secs: 1_714_557_600, nanos: 0 }));
    assert_eq!(Timestamp::parse("2024-05-01"), None);
    assert_eq!(Timestamp::parse(""), None);
    assert!(Timestamp { secs: 1, nanos: 5 }.is_not_after(&Timestamp { secs: 1, nanos: 5 }));
    assert!(Timestamp { secs: 1, nanos: 5 }.is_not_after(&Timestamp { secs: 2, nanos: 0 }));
    assert!(!Timestamp { secs: 2, nanos: 0 }.is_not_after(&Timestamp { secs: 1, nanos: 9 }));
}

#[test]
fn the_picture_of_the_day_asks_for_thumbnails_and_sends_the_key() {
    let with_key = NasaClient::new(String::from("DEMO"));
    let fetch = with_key.fetch_apod();
    assert_eq!(fetch.request().url, "https://api.nasa.gov/planetary/apod");
    assert_eq!(fetch.request().query, pairs(&[("thumbs", "true"), ("api_key", "DEMO")]));
    assert_eq!(fetch.attempt_number(), 1);
    let without = NasaClient::new(String::new());
    assert_eq!(without.fetch_apod().request().query, pairs(&[("thumbs", "true")]));
    assert_eq!(with_key.fetcher().timeout_secs(), 30);
    assert_eq!(with_key.fetcher().max_retries(), 3);
}

#[test]
fn the_feeds_ask_for_their_range_of_days() {
    let client = NasaClient::new(String::from("K"));
    let neo = client.fetch_neo_feed(TODAY).expect("a request");
    assert_eq!(neo.request().url, "https://api.nasa.gov/neo/rest/v1/feed");
    assert_eq!(
        neo.request().query,
        pairs(&[("start_date", "2024-02-28"), ("end_date", "2024-03-01"), ("api_key", "K")])
    );
    let flares = client.fetch_donki_flares(TODAY).expect("a request");
    assert_eq!(flares.request().url, "https://api.nasa.gov/DONKI/FLR");
    assert_eq!(
        flares.request().query,
        pairs(&[("startDate", "2024-02-25"), ("endDate", "2024-03-01"), ("api_key", "K")])
    );
    let cme = NasaClient::new(String::new()).fetch_donki_cme(TODAY).expect("a request");
    assert_eq!(cme.request().url, "https://api.nasa.gov/DONKI/CME");
    assert_eq!(cme.request().query, pairs(&[("startDate", "2024-02-25"), ("endDate", "2024-03-01")]));
    assert_eq!(
        client.last_days(TODAY, 5),
        Some((String::from("2024-02-25"), String::from("2024-03-01")))
    );
    assert!(client.fetch_neo_feed(i32::MAX).is_none());
    assert!(client.fetch_donki_flares(i32::MIN).is_none());
    assert!(client.last_days(i32::MIN + 1, 2).is_none());
}

#[test]
fn the_other_adapters_ask_for_their_addresses() {
    let nasa = NasaClient::new(String::from("K"));
    let osdr = nasa.fetch_osdr("https://example.org/osdr");
    assert_eq!(osdr.request().url, "https://example.org/osdr");
    assert!(osdr.request().query.is_empty());

    let iss = IssClient::new(String::from("https://example.org/iss"));
    assert_eq!(iss.fetch_current_position().request().url, "https://example.org/iss");
    assert_eq!(iss.fetcher().timeout_secs(), 20);
    assert_eq!(iss.fetcher().max_retries(), 3);

    let spacex = SpacexClient::new();
    assert_eq!(spacex.fetch_next_launch().request().url, "https://api.spacexdata.com/v4/launches/next");
    assert_eq!(
        spacex.fetch_latest_launches(25).request().url,
        "https://api.spacexdata.com/v4/launches/past?limit=25"
    );
    assert_eq!(
        spacex.fetch_latest_launches(0).request().url,
        "https://api.spacexdata.com/v4/launches/past?limit=0"
    );
    assert_eq!(spacex.fetcher().timeout_secs(), 30);
}

#[test]
fn a_list_of_sources_is_parted_at_its_commas_and_trimmed() {
    assert_eq!(default_sources(), "apod,neo,flr,cme,spacex");
    assert_eq!(RefreshQuery::new(None).sources(), vec!["apod", "neo", "flr", "cme", "spacex"]);
    let cases = ["", ",", "a", " a , b ", "a,,b", "a,b,", ",a", "  ", "a b, c\u{a0}", "\t\u{3000}x\u{2028}\n"];
    for case in cases {
        let expected: Vec<String> = case.split(',').map(|piece| piece.trim().to_string()).collect();
        assert_eq!(RefreshQuery::new(Some(String::from(case))).sources(), expected, "from {:?}", case);
        assert_eq!(trim(case), case.trim());
    }
}

#[test]
fn the_names_that_are_tags_are_refreshed_in_their_order() {
    let service = SpaceService::new(CacheRepo::new(), NasaClient::new(String::new()), SpacexClient::new());
    let jobs = service.refresh_multiple(&["neo", "iss", "apod", "", "neo", "CME", "cme", "flr", "spacex"]);
    assert_eq!(
        jobs,
        vec![Job::Neo, Job::Apod, Job::Neo, Job::DonkiCme, Job::DonkiFlares, Job::Spacex]
    );
    assert!(service.refresh_multiple(&[]).is_empty());
    let done = SpaceService::refreshed(&jobs, &vec![true, false, true, true, false, true]);
    assert_eq!(done, vec!["neo", "neo", "cme", "spacex"]);
    assert!(SpaceService::refreshed(&jobs, &vec![true]).is_empty());
    assert_eq!(SpaceService::refreshed(&vec![Job::OsdrSync, Job::Apod], &vec![true, true]), vec!["apod"]);
    assert_eq!(tag(Job::DonkiFlares), Some("flr"));
    assert_eq!(tag(Job::IssPosition), None);
}

#[test]
fn payloads_are_cached_under_the_tag_of_their_source() {
    let mut service =
        SpaceService::new(CacheRepo::new(), NasaClient::new(String::from("K")), SpacexClient::new());
    let now = Timestamp { secs: 10, nanos: 0 };
    service.refresh_apod(String::from("a1"), now).expect("a write");
    service.refresh_neo(String::from("n1"), now).expect("a write");
    service.refresh_donki_flares(String::from("f1"), now).expect("a write");
    service.refresh_donki_cme(String::from("c1"), now).expect("a write");
    service.refresh_spacex(String::from("s1"), now).expect("a write");
    service.refresh_apod(String::from("a2"), now).expect("a write");
    let latest = service.get_latest("apod").expect("a row");
    assert_eq!((latest.id, latest.payload.as_str()), (6, "a2"));
    assert!(service.get_latest("iss").is_none());
    let summary = service.get_summary(12);
    assert_eq!(summary.apod.as_deref(), Some("a2"));
    assert_eq!(summary.neo.as_deref(), Some("n1"));
    assert_eq!(summary.flr.as_deref(), Some("f1"));
    assert_eq!(summary.cme.as_deref(), Some("c1"));
    assert_eq!(summary.spacex.as_deref(), Some("s1"));
    assert_eq!(summary.iss, None);
    assert_eq!(summary.osdr_count, 12);
    assert_eq!(service.nasa_client().fetch_apod().request().query.len(), 2);
    assert_eq!(service.spacex_client().fetcher().max_retries(), 3);
}

#[test]
fn a_position_is_logged_and_handed_back() {
    let mut service = IssService::new(IssRepo::new(), IssClient::new(String::from("https://example.org/iss")));
    assert!(service.get_last_position().is_none());
    let now = Timestamp { secs: 99, nanos: 5 };
    let stored = service.fetch_and_store(String::from("{\"latitude\":1.5}"), now).expect("a write");
    assert_eq!(stored.id, 1);
    assert_eq!(stored.fetched_at, now);
    assert_eq!(stored.source_url, "https://api.wheretheiss.at/v1/satellites/25544");
    assert_eq!(stored.payload, "{\"latitude\":1.5}");
    let again = service.fetch_and_store(String::from("{}"), now).expect("a write");
    assert_eq!(again.id, 2);
    assert_eq!(service.get_last_position().expect("a row").payload, "{}");
    assert_eq!(service.fetch().request().url, "https://example.org/iss");
}
