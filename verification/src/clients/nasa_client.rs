//! The adapter of the agency's feeds: the dataset catalogue, the picture of the
//! day, the near-earth objects and the two feeds of solar activity.

use vstd::prelude::*;
use crate::clients::base_client::{query_view, BaseClient, Fetch, RequestView};
use crate::time::{date_before, day_text};

verus! {

/// How the agency's feeds are fetched, and with which key.
#[derive(Debug)]
pub struct NasaClient {
    base: BaseClient,
    api_key: String,
}

/// The parameters with the key added at the end, unless the key is empty.
pub open spec fn with_api_key(query: Seq<(Seq<char>, Seq<char>)>, api_key: Seq<char>) -> Seq<
    (Seq<char>, Seq<char>),
> {
    if api_key.len() > 0 {
        query.push(("api_key"@, api_key))
    } else {
        query
    }
}

/// The request for the picture of the day.
pub open spec fn apod_request(api_key: Seq<char>) -> RequestView {
    RequestView {
        url: "https://api.nasa.gov/planetary/apod"@,
        query: with_api_key(seq![("thumbs"@, "true"@)], api_key),
    }
}

/// The days from `days` days ago to today, as the feeds want them written;
/// `None` where the calendar does not reach one of the two.
pub open spec fn day_range(today: i32, days: u32) -> Option<(Seq<char>, Seq<char>)> {
    match (day_text(today, days), day_text(today, 0)) {
        (Some(from), Some(to)) => Some((from, to)),
        _ => None,
    }
}

/// The request for a feed that takes a range of days under two parameter names.
pub open spec fn range_request(
    url: Seq<char>,
    from_name: Seq<char>,
    to_name: Seq<char>,
    range: (Seq<char>, Seq<char>),
    api_key: Seq<char>,
) -> RequestView {
    RequestView {
        url,
        query: with_api_key(seq![(from_name, range.0), (to_name, range.1)], api_key),
    }
}

/// The request for the near-earth objects of the last two days.
pub open spec fn neo_request(today: i32, api_key: Seq<char>) -> Option<RequestView> {
    match day_range(today, 2) {
        Some(range) => Some(
            range_request(
                "https://api.nasa.gov/neo/rest/v1/feed"@,
                "start_date"@,
                "end_date"@,
                range,
                api_key,
            ),
        ),
        None => None,
    }
}

/// The request for the solar flares of the last five days.
pub open spec fn flares_request(today: i32, api_key: Seq<char>) -> Option<RequestView> {
    match day_range(today, 5) {
        Some(range) => Some(
            range_request(
                "https://api.nasa.gov/DONKI/FLR"@,
                "startDate"@,
                "endDate"@,
                range,
                api_key,
            ),
        ),
        None => None,
    }
}

/// The request for the coronal mass ejections of the last five days.
pub open spec fn cme_request(today: i32, api_key: Seq<char>) -> Option<RequestView> {
    match day_range(today, 5) {
        Some(range) => Some(
            range_request(
                "https://api.nasa.gov/DONKI/CME"@,
                "startDate"@,
                "endDate"@,
                range,
                api_key,
            ),
        ),
        None => None,
    }
}

impl NasaClient {
    /// The fetcher of the adapter: 30 seconds of timeout, 3 retries.
    pub closed spec fn base(&self) -> BaseClient {
        self.base
    }

    /// The key that goes with every request but the catalogue's.
    pub closed spec fn api_key(&self) -> Seq<char> {
        self.api_key@
    }

    /// An adapter that sends `api_key` along; an empty key is left out.
    pub fn new(api_key: String) -> (client: Self)
        ensures
            client.api_key() == api_key@,
            client.base().timeout() == 30,
            client.base().retries() == 3,
    {
        Self { base: BaseClient::new(30, 3), api_key }
    }

    /// The fetcher of the adapter.
    pub fn fetcher(&self) -> (base: BaseClient)
        ensures
            base == self.base(),
    {
        self.base
    }

    fn keyed(&self, query: Vec<(String, String)>) -> (out: Vec<(String, String)>)
        ensures
            query_view(out@) == with_api_key(query_view(query@), self.api_key()),
    {
        let mut out = query;
        if !self.api_key.as_str().is_empty() {
            let ghost before = query_view(out@);
            out.push((String::from_str("api_key"), self.api_key.clone()));
            assert(query_view(out@) =~= before.push(("api_key"@, self.api_key@)));
        }
        out
    }

    fn ranged(
        &self,
        url: &str,
        from_name: &str,
        to_name: &str,
        range: (String, String),
    ) -> (fetch: Fetch)
        ensures
            fetch.attempt() == 1,
            fetch.retries() == self.base().retries(),
            fetch.target()@ == range_request(
                url@,
                from_name@,
                to_name@,
                (range.0@, range.1@),
                self.api_key(),
            ),
    {
        let mut query: Vec<(String, String)> = Vec::new();
        query.push((String::from_str(from_name), range.0));
        query.push((String::from_str(to_name), range.1));
        assert(query_view(query@) =~= seq![(from_name@, range.0@), (to_name@, range.1@)]);
        let query = self.keyed(query);
        self.base.get_json_with_query(url, query)
    }

    /// Starts the request for the dataset catalogue at `url`.
    pub fn fetch_osdr(&self, url: &str) -> (fetch: Fetch)
        ensures
            fetch.attempt() == 1,
            fetch.retries() == self.base().retries(),
            fetch.target()@ == (RequestView { url: url@, query: Seq::empty() }),
    {
        self.base.get_json(url)
    }

    /// Starts the request for the picture of the day.
    pub fn fetch_apod(&self) -> (fetch: Fetch)
        ensures
            fetch.attempt() == 1,
            fetch.retries() == self.base().retries(),
            fetch.target()@ == apod_request(self.api_key()),
    {
        let mut query: Vec<(String, String)> = Vec::new();
        query.push((String::from_str("thumbs"), String::from_str("true")));
        assert(query_view(query@) =~= seq![("thumbs"@, "true"@)]);
        let query = self.keyed(query);
        self.base.get_json_with_query("https://api.nasa.gov/planetary/apod", query)
    }

    /// The days from `n` days ago to today, as the feeds want them written.
    /// `today` counts the days of the calendar, with January 1 of the year 1 as
    /// day 1. There is no answer where the calendar does not reach that far.
    pub fn last_days(&self, today: i32, n: u32) -> (range: Option<(String, String)>)
        ensures
            match range {
                Some(r) => day_range(today, n) == Some((r.0@, r.1@)),
                None => day_range(today, n) is None,
            },
    {
        match date_before(today, n) {
            Some(from) => match date_before(today, 0) {
                Some(to) => Some((from, to)),
                None => None,
            },
            None => None,
        }
    }

    /// Starts the request for the near-earth objects from two days ago to today.
    pub fn fetch_neo_feed(&self, today: i32) -> (fetch: Option<Fetch>)
        ensures
            match fetch {
                Some(f) => f.attempt() == 1 && f.retries() == self.base().retries() && neo_request(
                    today,
                    self.api_key(),
                ) == Some(f.target()@),
                None => neo_request(today, self.api_key()) is None,
            },
    {
        match self.last_days(today, 2) {
            Some(range) => Some(
                self.ranged("https://api.nasa.gov/neo/rest/v1/feed", "start_date", "end_date", range),
            ),
            None => None,
        }
    }

    /// Starts the request for the solar flares from five days ago to today.
    pub fn fetch_donki_flares(&self, today: i32) -> (fetch: Option<Fetch>)
        ensures
            match fetch {
                Some(f) => f.attempt() == 1 && f.retries() == self.base().retries()
                    && flares_request(today, self.api_key()) == Some(f.target()@),
                None => flares_request(today, self.api_key()) is None,
            },
    {
        match self.last_days(today, 5) {
            Some(range) => Some(
                self.ranged("https://api.nasa.gov/DONKI/FLR", "startDate", "endDate", range),
            ),
            None => None,
        }
    }

    /// Starts the request for the coronal mass ejections from five days ago to
    /// today.
    pub fn fetch_donki_cme(&self, today: i32) -> (fetch: Option<Fetch>)
        ensures
            match fetch {
                Some(f) => f.attempt() == 1 && f.retries() == self.base().retries()
                    && cme_request(today, self.api_key()) == Some(f.target()@),
                None => cme_request(today, self.api_key()) is None,
            },
    {
        match self.last_days(today, 5) {
            Some(range) => Some(
                self.ranged("https://api.nasa.gov/DONKI/CME", "startDate", "endDate", range),
            ),
            None => None,
        }
    }
}

} // verus!
