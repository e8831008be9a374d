//! The adapter of the launch feed.

use vstd::prelude::*;
use crate::clients::base_client::{BaseClient, Fetch, RequestView};
use crate::text::{decimal, decimal_u64};

verus! {

/// How the launch feed is fetched.
#[derive(Debug)]
pub struct SpacexClient {
    base: BaseClient,
}

/// The address of the launches that lie behind, cut to `limit`.
pub open spec fn past_launches_url(limit: nat) -> Seq<char> {
    "https://api.spacexdata.com/v4/launches/past?limit="@ + decimal(limit)
}

impl SpacexClient {
    /// The fetcher of the adapter: 30 seconds of timeout, 3 retries.
    pub closed spec fn base(&self) -> BaseClient {
        self.base
    }

    pub fn new() -> (client: Self)
        ensures
            client.base().timeout() == 30,
            client.base().retries() == 3,
    {
        Self { base: BaseClient::new(30, 3) }
    }

    /// The fetcher of the adapter.
    pub fn fetcher(&self) -> (base: BaseClient)
        ensures
            base == self.base(),
    {
        self.base
    }

    /// Starts the request for the next launch.
    pub fn fetch_next_launch(&self) -> (fetch: Fetch)
        ensures
            fetch.attempt() == 1,
            fetch.retries() == self.base().retries(),
            fetch.target()@ == (RequestView {
                url: "https://api.spacexdata.com/v4/launches/next"@,
                query: Seq::empty(),
            }),
    {
        self.base.get_json("https://api.spacexdata.com/v4/launches/next")
    }

    /// Starts the request for the latest launches, at most `limit` of them.
    pub fn fetch_latest_launches(&self, limit: usize) -> (fetch: Fetch)
        ensures
            fetch.attempt() == 1,
            fetch.retries() == self.base().retries(),
            fetch.target()@ == (RequestView {
                url: past_launches_url(limit as nat),
                query: Seq::empty(),
            }),
    {
        let digits = decimal_u64(limit as u64);
        let url = String::from_str("https://api.spacexdata.com/v4/launches/past?limit=").concat(
            digits.as_str(),
        );
        self.base.get_json(url.as_str())
    }
}

} // verus!
