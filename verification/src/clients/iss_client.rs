//! The adapter of the station tracker.

use vstd::prelude::*;
use crate::clients::base_client::{BaseClient, Fetch, RequestView};

verus! {

/// Where the station's position is fetched from, and how.
#[derive(Debug)]
pub struct IssClient {
    base: BaseClient,
    url: String,
}

impl IssClient {
    /// The fetcher of the adapter: 20 seconds of timeout, 3 retries.
    pub closed spec fn base(&self) -> BaseClient {
        self.base
    }

    /// The address that is fetched.
    pub closed spec fn url(&self) -> Seq<char> {
        self.url@
    }

    /// An adapter that fetches `url`.
    pub fn new(url: String) -> (client: Self)
        ensures
            client.url() == url@,
            client.base().timeout() == 20,
            client.base().retries() == 3,
    {
        Self { base: BaseClient::new(20, 3), url }
    }

    /// The fetcher of the adapter.
    pub fn fetcher(&self) -> (base: BaseClient)
        ensures
            base == self.base(),
    {
        self.base
    }

    /// Starts the request for the current position.
    pub fn fetch_current_position(&self) -> (fetch: Fetch)
        ensures
            fetch.attempt() == 1,
            fetch.retries() == self.base().retries(),
            fetch.target()@ == (RequestView { url: self.url(), query: Seq::empty() }),
    {
        self.base.get_json(self.url.as_str())
    }
}

} // verus!
