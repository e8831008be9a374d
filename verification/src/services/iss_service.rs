//! The coordinator of the station's position: every fetch is logged.

use vstd::prelude::*;
use crate::clients::base_client::{Fetch, RequestView};
use crate::clients::iss_client::IssClient;
use crate::error::{ids_exhausted, ApiError};
use crate::repo::iss_repo::{FetchRecord, FetchRecordView, IssRepo};
use crate::time::Timestamp;

verus! {

/// The address under which positions are logged.
pub open spec fn logged_url() -> Seq<char> {
    "https://api.wheretheiss.at/v1/satellites/25544"@
}

/// The coordinator of the station's position.
#[derive(Debug)]
pub struct IssService {
    repo: IssRepo,
    client: IssClient,
}

impl IssService {
    /// The log that the coordinator writes to.
    pub closed spec fn repo(&self) -> IssRepo {
        self.repo
    }

    /// The adapter that the coordinator fetches with.
    pub closed spec fn client(&self) -> IssClient {
        self.client
    }

    pub fn new(repo: IssRepo, client: IssClient) -> (service: Self)
        ensures
            service.repo() == repo,
            service.client() == client,
    {
        Self { repo, client }
    }

    /// Starts the request for the current position.
    pub fn fetch(&self) -> (fetch: Fetch)
        ensures
            fetch.attempt() == 1,
            fetch.retries() == self.client().base().retries(),
            fetch.target()@ == (RequestView { url: self.client().url(), query: Seq::empty() }),
    {
        self.client.fetch_current_position()
    }

    /// The newest row of the log, if there is one.
    pub fn get_last_position(&self) -> (found: Option<FetchRecord>)
        ensures
            match found {
                Some(record) => self.repo()@.len() > 0 && record@ == self.repo()@.last(),
                None => self.repo()@.len() == 0,
            },
    {
        self.repo.get_last()
    }

    /// Logs a fetched payload and hands the new row back. Fails, and changes
    /// nothing, only where the log has no id left.
    pub fn fetch_and_store(&mut self, payload: String, now: Timestamp) -> (stored: Result<
        FetchRecord,
        ApiError,
    >)
        ensures
            final(self).client() == old(self).client(),
            match stored {
                Ok(record) => {
                    &&& record@ == (FetchRecordView {
                        id: old(self).repo().next_id(),
                        fetched_at: now,
                        source_url: logged_url(),
                        payload: payload@,
                    })
                    &&& final(self).repo()@ == old(self).repo()@.push(record@)
                    &&& final(self).repo().next_id() == old(self).repo().next_id() + 1
                },
                Err(e) => {
                    &&& old(self).repo().next_id() == i64::MAX
                    &&& final(self).repo()@ == old(self).repo()@
                    &&& e@ == ids_exhausted()
                },
            },
    {
        match self.repo.insert("https://api.wheretheiss.at/v1/satellites/25544", payload, now) {
            Ok(_) => {},
            Err(e) => {
                return Err(e);
            },
        }
        match self.repo.get_last() {
            Some(record) => Ok(record),
            None => Err(
                ApiError::InternalError(String::from_str("Failed to retrieve inserted record")),
            ),
        }
    }
}

} // verus!
