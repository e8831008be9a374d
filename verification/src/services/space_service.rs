//! The coordinator of the feeds that are cached as they come: each payload is
//! appended under the tag of its source.

use vstd::prelude::*;
use crate::clients::nasa_client::NasaClient;
use crate::clients::spacex_client::SpacexClient;
use crate::error::{ids_exhausted, ApiError};
use crate::repo::cache_repo::{recent, CacheRepo, SpaceCacheEntry, SpaceCacheEntryView};
use crate::services::scheduler::Job;
use crate::text::{opt_view, same_text};
use crate::time::Timestamp;

verus! {

/// The newest payload of each source, and the size of the catalogue.
#[derive(Debug)]
pub struct SpaceSummary {
    pub apod: Option<String>,
    pub neo: Option<String>,
    pub flr: Option<String>,
    pub cme: Option<String>,
    pub spacex: Option<String>,
    pub iss: Option<String>,
    pub osdr_count: i64,
}

/// The tag under which the payloads of a coordinator are cached; none for the
/// coordinators that write elsewhere.
pub open spec fn tag_of(job: Job) -> Option<Seq<char>> {
    match job {
        Job::Apod => Some("apod"@),
        Job::Neo => Some("neo"@),
        Job::DonkiFlares => Some("flr"@),
        Job::DonkiCme => Some("cme"@),
        Job::Spacex => Some("spacex"@),
        _ => None,
    }
}

/// The coordinator that a tag names.
pub open spec fn job_of(tag: Seq<char>) -> Option<Job> {
    if tag == "apod"@ {
        Some(Job::Apod)
    } else if tag == "neo"@ {
        Some(Job::Neo)
    } else if tag == "flr"@ {
        Some(Job::DonkiFlares)
    } else if tag == "cme"@ {
        Some(Job::DonkiCme)
    } else if tag == "spacex"@ {
        Some(Job::Spacex)
    } else {
        None
    }
}

/// The coordinators that the names ask for, in the order of the names; a name
/// that is no tag asks for nothing.
pub open spec fn jobs_named(names: Seq<Seq<char>>) -> Seq<Job>
    decreases names.len(),
{
    if names.len() == 0 {
        Seq::empty()
    } else {
        match job_of(names.last()) {
            Some(job) => jobs_named(names.drop_last()).push(job),
            None => jobs_named(names.drop_last()),
        }
    }
}

/// The tags of the coordinators that succeeded, in the order in which they ran.
pub open spec fn tags_refreshed(jobs: Seq<Job>, succeeded: Seq<bool>) -> Seq<Seq<char>>
    decreases jobs.len(),
{
    if jobs.len() == 0 || succeeded.len() < jobs.len() {
        Seq::empty()
    } else if succeeded[jobs.len() - 1] && tag_of(jobs.last()) is Some {
        tags_refreshed(jobs.drop_last(), succeeded).push(tag_of(jobs.last())->0)
    } else {
        tags_refreshed(jobs.drop_last(), succeeded)
    }
}

/// The payload of the newest row of a source, if it has one.
pub open spec fn latest_payload(rows: Seq<SpaceCacheEntryView>, source: Seq<char>) -> Option<
    Seq<char>,
> {
    if recent(rows, source, 1).len() > 0 {
        Some(recent(rows, source, 1)[0].payload)
    } else {
        None
    }
}

/// The names by their texts.
pub open spec fn names_view(names: Seq<&str>) -> Seq<Seq<char>> {
    Seq::new(names.len(), |i: int| names[i]@)
}

/// The texts by their characters.
pub open spec fn texts_view(texts: Seq<String>) -> Seq<Seq<char>> {
    Seq::new(texts.len(), |i: int| texts[i]@)
}

/// The tag under which the payloads of a coordinator are cached.
pub fn tag(job: Job) -> (tag: Option<&'static str>)
    ensures
        match tag {
            Some(t) => tag_of(job) == Some(t@),
            None => tag_of(job) is None,
        },
{
    match job {
        Job::Apod => Some("apod"),
        Job::Neo => Some("neo"),
        Job::DonkiFlares => Some("flr"),
        Job::DonkiCme => Some("cme"),
        Job::Spacex => Some("spacex"),
        _ => None,
    }
}

/// The coordinators to run for a list of source names, one for each name that
/// is a tag, in the order of the names.
pub fn jobs_for(sources: &[&str]) -> (jobs: Vec<Job>)
    ensures
        jobs@ == jobs_named(names_view(sources@)),
{
    let ghost names = names_view(sources@);
    let mut jobs: Vec<Job> = Vec::new();
    let mut i: usize = 0;
    proof {
        assert(names.take(0) =~= Seq::<Seq<char>>::empty());
    }
    while i < sources.len()
        invariant
            i <= sources@.len(),
            names == names_view(sources@),
            jobs@ == jobs_named(names.take(i as int)),
        decreases sources@.len() - i,
    {
        let name: &str = sources[i];
        proof {
            assert(names.take(i + 1).drop_last() =~= names.take(i as int));
            assert(names.take(i + 1).last() == name@);
        }
        if same_text(name, "apod") {
            jobs.push(Job::Apod);
        } else if same_text(name, "neo") {
            jobs.push(Job::Neo);
        } else if same_text(name, "flr") {
            jobs.push(Job::DonkiFlares);
        } else if same_text(name, "cme") {
            jobs.push(Job::DonkiCme);
        } else if same_text(name, "spacex") {
            jobs.push(Job::Spacex);
        }
        i = i + 1;
    }
    proof {
        assert(names.take(i as int) =~= names);
    }
    jobs
}

/// The coordinator of the cached feeds.
#[derive(Debug)]
pub struct SpaceService {
    cache_repo: CacheRepo,
    nasa_client: NasaClient,
    spacex_client: SpacexClient,
}

impl SpaceService {
    /// The cache that the coordinator writes to.
    pub closed spec fn cache(&self) -> CacheRepo {
        self.cache_repo
    }

    /// The adapter of the agency's feeds.
    pub closed spec fn nasa(&self) -> NasaClient {
        self.nasa_client
    }

    /// The adapter of the launch feed.
    pub closed spec fn spacex(&self) -> SpacexClient {
        self.spacex_client
    }

    pub fn new(cache_repo: CacheRepo, nasa_client: NasaClient, spacex_client: SpacexClient) -> (service:
        Self)
        ensures
            service.cache() == cache_repo,
            service.nasa() == nasa_client,
            service.spacex() == spacex_client,
    {
        Self { cache_repo, nasa_client, spacex_client }
    }

    /// The adapter of the agency's feeds.
    pub fn nasa_client(&self) -> (client: &NasaClient)
        ensures
            *client == self.nasa(),
    {
        &self.nasa_client
    }

    /// The adapter of the launch feed.
    pub fn spacex_client(&self) -> (client: &SpacexClient)
        ensures
            *client == self.spacex(),
    {
        &self.spacex_client
    }

    /// The newest row of a source, if it has any.
    pub fn get_latest(&self, source: &str) -> (found: Option<SpaceCacheEntry>)
        ensures
            match found {
                Some(entry) => recent(self.cache()@, source@, 1) == seq![entry@],
                None => recent(self.cache()@, source@, 1).len() == 0,
            },
    {
        self.cache_repo.get_latest(source)
    }

    fn store(&mut self, source: &str, payload: String, now: Timestamp) -> (stored: Result<
        (),
        ApiError,
    >)
        ensures
            final(self).nasa() == old(self).nasa(),
            final(self).spacex() == old(self).spacex(),
            stored_as(old(self).cache(), final(self).cache(), source@, payload@, now, stored),
    {
        match self.cache_repo.insert(source, payload, now) {
            Ok(_) => Ok(()),
            Err(e) => Err(e),
        }
    }

    /// Caches a fetched picture of the day.
    pub fn refresh_apod(&mut self, payload: String, now: Timestamp) -> (stored: Result<(), ApiError>)
        ensures
            final(self).nasa() == old(self).nasa(),
            final(self).spacex() == old(self).spacex(),
            stored_as(old(self).cache(), final(self).cache(), "apod"@, payload@, now, stored),
    {
        self.store("apod", payload, now)
    }

    /// Caches a fetched feed of near-earth objects.
    pub fn refresh_neo(&mut self, payload: String, now: Timestamp) -> (stored: Result<(), ApiError>)
        ensures
            final(self).nasa() == old(self).nasa(),
            final(self).spacex() == old(self).spacex(),
            stored_as(old(self).cache(), final(self).cache(), "neo"@, payload@, now, stored),
    {
        self.store("neo", payload, now)
    }

    /// Caches a fetched feed of solar flares.
    pub fn refresh_donki_flares(&mut self, payload: String, now: Timestamp) -> (stored: Result<
        (),
        ApiError,
    >)
        ensures
            final(self).nasa() == old(self).nasa(),
            final(self).spacex() == old(self).spacex(),
            stored_as(old(self).cache(), final(self).cache(), "flr"@, payload@, now, stored),
    {
        self.store("flr", payload, now)
    }

    /// Caches a fetched feed of coronal mass ejections.
    pub fn refresh_donki_cme(&mut self, payload: String, now: Timestamp) -> (stored: Result<
        (),
        ApiError,
    >)
        ensures
            final(self).nasa() == old(self).nasa(),
            final(self).spacex() == old(self).spacex(),
            stored_as(old(self).cache(), final(self).cache(), "cme"@, payload@, now, stored),
    {
        self.store("cme", payload, now)
    }

    /// Caches a fetched next launch.
    pub fn refresh_spacex(&mut self, payload: String, now: Timestamp) -> (stored: Result<
        (),
        ApiError,
    >)
        ensures
            final(self).nasa() == old(self).nasa(),
            final(self).spacex() == old(self).spacex(),
            stored_as(old(self).cache(), final(self).cache(), "spacex"@, payload@, now, stored),
    {
        self.store("spacex", payload, now)
    }

    /// The coordinators to run for a list of source names, one for each name
    /// that is a tag, in the order of the names.
    pub fn refresh_multiple(&self, sources: &[&str]) -> (jobs: Vec<Job>)
        ensures
            jobs@ == jobs_named(names_view(sources@)),
    {
        jobs_for(sources)
    }

    /// The tags of the coordinators that succeeded, in the order in which they
    /// ran; `succeeded` says of each coordinator in turn whether it did.
    pub fn refreshed(jobs: &Vec<Job>, succeeded: &Vec<bool>) -> (tags: Vec<String>)
        ensures
            texts_view(tags@) == tags_refreshed(jobs@, succeeded@),
    {
        let mut tags: Vec<String> = Vec::new();
        if succeeded.len() < jobs.len() {
            assert(texts_view(tags@) =~= Seq::<Seq<char>>::empty());
            return tags;
        }
        let mut i: usize = 0;
        proof {
            assert(texts_view(tags@) =~= Seq::<Seq<char>>::empty());
            assert(jobs@.take(0) =~= Seq::<Job>::empty());
        }
        while i < jobs.len()
            invariant
                i <= jobs@.len() <= succeeded@.len(),
                texts_view(tags@) == tags_refreshed(jobs@.take(i as int), succeeded@),
            decreases jobs@.len() - i,
        {
            let ghost got = texts_view(tags@);
            proof {
                assert(jobs@.take(i + 1).drop_last() =~= jobs@.take(i as int));
                assert(jobs@.take(i + 1).last() == jobs@[i as int]);
            }
            if succeeded[i] {
                match tag(jobs[i]) {
                    Some(t) => {
                        tags.push(String::from_str(t));
                        proof {
                            assert(texts_view(tags@) =~= got.push(t@));
                        }
                    },
                    None => {},
                }
            }
            i = i + 1;
        }
        proof {
            assert(jobs@.take(i as int) =~= jobs@);
        }
        tags
    }

    /// The newest payload of each cached source, beside the given size of the
    /// catalogue; the station's position is left for the caller to fill in.
    pub fn get_summary(&self, osdr_count: i64) -> (summary: SpaceSummary)
        ensures
            summary.osdr_count == osdr_count,
            summary.iss is None,
            opt_view(summary.apod) == latest_payload(self.cache()@, "apod"@),
            opt_view(summary.neo) == latest_payload(self.cache()@, "neo"@),
            opt_view(summary.flr) == latest_payload(self.cache()@, "flr"@),
            opt_view(summary.cme) == latest_payload(self.cache()@, "cme"@),
            opt_view(summary.spacex) == latest_payload(self.cache()@, "spacex"@),
    {
        SpaceSummary {
            apod: self.payload_of("apod"),
            neo: self.payload_of("neo"),
            flr: self.payload_of("flr"),
            cme: self.payload_of("cme"),
            spacex: self.payload_of("spacex"),
            iss: None,
            osdr_count,
        }
    }

    fn payload_of(&self, source: &str) -> (payload: Option<String>)
        ensures
            opt_view(payload) == latest_payload(self.cache()@, source@),
    {
        match self.cache_repo.get_latest(source) {
            Some(entry) => {
                assert(recent(self.cache()@, source@, 1)[0] == entry@);
                Some(entry.payload)
            },
            None => None,
        }
    }
}

/// What a write of `payload` under `source` does to the cache: a new row at
/// the end, or nothing and an error where no id is left.
pub open spec fn stored_as(
    before: CacheRepo,
    after: CacheRepo,
    source: Seq<char>,
    payload: Seq<char>,
    now: Timestamp,
    stored: Result<(), ApiError>,
) -> bool {
    match stored {
        Ok(_) => {
            &&& before.next_id() < i64::MAX
            &&& after.next_id() == before.next_id() + 1
            &&& after@ == before@.push(
                SpaceCacheEntryView { id: before.next_id(), source, fetched_at: now, payload },
            )
        },
        Err(e) => {
            &&& before.next_id() == i64::MAX
            &&& after@ == before@
            &&& after.next_id() == before.next_id()
            &&& e@ == ids_exhausted()
        },
    }
}

} // verus!
