//! The coordinator of the dataset catalogue: how a fetched document falls into
//! items, and what is read of each item before it is stored.

use vstd::prelude::*;
use crate::json::{items_view, lemma_array_view, lemma_object_view, members_view, Json, JsonView, Member};
use crate::clients::base_client::{Fetch, RequestView};
use crate::clients::nasa_client::NasaClient;
use crate::error::{ids_exhausted, ApiError};
use crate::repo::osdr_repo::{
    has_key, items_view as rows_view, next_id_after, page, resolved_key, upserted,
    Content, OsdrItem, OsdrItemView, OsdrRepo,
};
use crate::text::opt_view;
use crate::time::{instant_at, instant_of, Timestamp};

verus! {

/// The texts of the candidate keys, in their order.
pub open spec fn keys_view(keys: Seq<&str>) -> Seq<Seq<char>> {
    Seq::new(keys.len(), |i: int| keys[i]@)
}

/// What the member `key` of `value` offers as a text: a string that is not
/// empty, or a number as it is written.
pub open spec fn candidate_text(value: JsonView, key: Seq<char>) -> Option<Seq<char>> {
    match value.get(key) {
        Some(JsonView::Str(s)) => if s.len() > 0 {
            Some(s)
        } else {
            None
        },
        Some(JsonView::Number(n)) => Some(n.text()),
        _ => None,
    }
}

/// The text under the first of `keys` that offers one.
pub open spec fn first_text(value: JsonView, keys: Seq<Seq<char>>) -> Option<Seq<char>>
    decreases keys.len(),
{
    if keys.len() == 0 {
        None
    } else {
        match candidate_text(value, keys[0]) {
            Some(text) => Some(text),
            None => first_text(value, keys.skip(1)),
        }
    }
}

/// What the member `key` of `value` offers as an instant: a string that reads
/// as one, or an integer taken as seconds since the epoch, with `now` in place
/// of a second that the calendar does not reach.
pub open spec fn candidate_instant(value: JsonView, key: Seq<char>, now: Timestamp) -> Option<
    Timestamp,
> {
    match value.get(key) {
        Some(JsonView::Str(s)) => instant_of(s),
        Some(JsonView::Number(n)) => match n.as_i64() {
            Some(secs) => Some(instant_at(secs, now)),
            None => None,
        },
        _ => None,
    }
}

/// The instant under the first of `keys` that offers one.
pub open spec fn first_instant(value: JsonView, keys: Seq<Seq<char>>, now: Timestamp) -> Option<
    Timestamp,
>
    decreases keys.len(),
{
    if keys.len() == 0 {
        None
    } else {
        match candidate_instant(value, keys[0], now) {
            Some(t) => Some(t),
            None => first_instant(value, keys.skip(1), now),
        }
    }
}

proof fn lemma_first_text_skips(value: JsonView, keys: Seq<Seq<char>>, n: int)
    requires
        0 <= n <= keys.len(),
        forall|j: int| 0 <= j < n ==> candidate_text(value, #[trigger] keys[j]) is None,
    ensures
        first_text(value, keys) == first_text(value, keys.skip(n)),
    decreases n,
{
    if n == 0 {
        assert(keys.skip(0) =~= keys);
    } else {
        let rest = keys.skip(1);
        assert(candidate_text(value, keys[0]) is None);
        assert forall|j: int| 0 <= j < n - 1 implies candidate_text(value, #[trigger] rest[j])
            is None by {
            assert(rest[j] == keys[j + 1]);
        }
        lemma_first_text_skips(value, rest, n - 1);
        assert(rest.skip(n - 1) =~= keys.skip(n));
    }
}

proof fn lemma_first_instant_skips(value: JsonView, keys: Seq<Seq<char>>, now: Timestamp, n: int)
    requires
        0 <= n <= keys.len(),
        forall|j: int| 0 <= j < n ==> candidate_instant(value, #[trigger] keys[j], now) is None,
    ensures
        first_instant(value, keys, now) == first_instant(value, keys.skip(n), now),
    decreases n,
{
    if n == 0 {
        assert(keys.skip(0) =~= keys);
    } else {
        let rest = keys.skip(1);
        assert(candidate_instant(value, keys[0], now) is None);
        assert forall|j: int| 0 <= j < n - 1 implies candidate_instant(
            value,
            #[trigger] rest[j],
            now,
        ) is None by {
            assert(rest[j] == keys[j + 1]);
        }
        lemma_first_instant_skips(value, rest, now, n - 1);
        assert(rest.skip(n - 1) =~= keys.skip(n));
    }
}

/// Reads a text from `value` under the first of the candidate keys that holds
/// a string that is not empty or a number.
pub fn extract_string(value: &Json, keys: &[&str]) -> (found: Option<String>)
    ensures
        match found {
            Some(text) => first_text(value@, keys_view(keys@)) == Some(text@),
            None => first_text(value@, keys_view(keys@)) is None,
        },
{
    let ghost names = keys_view(keys@);
    let mut i: usize = 0;
    while i < keys.len()
        invariant
            i <= keys.len(),
            names == keys_view(keys@),
            forall|j: int| 0 <= j < i ==> candidate_text(value@, #[trigger] names[j]) is None,
        decreases keys.len() - i,
    {
        let key: &str = keys[i];
        assert(names[i as int] == key@);
        let mut hit: Option<String> = None;
        match value.get(key) {
            Some(member) => {
                match member {
                    Json::Str(s) => {
                        if !s.as_str().is_empty() {
                            hit = Some(s.clone());
                        }
                    },
                    Json::Number(n) => {
                        hit = Some(n.text());
                    },
                    _ => {},
                }
            },
            None => {},
        }
        if hit.is_some() {
            proof {
                lemma_first_text_skips(value@, names, i as int);
                assert(names.skip(i as int)[0] == names[i as int]);
            }
            return hit;
        }
        i = i + 1;
    }
    proof {
        lemma_first_text_skips(value@, names, i as int);
    }
    None
}

/// Reads an instant from `value` under the first of the candidate keys that
/// holds a string that reads as one or an integer number of seconds. `now`
/// stands in for a number of seconds that the calendar does not reach.
pub fn extract_timestamp(value: &Json, keys: &[&str], now: Timestamp) -> (found: Option<Timestamp>)
    ensures
        found == first_instant(value@, keys_view(keys@), now),
{
    let ghost names = keys_view(keys@);
    let mut i: usize = 0;
    while i < keys.len()
        invariant
            i <= keys.len(),
            names == keys_view(keys@),
            forall|j: int|
                0 <= j < i ==> candidate_instant(value@, #[trigger] names[j], now) is None,
        decreases keys.len() - i,
    {
        let key: &str = keys[i];
        assert(names[i as int] == key@);
        let mut hit: Option<Timestamp> = None;
        match value.get(key) {
            Some(member) => {
                match member {
                    Json::Str(s) => {
                        hit = Timestamp::parse(s.as_str());
                    },
                    Json::Number(n) => {
                        match n.as_i64() {
                            Some(secs) => {
                                hit = Some(Timestamp::from_epoch_seconds(secs, now));
                            },
                            None => {},
                        }
                    },
                    _ => {},
                }
            },
            None => {},
        }
        if hit.is_some() {
            proof {
                lemma_first_instant_skips(value@, names, now, i as int);
                assert(names.skip(i as int)[0] == names[i as int]);
            }
            return hit;
        }
        i = i + 1;
    }
    proof {
        lemma_first_instant_skips(value@, names, now, i as int);
    }
    None
}

/// The name under which an item carries the key of the catalogue.
pub open spec fn dataset_id_name() -> Seq<char> {
    "dataset_id"@
}

/// The items of a fetched document. An object keyed by dataset stands for one
/// item per member, each with its key written into it as `dataset_id`; an array
/// stands for its elements; anything else is one item.
pub open spec fn items_of(doc: JsonView) -> Seq<JsonView> {
    match doc {
        JsonView::Object(members) => Seq::new(
            members.len(),
            |i: int| members[i].1.with_member(dataset_id_name(), JsonView::Str(members[i].0)),
        ),
        JsonView::Array(elements) => elements,
        _ => seq![doc],
    }
}

/// Splits a fetched document into its items.
pub fn items(doc: Json) -> (out: Vec<Json>)
    ensures
        items_view(out@) == items_of(doc@),
{
    match doc {
        Json::Object(members) => {
            proof {
                lemma_object_view(members);
            }
            let ghost pairs = members_view(members@);
            let mut out: Vec<Json> = Vec::new();
            for member in it: members
                invariant
                    it.seq() == members@,
                    pairs == members_view(members@),
                    out.len() == it.index(),
                    forall|j: int|
                        0 <= j < out.len() ==> (#[trigger] out[j])@ == pairs[j].1.with_member(
                            dataset_id_name(),
                            JsonView::Str(pairs[j].0),
                        ),
            {
                let Member { name, value } = member;
                let key = name.clone();
                out.push(value.with_member(String::from_str("dataset_id"), Json::Str(key)));
            }
            assert(items_view(out@) =~= items_of(doc@));
            out
        },
        Json::Array(elements) => {
            proof {
                lemma_array_view(elements);
            }
            elements
        },
        other => {
            let mut out: Vec<Json> = Vec::new();
            out.push(other);
            assert(items_view(out@) =~= seq![other@]);
            out
        },
    }
}

/// The names under which an item may carry the key of the catalogue, in the
/// order in which they are tried.
pub open spec fn dataset_id_keys() -> Seq<Seq<char>> {
    seq!["dataset_id"@, "id"@, "uuid"@, "studyId"@, "accession"@, "osdr_id"@]
}

/// The names under which an item may carry its title.
pub open spec fn title_keys() -> Seq<Seq<char>> {
    seq!["title"@, "name"@, "label"@]
}

/// The names under which an item may carry its status.
pub open spec fn status_keys() -> Seq<Seq<char>> {
    seq!["status"@, "state"@, "lifecycle"@]
}

/// The names under which an item may carry the time of its last change.
pub open spec fn updated_keys() -> Seq<Seq<char>> {
    seq!["updated"@, "updated_at"@, "modified"@, "lastUpdated"@, "timestamp"@]
}

/// What is read of an item before it is stored.
#[derive(Debug)]
pub struct ItemFields {
    /// The key that the item brings, if it brings one.
    pub dataset_id: Option<String>,
    pub title: Option<String>,
    pub status: Option<String>,
    pub updated_at: Option<Timestamp>,
}

/// Reads the key, title, status and time of last change of an item, each under
/// the first of its candidate names that offers one.
pub fn describe(item: &Json, now: Timestamp) -> (fields: ItemFields)
    ensures
        opt_view(fields.dataset_id) == first_text(item@, dataset_id_keys()),
        opt_view(fields.title) == first_text(item@, title_keys()),
        opt_view(fields.status) == first_text(item@, status_keys()),
        fields.updated_at == first_instant(item@, updated_keys(), now),
{
    let id_keys = ["dataset_id", "id", "uuid", "studyId", "accession", "osdr_id"];
    let name_keys = ["title", "name", "label"];
    let state_keys = ["status", "state", "lifecycle"];
    let time_keys = ["updated", "updated_at", "modified", "lastUpdated", "timestamp"];
    proof {
        assert(keys_view(id_keys@) =~= dataset_id_keys());
        assert(keys_view(name_keys@) =~= title_keys());
        assert(keys_view(state_keys@) =~= status_keys());
        assert(keys_view(time_keys@) =~= updated_keys());
    }
    ItemFields {
        dataset_id: extract_string(item, id_keys.as_slice()),
        title: extract_string(item, name_keys.as_slice()),
        status: extract_string(item, state_keys.as_slice()),
        updated_at: extract_timestamp(item, time_keys.as_slice(), now),
    }
}

/// An item with the text that it is stored as.
#[derive(Debug)]
pub struct RawItem {
    pub value: Json,
    /// The item in its serialized form.
    pub text: String,
}

pub struct RawItemView {
    pub value: JsonView,
    pub text: Seq<char>,
}

impl View for RawItem {
    type V = RawItemView;

    open spec fn view(&self) -> RawItemView {
        RawItemView { value: self.value@, text: self.text@ }
    }
}

/// The items by their views.
pub open spec fn raw_items_view(items: Seq<RawItem>) -> Seq<RawItemView> {
    Seq::new(items.len(), |i: int| items[i]@)
}

/// The key under which an item is stored: the one it brings, else the one
/// derived from its text.
pub open spec fn key_of(item: RawItemView) -> Seq<char> {
    resolved_key(first_text(item.value, dataset_id_keys()), item.text)
}

/// What is stored of an item.
pub open spec fn content_of(item: RawItemView, now: Timestamp) -> Content {
    Content {
        title: first_text(item.value, title_keys()),
        status: first_text(item.value, status_keys()),
        updated_at: first_instant(item.value, updated_keys(), now),
        raw: item.text,
    }
}

/// The catalogue after a synchronisation, or after the part of it that could
/// be written.
pub struct Synced {
    pub rows: Seq<OsdrItemView>,
    pub next_id: i64,
    /// How many items were written.
    pub written: nat,
    /// Whether every item was written.
    pub complete: bool,
}

/// The items written to the catalogue one after the other, each under its key,
/// until all are written or one needs a new row and no id is left.
pub open spec fn sync_from(
    rows: Seq<OsdrItemView>,
    next_id: i64,
    written: nat,
    items: Seq<RawItemView>,
    now: Timestamp,
) -> Synced
    decreases items.len(),
{
    if items.len() == 0 {
        Synced { rows, next_id, written, complete: true }
    } else if !has_key(rows, key_of(items[0])) && next_id == i64::MAX {
        Synced { rows, next_id, written, complete: false }
    } else {
        sync_from(
            upserted(rows, next_id, key_of(items[0]), content_of(items[0], now), now),
            next_id_after(rows, next_id, key_of(items[0])),
            written + 1,
            items.skip(1),
            now,
        )
    }
}

/// A page of the catalogue.
#[derive(Debug)]
pub struct OsdrListResponse {
    pub items: Vec<OsdrItem>,
    /// The number of items on the page.
    pub total: usize,
}

/// The coordinator of the dataset catalogue.
#[derive(Debug)]
pub struct OsdrService {
    repo: OsdrRepo,
    client: NasaClient,
    osdr_url: String,
}

impl OsdrService {
    /// The catalogue that the coordinator writes to.
    pub closed spec fn repo(&self) -> OsdrRepo {
        self.repo
    }

    /// The adapter that the coordinator fetches with.
    pub closed spec fn client(&self) -> NasaClient {
        self.client
    }

    /// Where the catalogue is fetched from.
    pub closed spec fn url(&self) -> Seq<char> {
        self.osdr_url@
    }

    pub fn new(repo: OsdrRepo, client: NasaClient, osdr_url: String) -> (service: Self)
        ensures
            service.repo() == repo,
            service.client() == client,
            service.url() == osdr_url@,
    {
        Self { repo, client, osdr_url }
    }

    /// Starts the request for the catalogue.
    pub fn fetch(&self) -> (fetch: Fetch)
        ensures
            fetch.attempt() == 1,
            fetch.retries() == self.client().base().retries(),
            fetch.target()@ == (RequestView { url: self.url(), query: Seq::empty() }),
    {
        self.client.fetch_osdr(self.osdr_url.as_str())
    }

    /// Writes the items of a fetched document to the catalogue, in their
    /// order: each under the key it brings, or under the key derived from its
    /// text, with the title, status and time of last change read from it.
    /// Returns how many items were written, which is all of them unless the
    /// store fails; what was written before a failure stays.
    pub fn sync(&mut self, items: &Vec<RawItem>, now: Timestamp) -> (written: Result<usize, ApiError>)
        ensures
            final(self).client() == old(self).client(),
            final(self).url() == old(self).url(),
            ({
                let end = sync_from(
                    old(self).repo()@,
                    old(self).repo().next_id(),
                    0,
                    raw_items_view(items@),
                    now,
                );
                &&& final(self).repo()@ == end.rows
                &&& final(self).repo().next_id() == end.next_id
                &&& match written {
                    Ok(n) => end.complete && n == end.written && n == items@.len(),
                    Err(e) => !end.complete && e@ == ids_exhausted(),
                }
            }),
    {
        let ghost all = raw_items_view(items@);
        let mut i: usize = 0;
        proof {
            assert(all.skip(0) =~= all);
        }
        while i < items.len()
            invariant
                i <= items@.len(),
                all == raw_items_view(items@),
                self.client() == old(self).client(),
                self.url() == old(self).url(),
                sync_from(old(self).repo()@, old(self).repo().next_id(), 0, all, now) == sync_from(
                    self.repo()@,
                    self.repo().next_id(),
                    i as nat,
                    all.skip(i as int),
                    now,
                ),
            decreases items@.len() - i,
        {
            let item = &items[i];
            let fields = describe(&item.value, now);
            proof {
                assert(all.skip(i as int)[0] == item@);
                assert(all.skip(i as int).skip(1) =~= all.skip(i + 1));
            }
            match self.repo.upsert(
                fields.dataset_id,
                fields.title,
                fields.status,
                fields.updated_at,
                item.text.clone(),
                now,
            ) {
                Ok(_) => {},
                Err(e) => {
                    return Err(e);
                },
            }
            i = i + 1;
        }
        Ok(i)
    }

    /// The rows of the catalogue from the newest to the oldest, without the
    /// first `offset` of them and cut to `limit`.
    pub fn list(&self, limit: usize, offset: usize) -> (response: OsdrListResponse)
        ensures
            rows_view(response.items@) == page(self.repo()@, limit as nat, offset as nat),
            response.total == response.items@.len(),
    {
        let items = self.repo.list(limit, offset);
        let total = items.len();
        OsdrListResponse { items, total }
    }

    /// The number of rows in the catalogue.
    pub fn count(&self) -> (n: i64)
        ensures
            n == self.repo()@.len(),
    {
        self.repo.count()
    }
}

} // verus!
