//! The catalogue of datasets: one row per key, written by insert-or-update.

use vstd::prelude::*;
use crate::error::{ids_exhausted, ApiError};
use crate::text::{copy_opt, opt_view, same_text};
use crate::time::Timestamp;

verus! {

/// The hyphenated text of the name-based (SHA-1) UUID that `uuid` derives from
/// a name in the namespace of ISO object identifiers.
pub uninterp spec fn name_uuid_text(name: Seq<char>) -> Seq<char>;

/// `uuid::Uuid::new_v5` in `Uuid::NAMESPACE_OID` over the bytes of `name`,
/// printed with `to_string`. The result depends on the name alone.
#[verifier::external_body]
fn name_uuid(name: &str) -> (text: String)
    ensures
        text@ == name_uuid_text(name@),
{
    uuid::Uuid::new_v5(&uuid::Uuid::NAMESPACE_OID, name.as_bytes()).to_string()
}

/// The key of a payload that brings none: a marker and the name-based UUID of
/// the payload's text.
pub open spec fn synthetic_key_of(raw: Seq<char>) -> Seq<char> {
    "gen-"@ + name_uuid_text(raw)
}

/// The key under which a payload is stored: its natural key where it has one,
/// else the key derived from its text.
pub open spec fn resolved_key(natural: Option<Seq<char>>, raw: Seq<char>) -> Seq<char> {
    match natural {
        Some(key) => key,
        None => synthetic_key_of(raw),
    }
}

/// Marks an identifier as one that was derived, to tell it from a natural key.
pub fn marked(id: &str) -> (key: String)
    ensures
        key@ == "gen-"@ + id@,
{
    String::from_str("gen-").concat(id)
}

/// Derives the key of a payload from its text.
pub fn synthetic_key(raw: &str) -> (key: String)
    ensures
        key@ == synthetic_key_of(raw@),
{
    let id = name_uuid(raw);
    marked(id.as_str())
}

/// The key under which a payload is stored.
pub fn resolve_key(natural: Option<String>, raw: &str) -> (key: String)
    ensures
        key@ == resolved_key(opt_view(natural), raw@),
{
    match natural {
        Some(key) => key,
        None => synthetic_key(raw),
    }
}

/// A row of the catalogue.
#[derive(Debug)]
pub struct OsdrItem {
    pub id: i64,
    pub dataset_id: String,
    pub title: Option<String>,
    pub status: Option<String>,
    /// When the upstream says the dataset last changed.
    pub updated_at: Option<Timestamp>,
    /// When the key was first seen.
    pub inserted_at: Timestamp,
    /// The payload as it was fetched, in its serialized form.
    pub raw: String,
}

pub struct OsdrItemView {
    pub id: i64,
    pub dataset_id: Seq<char>,
    pub title: Option<Seq<char>>,
    pub status: Option<Seq<char>>,
    pub updated_at: Option<Timestamp>,
    pub inserted_at: Timestamp,
    pub raw: Seq<char>,
}

impl View for OsdrItem {
    type V = OsdrItemView;

    open spec fn view(&self) -> OsdrItemView {
        OsdrItemView {
            id: self.id,
            dataset_id: self.dataset_id@,
            title: opt_view(self.title),
            status: opt_view(self.status),
            updated_at: self.updated_at,
            inserted_at: self.inserted_at,
            raw: self.raw@,
        }
    }
}

impl OsdrItem {
    /// A copy of the row.
    pub fn duplicate(&self) -> (copy: OsdrItem)
        ensures
            copy@ == self@,
    {
        OsdrItem {
            id: self.id,
            dataset_id: self.dataset_id.clone(),
            title: copy_opt(&self.title),
            status: copy_opt(&self.status),
            updated_at: self.updated_at,
            inserted_at: self.inserted_at,
            raw: self.raw.clone(),
        }
    }
}

/// What an upsert writes: the content that the latest fetch brought for a key.
pub struct Content {
    pub title: Option<Seq<char>>,
    pub status: Option<Seq<char>>,
    pub updated_at: Option<Timestamp>,
    pub raw: Seq<char>,
}

impl OsdrItemView {
    /// The content of the row.
    pub open spec fn content(self) -> Content {
        Content {
            title: self.title,
            status: self.status,
            updated_at: self.updated_at,
            raw: self.raw,
        }
    }

    /// The row with its content replaced; its id, key and first-seen time stay.
    pub open spec fn overwritten(self, content: Content) -> OsdrItemView {
        OsdrItemView {
            id: self.id,
            dataset_id: self.dataset_id,
            title: content.title,
            status: content.status,
            updated_at: content.updated_at,
            inserted_at: self.inserted_at,
            raw: content.raw,
        }
    }
}

/// Whether a row is stored under `key`.
pub open spec fn has_key(rows: Seq<OsdrItemView>, key: Seq<char>) -> bool {
    exists|i: int| 0 <= i < rows.len() && (#[trigger] rows[i]).dataset_id == key
}

/// The place of a row stored under `key`.
pub open spec fn key_index(rows: Seq<OsdrItemView>, key: Seq<char>) -> int {
    choose|i: int| 0 <= i < rows.len() && (#[trigger] rows[i]).dataset_id == key
}

/// Exactly one row is stored under `key`.
pub open spec fn exactly_one_row(rows: Seq<OsdrItemView>, key: Seq<char>) -> bool {
    &&& has_key(rows, key)
    &&& forall|i: int, j: int|
        0 <= i < rows.len() && 0 <= j < rows.len() && (#[trigger] rows[i]).dataset_id == key && (
        #[trigger] rows[j]).dataset_id == key ==> i == j
}

/// No key occurs in two rows.
pub open spec fn keys_unique(rows: Seq<OsdrItemView>) -> bool {
    forall|i: int, j: int|
        0 <= i < j < rows.len() ==> (#[trigger] rows[i]).dataset_id != (#[trigger] rows[j]).dataset_id
}

/// The ids rise along the rows and lie between 1 and `next_id`.
pub open spec fn ids_rising(rows: Seq<OsdrItemView>, next_id: i64) -> bool {
    &&& forall|i: int| 0 <= i < rows.len() ==> 1 <= (#[trigger] rows[i]).id < next_id
    &&& forall|i: int, j: int|
        0 <= i < j < rows.len() ==> (#[trigger] rows[i]).id < (#[trigger] rows[j]).id
}

/// The rows after `content` was written under `key` at the time `now`: the
/// row of that key overwritten in place, or a new row at the end.
pub open spec fn upserted(
    rows: Seq<OsdrItemView>,
    next_id: i64,
    key: Seq<char>,
    content: Content,
    now: Timestamp,
) -> Seq<OsdrItemView> {
    if has_key(rows, key) {
        rows.update(key_index(rows, key), rows[key_index(rows, key)].overwritten(content))
    } else {
        rows.push(
            OsdrItemView {
                id: next_id,
                dataset_id: key,
                title: content.title,
                status: content.status,
                updated_at: content.updated_at,
                inserted_at: now,
                raw: content.raw,
            },
        )
    }
}

/// The id of the row that an upsert under `key` writes.
pub open spec fn upserted_id(rows: Seq<OsdrItemView>, next_id: i64, key: Seq<char>) -> i64 {
    if has_key(rows, key) {
        rows[key_index(rows, key)].id
    } else {
        next_id
    }
}

/// The rows from the newest to the oldest, without the first `offset` of them
/// and cut to `limit`.
pub open spec fn page(rows: Seq<OsdrItemView>, limit: nat, offset: nat) -> Seq<OsdrItemView> {
    let newest_first = rows.reverse();
    let from = if offset < rows.len() {
        offset
    } else {
        rows.len()
    };
    let to = if from + limit < rows.len() {
        from + limit
    } else {
        rows.len()
    };
    newest_first.subrange(from as int, to as int)
}

/// The catalogue, with its rows in the order in which their keys were first seen.
#[derive(Debug)]
pub struct OsdrRepo {
    rows: Vec<OsdrItem>,
    next_id: i64,
}

/// The rows by their views.
pub open spec fn items_view(rows: Seq<OsdrItem>) -> Seq<OsdrItemView> {
    Seq::new(rows.len(), |i: int| rows[i]@)
}

impl View for OsdrRepo {
    type V = Seq<OsdrItemView>;

    closed spec fn view(&self) -> Seq<OsdrItemView> {
        items_view(self.rows@)
    }
}

impl OsdrRepo {
    #[verifier::type_invariant]
    spec fn consistent(self) -> bool {
        &&& keys_unique(self@)
        &&& ids_rising(self@, self.next_id)
        &&& self.rows@.len() < self.next_id
    }

    /// The id that the next new key gets.
    pub closed spec fn next_id(&self) -> i64 {
        self.next_id
    }

    /// An empty catalogue.
    pub fn new() -> (repo: Self)
        ensures
            repo@ == Seq::<OsdrItemView>::empty(),
            repo.next_id() == 1,
    {
        let repo = OsdrRepo { rows: Vec::new(), next_id: 1 };
        assert(repo@ =~= Seq::<OsdrItemView>::empty());
        repo
    }

    fn take_rows(&mut self) -> (rows: Vec<OsdrItem>)
        ensures
            rows == old(self).rows,
            final(self).next_id == old(self).next_id,
    {
        proof {
            use_type_invariant(&*self);
        }
        let mut rows: Vec<OsdrItem> = Vec::new();
        assert(items_view(rows@) =~= Seq::<OsdrItemView>::empty());
        core::mem::swap(&mut self.rows, &mut rows);
        rows
    }

    fn position(&self, key: &str) -> (at: usize)
        ensures
            at <= self@.len(),
            self@.len() == self.rows@.len(),
            forall|j: int| 0 <= j < at ==> (#[trigger] self@[j]).dataset_id != key@,
            at < self@.len() ==> self@[at as int].dataset_id == key@,
            (at < self@.len()) == has_key(self@, key@),
    {
        let mut i: usize = 0;
        while i < self.rows.len() && !same_text(self.rows[i].dataset_id.as_str(), key)
            invariant
                i <= self.rows@.len(),
                forall|j: int| 0 <= j < i ==> (#[trigger] self@[j]).dataset_id != key@,
            decreases self.rows@.len() - i,
        {
            i = i + 1;
        }
        proof {
            if i < self.rows@.len() {
                assert(self@[i as int].dataset_id == key@);
            }
        }
        i
    }

    /// Writes a payload under its key: the natural key where one is given, else
    /// the key derived from the payload's text. A row that is there under the
    /// key gets the new title, status, upstream time and payload and keeps its
    /// id and first-seen time; otherwise a new row is added, first seen `now`.
    /// Returns the id of the row. The write fails, and changes nothing, only
    /// where a new row is due and no id is left for it.
    pub fn upsert(
        &mut self,
        dataset_id: Option<String>,
        title: Option<String>,
        status: Option<String>,
        updated_at: Option<Timestamp>,
        raw: String,
        now: Timestamp,
    ) -> (written: Result<i64, ApiError>)
        ensures
            keys_unique(old(self)@),
            keys_unique(final(self)@),
            ({
                let key = resolved_key(opt_view(dataset_id), raw@);
                let content = Content {
                    title: opt_view(title),
                    status: opt_view(status),
                    updated_at,
                    raw: raw@,
                };
                match written {
                    Ok(id) => {
                        &&& has_key(old(self)@, key) || old(self).next_id() < i64::MAX
                        &&& final(self)@ == upserted(
                            old(self)@,
                            old(self).next_id(),
                            key,
                            content,
                            now,
                        )
                        &&& id == upserted_id(old(self)@, old(self).next_id(), key)
                        &&& final(self).next_id() == next_id_after(
                            old(self)@,
                            old(self).next_id(),
                            key,
                        )
                    },
                    Err(e) => {
                        &&& !has_key(old(self)@, key)
                        &&& old(self).next_id() == i64::MAX
                        &&& final(self)@ == old(self)@
                        &&& final(self).next_id() == old(self).next_id()
                        &&& e@ == ids_exhausted()
                    },
                }
            }),
    {
        proof {
            use_type_invariant(&*self);
        }
        let key = resolve_key(dataset_id, raw.as_str());
        let at = self.position(key.as_str());
        let ghost before = self@;
        let ghost content = Content {
            title: opt_view(title),
            status: opt_view(status),
            updated_at,
            raw: raw@,
        };
        if at < self.rows.len() {
            proof {
                lemma_key_index(before, key@, at as int);
                lemma_upserted(before, self.next_id, key@, content, now);
            }
            let id = self.rows[at].id;
            let inserted_at = self.rows[at].inserted_at;
            let item = OsdrItem { id, dataset_id: key, title, status, updated_at, inserted_at, raw };
            let next_id = self.next_id;
            let mut rows = self.take_rows();
            rows.set(at, item);
            proof {
                assert(items_view(rows@) =~= before.update(
                    at as int,
                    before[at as int].overwritten(content),
                ));
            }
            *self = OsdrRepo { rows, next_id };
            Ok(id)
        } else if self.next_id == 0x7fff_ffff_ffff_ffffi64 {
            Err(ApiError::no_id_left())
        } else {
            let id = self.next_id;
            let item = OsdrItem {
                id,
                dataset_id: key,
                title,
                status,
                updated_at,
                inserted_at: now,
                raw,
            };
            proof {
                lemma_upserted(before, self.next_id, key@, content, now);
            }
            let mut rows = self.take_rows();
            rows.push(item);
            proof {
                assert(items_view(rows@) =~= before.push(item@));
            }
            *self = OsdrRepo { rows, next_id: id + 1 };
            Ok(id)
        }
    }

    /// The rows from the newest to the oldest, without the first `offset` of
    /// them and cut to `limit`.
    pub fn list(&self, limit: usize, offset: usize) -> (items: Vec<OsdrItem>)
        ensures
            items_view(items@) == page(self@, limit as nat, offset as nat),
    {
        let len = self.rows.len();
        let from = if offset < len {
            offset
        } else {
            len
        };
        let to = if limit < len - from {
            from + limit
        } else {
            len
        };
        let mut items: Vec<OsdrItem> = Vec::new();
        let mut k: usize = from;
        while k < to
            invariant
                from <= k <= to <= len,
                len == self.rows@.len(),
                items@.len() == k - from,
                forall|j: int|
                    0 <= j < items@.len() ==> (#[trigger] items@[j])@ == self@[len - 1 - (from + j)],
            decreases to - k,
        {
            items.push(self.rows[len - 1 - k].duplicate());
            k = k + 1;
        }
        proof {
            assert(items_view(items@) =~= page(self@, limit as nat, offset as nat));
        }
        items
    }

    /// The number of rows.
    pub fn count(&self) -> (n: i64)
        ensures
            n == self@.len(),
    {
        proof {
            use_type_invariant(self);
        }
        self.rows.len() as i64
    }

    /// The row stored under `dataset_id`, if there is one.
    pub fn find_by_dataset_id(&self, dataset_id: &str) -> (found: Option<OsdrItem>)
        ensures
            match found {
                Some(item) => has_key(self@, dataset_id@) && item@ == self@[key_index(
                    self@,
                    dataset_id@,
                )],
                None => !has_key(self@, dataset_id@),
            },
    {
        proof {
            use_type_invariant(self);
        }
        let at = self.position(dataset_id);
        if at < self.rows.len() {
            proof {
                lemma_key_index(self@, dataset_id@, at as int);
            }
            Some(self.rows[at].duplicate())
        } else {
            None
        }
    }
}

/// Where the keys are unique, the place of a key is the one place that holds it.
pub proof fn lemma_key_index(rows: Seq<OsdrItemView>, key: Seq<char>, at: int)
    requires
        0 <= at < rows.len(),
        rows[at].dataset_id == key,
        forall|j: int| 0 <= j < at ==> (#[trigger] rows[j]).dataset_id != key,
        keys_unique(rows),
    ensures
        has_key(rows, key),
        key_index(rows, key) == at,
{
    let chosen = key_index(rows, key);
    if chosen > at {
        assert(rows[at].dataset_id != rows[chosen].dataset_id);
    }
}

/// The id that the next new key gets, after a write under `key`.
pub open spec fn next_id_after(rows: Seq<OsdrItemView>, next_id: i64, key: Seq<char>) -> i64 {
    if has_key(rows, key) {
        next_id
    } else {
        (next_id + 1) as i64
    }
}

/// A write keeps one row per key, leaves exactly one row under the key it
/// wrote, and that row holds the content that was written.
pub proof fn lemma_upserted(
    rows: Seq<OsdrItemView>,
    next_id: i64,
    key: Seq<char>,
    content: Content,
    now: Timestamp,
)
    requires
        keys_unique(rows),
    ensures
        keys_unique(upserted(rows, next_id, key, content, now)),
        exactly_one_row(upserted(rows, next_id, key, content, now), key),
        upserted(rows, next_id, key, content, now)[key_index(
            upserted(rows, next_id, key, content, now),
            key,
        )].content() == content,
        upserted(rows, next_id, key, content, now).len() == if has_key(rows, key) {
            rows.len()
        } else {
            rows.len() + 1
        },
        forall|other: Seq<char>|
            other != key ==> (has_key(upserted(rows, next_id, key, content, now), other)
                <==> has_key(rows, other)),
{
    let after = upserted(rows, next_id, key, content, now);
    let at = if has_key(rows, key) {
        key_index(rows, key)
    } else {
        rows.len() as int
    };
    assert(after[at].dataset_id == key);
    assert forall|i: int| 0 <= i < after.len() && i != at implies (#[trigger] after[i]).dataset_id
        != key by {
        assert(after[i] == rows[i]);
        if has_key(rows, key) {
            if i < at {
                assert(rows[i].dataset_id != rows[at].dataset_id);
            } else {
                assert(rows[at].dataset_id != rows[i].dataset_id);
            }
        }
    }
    assert forall|i: int, j: int| 0 <= i < j < after.len() implies (#[trigger] after[i]).dataset_id
        != (#[trigger] after[j]).dataset_id by {
        if i != at && j != at {
            assert(after[i] == rows[i] && after[j] == rows[j]);
        }
    }
    assert forall|other: Seq<char>| other != key implies (has_key(after, other) <==> has_key(
        rows,
        other,
    )) by {
        if has_key(after, other) {
            let i = key_index(after, other);
            assert(i != at);
            assert(after[i] == rows[i]);
        }
        if has_key(rows, other) {
            let i = key_index(rows, other);
            assert(i != at);
            assert(after[i] == rows[i]);
        }
    }
}

/// Writing twice under one key, whatever the two payloads, leaves exactly one
/// row under that key, and the row holds what the second write brought: the
/// order of the writes decides, not the times that the payloads carry.
pub proof fn law_upsert_idempotent(
    rows: Seq<OsdrItemView>,
    next_id: i64,
    key: Seq<char>,
    first: Content,
    second: Content,
    first_at: Timestamp,
    second_at: Timestamp,
)
    requires
        keys_unique(rows),
    ensures
        ({
            let once = upserted(rows, next_id, key, first, first_at);
            let twice = upserted(once, next_id_after(rows, next_id, key), key, second, second_at);
            &&& exactly_one_row(twice, key)
            &&& twice[key_index(twice, key)].content() == second
            &&& twice.len() == once.len()
            &&& keys_unique(twice)
        }),
{
    let once = upserted(rows, next_id, key, first, first_at);
    lemma_upserted(rows, next_id, key, first, first_at);
    lemma_upserted(once, next_id_after(rows, next_id, key), key, second, second_at);
}

/// Writing the same text twice without a natural key leaves exactly one row:
/// the derived key depends on the text alone.
pub proof fn law_same_content_one_row(
    rows: Seq<OsdrItemView>,
    next_id: i64,
    first: Content,
    second: Content,
    first_at: Timestamp,
    second_at: Timestamp,
)
    requires
        keys_unique(rows),
        first.raw == second.raw,
    ensures
        resolved_key(None, first.raw) == resolved_key(None, second.raw),
        ({
            let key = resolved_key(None, first.raw);
            let once = upserted(rows, next_id, key, first, first_at);
            let twice = upserted(once, next_id_after(rows, next_id, key), key, second, second_at);
            &&& exactly_one_row(twice, key)
            &&& twice.len() == once.len()
        }),
{
    law_upsert_idempotent(
        rows,
        next_id,
        resolved_key(None, first.raw),
        first,
        second,
        first_at,
        second_at,
    );
}

/// Two texts without a natural key whose derived keys differ, neither of them
/// stored before, come to stand in two rows.
pub proof fn law_changed_content_two_rows(
    rows: Seq<OsdrItemView>,
    next_id: i64,
    first: Content,
    second: Content,
    first_at: Timestamp,
    second_at: Timestamp,
)
    requires
        keys_unique(rows),
        synthetic_key_of(first.raw) != synthetic_key_of(second.raw),
        !has_key(rows, synthetic_key_of(first.raw)),
        !has_key(rows, synthetic_key_of(second.raw)),
    ensures
        ({
            let one = resolved_key(None, first.raw);
            let other = resolved_key(None, second.raw);
            let once = upserted(rows, next_id, one, first, first_at);
            let twice = upserted(once, next_id_after(rows, next_id, one), other, second, second_at);
            &&& twice.len() == rows.len() + 2
            &&& exactly_one_row(twice, one)
            &&& exactly_one_row(twice, other)
        }),
{
    let one = resolved_key(None, first.raw);
    let other = resolved_key(None, second.raw);
    let once = upserted(rows, next_id, one, first, first_at);
    let twice = upserted(once, next_id_after(rows, next_id, one), other, second, second_at);
    lemma_upserted(rows, next_id, one, first, first_at);
    lemma_upserted(once, next_id_after(rows, next_id, one), other, second, second_at);
    assert(!has_key(once, other));
    assert(twice == once.push(twice[once.len() as int]));
    assert(has_key(twice, one)) by {
        let i = key_index(once, one);
        assert(twice[i] == once[i]);
    }
    assert forall|i: int, j: int|
        0 <= i < twice.len() && 0 <= j < twice.len() && (#[trigger] twice[i]).dataset_id == one && (
        #[trigger] twice[j]).dataset_id == one implies i == j by {
        if i < j {
            assert(twice[i].dataset_id != twice[j].dataset_id);
        } else if j < i {
            assert(twice[j].dataset_id != twice[i].dataset_id);
        }
    }
}

} // verus!
