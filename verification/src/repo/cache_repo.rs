//! The tagged cache: an append-only log of payloads, each under the tag of the
//! source it came from, with a retention that keeps the newest rows of a source.

use vstd::prelude::*;
use crate::error::{ids_exhausted, ApiError};
use crate::text::same_text;
use crate::time::Timestamp;

verus! {

/// A row of the cache.
#[derive(Debug)]
pub struct SpaceCacheEntry {
    pub id: i64,
    pub source: String,
    pub fetched_at: Timestamp,
    /// The payload as it was fetched, in its serialized form.
    pub payload: String,
}

pub struct SpaceCacheEntryView {
    pub id: i64,
    pub source: Seq<char>,
    pub fetched_at: Timestamp,
    pub payload: Seq<char>,
}

impl View for SpaceCacheEntry {
    type V = SpaceCacheEntryView;

    open spec fn view(&self) -> SpaceCacheEntryView {
        SpaceCacheEntryView {
            id: self.id,
            source: self.source@,
            fetched_at: self.fetched_at,
            payload: self.payload@,
        }
    }
}

impl SpaceCacheEntry {
    /// A copy of the row.
    pub fn duplicate(&self) -> (copy: SpaceCacheEntry)
        ensures
            copy@ == self@,
    {
        SpaceCacheEntry {
            id: self.id,
            source: self.source.clone(),
            fetched_at: self.fetched_at,
            payload: self.payload.clone(),
        }
    }
}

/// The rows by their views.
pub open spec fn entries_view(rows: Seq<SpaceCacheEntry>) -> Seq<SpaceCacheEntryView> {
    Seq::new(rows.len(), |i: int| rows[i]@)
}

/// The newest rows of `source`, at most `n` of them, the newest first.
pub open spec fn recent(rows: Seq<SpaceCacheEntryView>, source: Seq<char>, n: nat) -> Seq<
    SpaceCacheEntryView,
>
    decreases rows.len(),
{
    if rows.len() == 0 || n == 0 {
        Seq::empty()
    } else if rows.last().source == source {
        seq![rows.last()] + recent(rows.drop_last(), source, (n - 1) as nat)
    } else {
        recent(rows.drop_last(), source, n)
    }
}

/// The rows that a cleanup of `source` leaves: every row of another source, and
/// the newest `keep` rows of `source`, in their order.
pub open spec fn retained(rows: Seq<SpaceCacheEntryView>, source: Seq<char>, keep: nat) -> Seq<
    SpaceCacheEntryView,
>
    decreases rows.len(),
{
    if rows.len() == 0 {
        Seq::empty()
    } else if rows.last().source != source {
        retained(rows.drop_last(), source, keep).push(rows.last())
    } else if keep > 0 {
        retained(rows.drop_last(), source, (keep - 1) as nat).push(rows.last())
    } else {
        retained(rows.drop_last(), source, 0)
    }
}

/// The ids rise along the rows and lie between 1 and `next_id`.
pub open spec fn ids_rising(rows: Seq<SpaceCacheEntryView>, next_id: i64) -> bool {
    &&& forall|i: int| 0 <= i < rows.len() ==> 1 <= (#[trigger] rows[i]).id < next_id
    &&& forall|i: int, j: int|
        0 <= i < j < rows.len() ==> (#[trigger] rows[i]).id < (#[trigger] rows[j]).id
}

/// The cache, with its rows in the order in which they were written.
#[derive(Debug)]
pub struct CacheRepo {
    rows: Vec<SpaceCacheEntry>,
    next_id: i64,
}

impl View for CacheRepo {
    type V = Seq<SpaceCacheEntryView>;

    closed spec fn view(&self) -> Seq<SpaceCacheEntryView> {
        entries_view(self.rows@)
    }
}

impl CacheRepo {
    #[verifier::type_invariant]
    spec fn consistent(self) -> bool {
        &&& ids_rising(self@, self.next_id)
        &&& 1 <= self.next_id
    }

    /// The id that the next row gets.
    pub closed spec fn next_id(&self) -> i64 {
        self.next_id
    }

    /// An empty cache.
    pub fn new() -> (repo: Self)
        ensures
            repo@ == Seq::<SpaceCacheEntryView>::empty(),
            repo.next_id() == 1,
    {
        let repo = CacheRepo { rows: Vec::new(), next_id: 1 };
        assert(repo@ =~= Seq::<SpaceCacheEntryView>::empty());
        repo
    }

    fn take_rows(&mut self) -> (rows: Vec<SpaceCacheEntry>)
        ensures
            rows == old(self).rows,
            final(self).next_id == old(self).next_id,
    {
        proof {
            use_type_invariant(&*self);
        }
        let mut rows: Vec<SpaceCacheEntry> = Vec::new();
        assert(entries_view(rows@) =~= Seq::<SpaceCacheEntryView>::empty());
        core::mem::swap(&mut self.rows, &mut rows);
        rows
    }

    /// Appends a payload under the tag of its source; never touches a row that
    /// is there. Returns the id of the new row. The write fails, and changes
    /// nothing, only where no id is left.
    pub fn insert(&mut self, source: &str, payload: String, now: Timestamp) -> (written: Result<
        i64,
        ApiError,
    >)
        ensures
            ids_rising(final(self)@, final(self).next_id()),
            match written {
                Ok(id) => {
                    &&& id == old(self).next_id()
                    &&& id < i64::MAX
                    &&& final(self).next_id() == id + 1
                    &&& final(self)@ == old(self)@.push(
                        SpaceCacheEntryView {
                            id,
                            source: source@,
                            fetched_at: now,
                            payload: payload@,
                        },
                    )
                },
                Err(e) => {
                    &&& old(self).next_id() == i64::MAX
                    &&& final(self)@ == old(self)@
                    &&& final(self).next_id() == old(self).next_id()
                    &&& e@ == ids_exhausted()
                },
            },
    {
        proof {
            use_type_invariant(&*self);
        }
        if self.next_id == 0x7fff_ffff_ffff_ffffi64 {
            return Err(ApiError::no_id_left());
        }
        let id = self.next_id;
        let ghost before = self@;
        let entry = SpaceCacheEntry {
            id,
            source: String::from_str(source),
            fetched_at: now,
            payload,
        };
        let mut rows = self.take_rows();
        rows.push(entry);
        proof {
            assert(entries_view(rows@) =~= before.push(entry@));
        }
        *self = CacheRepo { rows, next_id: id + 1 };
        Ok(id)
    }

    /// The newest row of `source`, if it has any.
    pub fn get_latest(&self, source: &str) -> (found: Option<SpaceCacheEntry>)
        ensures
            match found {
                Some(entry) => recent(self@, source@, 1) == seq![entry@],
                None => recent(self@, source@, 1).len() == 0,
            },
    {
        let mut found = self.get_last_n(source, 1);
        proof {
            lemma_recent_len(self@, source@, 1);
            assert(entries_view(found@).len() == found@.len());
        }
        let ghost all = found@;
        let newest = found.pop();
        proof {
            if all.len() == 1 {
                assert(entries_view(all) =~= seq![all[0]@]);
            }
        }
        newest
    }

    /// The newest rows of `source`, at most `n` of them, the newest first.
    pub fn get_last_n(&self, source: &str, n: usize) -> (found: Vec<SpaceCacheEntry>)
        ensures
            entries_view(found@) == recent(self@, source@, n as nat),
    {
        let mut found: Vec<SpaceCacheEntry> = Vec::new();
        let mut i: usize = self.rows.len();
        proof {
            assert(self@.take(i as int) =~= self@);
        }
        while i > 0 && found.len() < n
            invariant
                i <= self.rows@.len(),
                found@.len() <= n,
                recent(self@, source@, n as nat) == entries_view(found@) + recent(
                    self@.take(i as int),
                    source@,
                    (n - found@.len()) as nat,
                ),
            decreases i,
        {
            let ghost prefix = self@.take(i as int);
            let ghost got = entries_view(found@);
            i = i - 1;
            proof {
                assert(prefix.drop_last() =~= self@.take(i as int));
                assert(prefix.last() == self@[i as int]);
            }
            if same_text(self.rows[i].source.as_str(), source) {
                found.push(self.rows[i].duplicate());
                proof {
                    assert(entries_view(found@) =~= got + seq![self@[i as int]]);
                }
            }
        }
        proof {
            assert(entries_view(found@) + Seq::<SpaceCacheEntryView>::empty() =~= entries_view(
                found@,
            ));
        }
        found
    }

    /// The number of rows, of all sources together.
    pub fn len(&self) -> (n: usize)
        ensures
            n == self@.len(),
    {
        self.rows.len()
    }

    /// Deletes the rows of `source` but for its newest `keep_last`; rows of
    /// other sources stay. Returns how many rows went.
    pub fn cleanup_old(&mut self, source: &str, keep_last: usize) -> (removed: u64)
        ensures
            final(self).next_id() == old(self).next_id(),
            final(self)@ == retained(old(self)@, source@, keep_last as nat),
            removed == old(self)@.len() - final(self)@.len(),
    {
        proof {
            use_type_invariant(&*self);
        }
        let ghost before = self@;
        let next_id = self.next_id;
        let mut rows = self.take_rows();
        let mut kept: Vec<SpaceCacheEntry> = Vec::new();
        let mut quota: usize = keep_last;
        let mut removed: u64 = 0;
        let total: usize = rows.len();
        proof {
            assert(before.len() == total);
            assert(retained(before, source@, keep_last as nat) + entries_view(kept@).reverse()
                =~= retained(before, source@, keep_last as nat));
        }
        while rows.len() > 0
            invariant
                before.len() == total,
                rows@.len() + kept@.len() + removed == before.len(),
                retained(before, source@, keep_last as nat) == retained(
                    entries_view(rows@),
                    source@,
                    quota as nat,
                ) + entries_view(kept@).reverse(),
            decreases rows@.len(),
        {
            let ghost older = entries_view(rows@);
            let ghost tail = entries_view(kept@).reverse();
            let row = rows.pop().unwrap();
            proof {
                assert(entries_view(rows@) =~= older.drop_last());
                assert(row@ == older.last());
            }
            let mine = same_text(row.source.as_str(), source);
            if !mine || quota > 0 {
                if mine {
                    quota = quota - 1;
                }
                kept.push(row);
                proof {
                    assert(entries_view(kept@).reverse() =~= seq![row@] + tail);
                    assert(retained(entries_view(rows@), source@, quota as nat).push(row@) + tail
                        =~= retained(entries_view(rows@), source@, quota as nat) + (seq![row@]
                        + tail));
                }
            } else {
                removed = removed + 1;
            }
        }
        proof {
            assert(retained(entries_view(rows@), source@, quota as nat) =~= Seq::<
                SpaceCacheEntryView,
            >::empty());
            assert(entries_view(rows@) + entries_view(kept@).reverse() =~= entries_view(
                kept@,
            ).reverse());
        }
        while kept.len() > 0
            invariant
                rows@.len() + kept@.len() + removed == before.len(),
                retained(before, source@, keep_last as nat) == entries_view(rows@) + entries_view(
                    kept@,
                ).reverse(),
            decreases kept@.len(),
        {
            let ghost older = entries_view(rows@);
            let ghost tail = entries_view(kept@).reverse();
            let row = kept.pop().unwrap();
            rows.push(row);
            proof {
                assert(entries_view(rows@) =~= older.push(row@));
                assert(tail =~= seq![row@] + entries_view(kept@).reverse());
                assert(older + tail =~= entries_view(rows@) + entries_view(kept@).reverse());
            }
        }
        proof {
            assert(entries_view(rows@) + entries_view(kept@).reverse() =~= entries_view(rows@));
            lemma_retained_rising(before, source@, keep_last as nat, next_id);
        }
        *self = CacheRepo { rows, next_id };
        removed
    }
}

/// There are at most `n` of the newest `n`.
pub proof fn lemma_recent_len(rows: Seq<SpaceCacheEntryView>, source: Seq<char>, n: nat)
    ensures
        recent(rows, source, n).len() <= n,
        recent(rows, source, n).len() <= rows.len(),
    decreases rows.len(),
{
    if rows.len() > 0 && n > 0 {
        if rows.last().source == source {
            lemma_recent_len(rows.drop_last(), source, (n - 1) as nat);
        } else {
            lemma_recent_len(rows.drop_last(), source, n);
        }
    }
}

/// What a cleanup leaves is part of what was there, in the same order: the ids
/// still rise.
pub proof fn lemma_retained_rising(
    rows: Seq<SpaceCacheEntryView>,
    source: Seq<char>,
    keep: nat,
    next_id: i64,
)
    requires
        ids_rising(rows, next_id),
    ensures
        ids_rising(retained(rows, source, keep), next_id),
        retained(rows, source, keep).len() <= rows.len(),
        forall|i: int|
            0 <= i < retained(rows, source, keep).len() ==> rows.contains(
                #[trigger] retained(rows, source, keep)[i],
            ),
        rows.len() > 0 && retained(rows, source, keep).len() > 0 ==> retained(
            rows,
            source,
            keep,
        ).last().id <= rows.last().id,
    decreases rows.len(),
{
    if rows.len() > 0 {
        let front = rows.drop_last();
        let sub = if rows.last().source != source || keep == 0 {
            keep
        } else {
            (keep - 1) as nat
        };
        assert(ids_rising(front, next_id)) by {
            assert forall|i: int| 0 <= i < front.len() implies 1 <= (#[trigger] front[i]).id
                < next_id by {
                assert(front[i] == rows[i]);
            }
            assert forall|i: int, j: int| 0 <= i < j < front.len() implies (#[trigger] front[i]).id
                < (#[trigger] front[j]).id by {
                assert(front[i] == rows[i] && front[j] == rows[j]);
            }
        }
        lemma_retained_rising(front, source, sub, next_id);
        let kept_front = retained(front, source, sub);
        let out = retained(rows, source, keep);
        assert forall|i: int| 0 <= i < kept_front.len() implies rows.contains(
            #[trigger] kept_front[i],
        ) && kept_front[i].id < rows.last().id by {
            assert(front.contains(kept_front[i]));
            let k = choose|k: int| 0 <= k < front.len() && front[k] == kept_front[i];
            assert(rows[k] == kept_front[i]);
            assert(rows[k].id < rows[rows.len() - 1].id);
        }
        if rows.last().source != source || keep > 0 {
            assert(out == kept_front.push(rows.last()));
            assert(rows[rows.len() - 1] == rows.last());
            assert forall|i: int| 0 <= i < out.len() implies rows.contains(#[trigger] out[i]) by {
                if i < kept_front.len() {
                    assert(out[i] == kept_front[i]);
                }
            }
            assert forall|i: int, j: int| 0 <= i < j < out.len() implies (#[trigger] out[i]).id < (
            #[trigger] out[j]).id by {
                assert(out[i] == kept_front[i]);
                if j < kept_front.len() {
                    assert(out[j] == kept_front[j]);
                }
            }
            assert forall|i: int| 0 <= i < out.len() implies 1 <= (#[trigger] out[i]).id
                < next_id by {
                if i < kept_front.len() {
                    assert(out[i] == kept_front[i]);
                }
            }
        } else {
            assert(out == kept_front);
            if front.len() > 0 && kept_front.len() > 0 {
                assert(front.last() == rows[rows.len() - 2]);
            }
        }
    }
}

/// The smaller of two numbers.
pub open spec fn at_most(n: nat, limit: nat) -> nat {
    if n <= limit {
        n
    } else {
        limit
    }
}

/// A cleanup keeps the newest `keep` rows of its source: what is read of the
/// source afterwards is what was read before, cut to `keep`.
pub proof fn law_cleanup_keeps_newest(
    rows: Seq<SpaceCacheEntryView>,
    source: Seq<char>,
    keep: nat,
    n: nat,
)
    ensures
        recent(retained(rows, source, keep), source, n) == recent(rows, source, at_most(n, keep)),
    decreases rows.len(),
{
    if rows.len() > 0 {
        let front = rows.drop_last();
        let last = rows.last();
        if last.source != source {
            law_cleanup_keeps_newest(front, source, keep, n);
            let out = retained(front, source, keep).push(last);
            assert(out.drop_last() =~= retained(front, source, keep));
            assert(out.last() == last);
        } else if keep > 0 {
            if n > 0 {
                law_cleanup_keeps_newest(front, source, (keep - 1) as nat, (n - 1) as nat);
            }
            let out = retained(front, source, (keep - 1) as nat).push(last);
            assert(out.drop_last() =~= retained(front, source, (keep - 1) as nat));
            assert(out.last() == last);
        } else {
            law_cleanup_keeps_newest(front, source, 0, n);
        }
    }
}

/// A cleanup of one source changes nothing that is read of another.
pub proof fn law_cleanup_spares_others(
    rows: Seq<SpaceCacheEntryView>,
    source: Seq<char>,
    keep: nat,
    other: Seq<char>,
    n: nat,
)
    requires
        other != source,
    ensures
        recent(retained(rows, source, keep), other, n) == recent(rows, other, n),
    decreases rows.len(),
{
    if rows.len() > 0 {
        let front = rows.drop_last();
        let last = rows.last();
        if last.source != source {
            law_cleanup_spares_others(front, source, keep, other, n);
            if n > 0 {
                law_cleanup_spares_others(front, source, keep, other, (n - 1) as nat);
            }
            let out = retained(front, source, keep).push(last);
            assert(out.drop_last() =~= retained(front, source, keep));
            assert(out.last() == last);
        } else if keep > 0 {
            law_cleanup_spares_others(front, source, (keep - 1) as nat, other, n);
            let out = retained(front, source, (keep - 1) as nat).push(last);
            assert(out.drop_last() =~= retained(front, source, (keep - 1) as nat));
            assert(out.last() == last);
        } else {
            law_cleanup_spares_others(front, source, 0, other, n);
        }
    }
}

/// A row that was just inserted is the newest of its source.
pub proof fn law_insert_is_latest(rows: Seq<SpaceCacheEntryView>, entry: SpaceCacheEntryView)
    ensures
        recent(rows.push(entry), entry.source, 1) == seq![entry],
{
    let after = rows.push(entry);
    assert(after.last() == entry);
    assert(recent(after.drop_last(), entry.source, 0) =~= Seq::<SpaceCacheEntryView>::empty());
    assert(seq![entry] + Seq::<SpaceCacheEntryView>::empty() =~= seq![entry]);
}

} // verus!
