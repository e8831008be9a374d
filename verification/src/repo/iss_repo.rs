//! The fetch log of the station's position: one row per successful fetch,
//! never changed once written.

use vstd::prelude::*;
use crate::error::{ids_exhausted, ApiError};
use crate::time::Timestamp;

verus! {

/// A row of the fetch log.
#[derive(Debug)]
pub struct FetchRecord {
    pub id: i64,
    pub fetched_at: Timestamp,
    pub source_url: String,
    /// The payload as it was fetched, in its serialized form.
    pub payload: String,
}

pub struct FetchRecordView {
    pub id: i64,
    pub fetched_at: Timestamp,
    pub source_url: Seq<char>,
    pub payload: Seq<char>,
}

impl View for FetchRecord {
    type V = FetchRecordView;

    open spec fn view(&self) -> FetchRecordView {
        FetchRecordView {
            id: self.id,
            fetched_at: self.fetched_at,
            source_url: self.source_url@,
            payload: self.payload@,
        }
    }
}

impl FetchRecord {
    /// A copy of the row.
    pub fn duplicate(&self) -> (copy: FetchRecord)
        ensures
            copy@ == self@,
    {
        FetchRecord {
            id: self.id,
            fetched_at: self.fetched_at,
            source_url: self.source_url.clone(),
            payload: self.payload.clone(),
        }
    }
}

/// The rows by their views.
pub open spec fn records_view(rows: Seq<FetchRecord>) -> Seq<FetchRecordView> {
    Seq::new(rows.len(), |i: int| rows[i]@)
}

/// The newest rows, at most `n` of them, the newest first.
pub open spec fn newest(rows: Seq<FetchRecordView>, n: nat) -> Seq<FetchRecordView> {
    Seq::new(
        if n <= rows.len() {
            n
        } else {
            rows.len()
        },
        |i: int| rows[rows.len() - 1 - i],
    )
}

/// The rows fetched from `from` to `to`, both included, the newest first.
pub open spec fn fetched_between(rows: Seq<FetchRecordView>, from: Timestamp, to: Timestamp) -> Seq<
    FetchRecordView,
>
    decreases rows.len(),
{
    if rows.len() == 0 {
        Seq::empty()
    } else if from.not_after(rows.last().fetched_at) && rows.last().fetched_at.not_after(to) {
        seq![rows.last()] + fetched_between(rows.drop_last(), from, to)
    } else {
        fetched_between(rows.drop_last(), from, to)
    }
}

/// The ids rise along the rows and lie between 1 and `next_id`.
pub open spec fn ids_rising(rows: Seq<FetchRecordView>, next_id: i64) -> bool {
    &&& forall|i: int| 0 <= i < rows.len() ==> 1 <= (#[trigger] rows[i]).id < next_id
    &&& forall|i: int, j: int|
        0 <= i < j < rows.len() ==> (#[trigger] rows[i]).id < (#[trigger] rows[j]).id
}

/// The fetch log, with its rows in the order in which they were written.
#[derive(Debug)]
pub struct IssRepo {
    rows: Vec<FetchRecord>,
    next_id: i64,
}

impl View for IssRepo {
    type V = Seq<FetchRecordView>;

    closed spec fn view(&self) -> Seq<FetchRecordView> {
        records_view(self.rows@)
    }
}

impl IssRepo {
    #[verifier::type_invariant]
    spec fn consistent(self) -> bool {
        &&& ids_rising(self@, self.next_id)
        &&& self.rows@.len() < self.next_id
    }

    /// The id that the next row gets.
    pub closed spec fn next_id(&self) -> i64 {
        self.next_id
    }

    /// An empty log.
    pub fn new() -> (repo: Self)
        ensures
            repo@ == Seq::<FetchRecordView>::empty(),
            repo.next_id() == 1,
    {
        let repo = IssRepo { rows: Vec::new(), next_id: 1 };
        assert(repo@ =~= Seq::<FetchRecordView>::empty());
        repo
    }

    fn take_rows(&mut self) -> (rows: Vec<FetchRecord>)
        ensures
            rows == old(self).rows,
            final(self).next_id == old(self).next_id,
    {
        proof {
            use_type_invariant(&*self);
        }
        let mut rows: Vec<FetchRecord> = Vec::new();
        assert(records_view(rows@) =~= Seq::<FetchRecordView>::empty());
        core::mem::swap(&mut self.rows, &mut rows);
        rows
    }

    /// Appends the payload of a fetch. Returns the id of the new row. The write
    /// fails, and changes nothing, only where no id is left.
    pub fn insert(&mut self, source_url: &str, payload: String, now: Timestamp) -> (written: Result<
        i64,
        ApiError,
    >)
        ensures
            ids_rising(final(self)@, final(self).next_id()),
            match written {
                Ok(id) => {
                    &&& id == old(self).next_id()
                    &&& id < i64::MAX
                    &&& final(self).next_id() == id + 1
                    &&& final(self)@ == old(self)@.push(
                        FetchRecordView {
                            id,
                            fetched_at: now,
                            source_url: source_url@,
                            payload: payload@,
                        },
                    )
                },
                Err(e) => {
                    &&& old(self).next_id() == i64::MAX
                    &&& final(self)@ == old(self)@
                    &&& final(self).next_id() == old(self).next_id()
                    &&& e@ == ids_exhausted()
                },
            },
    {
        proof {
            use_type_invariant(&*self);
        }
        if self.next_id == 0x7fff_ffff_ffff_ffffi64 {
            return Err(ApiError::no_id_left());
        }
        let id = self.next_id;
        let ghost before = self@;
        let record = FetchRecord {
            id,
            fetched_at: now,
            source_url: String::from_str(source_url),
            payload,
        };
        let mut rows = self.take_rows();
        rows.push(record);
        proof {
            assert(records_view(rows@) =~= before.push(record@));
        }
        *self = IssRepo { rows, next_id: id + 1 };
        Ok(id)
    }

    /// The newest row, if there is one.
    pub fn get_last(&self) -> (found: Option<FetchRecord>)
        ensures
            match found {
                Some(record) => self@.len() > 0 && record@ == self@.last(),
                None => self@.len() == 0,
            },
    {
        let len = self.rows.len();
        if len > 0 {
            Some(self.rows[len - 1].duplicate())
        } else {
            None
        }
    }

    /// The newest rows, at most `n` of them, the newest first.
    pub fn get_last_n(&self, n: usize) -> (found: Vec<FetchRecord>)
        ensures
            records_view(found@) == newest(self@, n as nat),
    {
        let len = self.rows.len();
        let take = if n <= len {
            n
        } else {
            len
        };
        let mut found: Vec<FetchRecord> = Vec::new();
        let mut k: usize = 0;
        while k < take
            invariant
                k <= take <= len,
                len == self.rows@.len(),
                found@.len() == k,
                forall|j: int| 0 <= j < k ==> (#[trigger] found@[j])@ == self@[len - 1 - j],
            decreases take - k,
        {
            found.push(self.rows[len - 1 - k].duplicate());
            k = k + 1;
        }
        proof {
            assert(records_view(found@) =~= newest(self@, n as nat));
        }
        found
    }

    /// The rows fetched from `from` to `to`, both included, the newest first.
    pub fn get_by_time_range(&self, from: Timestamp, to: Timestamp) -> (found: Vec<FetchRecord>)
        ensures
            records_view(found@) == fetched_between(self@, from, to),
    {
        let mut found: Vec<FetchRecord> = Vec::new();
        let mut i: usize = self.rows.len();
        proof {
            assert(self@.take(i as int) =~= self@);
        }
        while i > 0
            invariant
                i <= self.rows@.len(),
                fetched_between(self@, from, to) == records_view(found@) + fetched_between(
                    self@.take(i as int),
                    from,
                    to,
                ),
            decreases i,
        {
            let ghost prefix = self@.take(i as int);
            let ghost got = records_view(found@);
            i = i - 1;
            proof {
                assert(prefix.drop_last() =~= self@.take(i as int));
                assert(prefix.last() == self@[i as int]);
            }
            let at = &self.rows[i].fetched_at;
            if from.is_not_after(at) && at.is_not_after(&to) {
                found.push(self.rows[i].duplicate());
                proof {
                    assert(records_view(found@) =~= got + seq![self@[i as int]]);
                }
            }
        }
        proof {
            assert(records_view(found@) + Seq::<FetchRecordView>::empty() =~= records_view(found@));
        }
        found
    }

    /// The number of rows.
    pub fn count(&self) -> (n: i64)
        ensures
            n == self@.len(),
    {
        proof {
            use_type_invariant(self);
        }
        self.rows.len() as i64
    }
}

} // verus!
