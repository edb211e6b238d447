//! The persistent work queue's claim lifecycle, modelled over the records it
//! holds: claim the first eligible pending record and mark it running,
//! release a running record into its outcome state, and reset records left
//! running by a crashed process back to pending at startup.
//!
//! Records are held most recently touched first, as the backing store hands
//! them out; claiming picks the first claimable one in that order.

use vstd::prelude::*;

verus! {

/// The lifecycle state of a job record.
#[derive(Clone, Copy, Debug, PartialEq, Eq, Structural)]
pub enum JobStatus {
    /// Waiting to be claimed.
    Pending,
    /// Claimed by a worker and in flight.
    Running,
    /// Finished with a reported error.
    Failed,
    /// Finished successfully.
    Done,
}

/// One regeneration job: which document of which collection to regenerate.
#[derive(Clone, Debug)]
pub struct JobRecord {
    /// Unique key assigned by the backing store.
    pub id: u64,
    /// The document to regenerate.
    pub target: String,
    /// The logical partition the target belongs to; only records of an
    /// active collection are eligible for claiming.
    pub collection: String,
    /// The lifecycle state.
    pub status: JobStatus,
}

/// Whether the record's collection is among the eligible ones.
pub open spec fn eligible(rec: JobRecord, elig: Seq<String>) -> bool {
    exists|j: int| 0 <= j < elig.len() && elig[j]@ == rec.collection@
}

/// Whether a claim may take the record: pending and eligible.
pub open spec fn claimable(rec: JobRecord, elig: Seq<String>) -> bool {
    rec.status is Pending && eligible(rec, elig)
}

/// The index of the first claimable record at or after `i`.
pub open spec fn first_claimable_from(s: Seq<JobRecord>, elig: Seq<String>, i: int) -> Option<int>
    decreases s.len() - i,
{
    if i < 0 || i >= s.len() {
        None
    } else if claimable(s[i], elig) {
        Some(i)
    } else {
        first_claimable_from(s, elig, i + 1)
    }
}

/// The index of the record a claim takes, if any.
pub open spec fn first_claimable(s: Seq<JobRecord>, elig: Seq<String>) -> Option<int> {
    first_claimable_from(s, elig, 0)
}

/// No two records share an id.
pub open spec fn unique_ids(s: Seq<JobRecord>) -> bool {
    forall|i: int, j: int| 0 <= i < j < s.len() ==> s[i].id != s[j].id
}

/// How many records are running.
pub open spec fn count_running(s: Seq<JobRecord>) -> nat
    decreases s.len(),
{
    if s.len() == 0 {
        0
    } else {
        count_running(s.drop_last()) + if s.last().status is Running {
            1nat
        } else {
            0nat
        }
    }
}

/// A found claim index lies in range and points at a claimable record.
pub proof fn lemma_first_claimable_props(s: Seq<JobRecord>, elig: Seq<String>, i: int, r: int)
    requires
        first_claimable_from(s, elig, i) == Some(r),
        0 <= i,
    ensures
        i <= r < s.len(),
        claimable(s[r], elig),
    decreases s.len() - i,
{
    if i < s.len() && !claimable(s[i], elig) {
        lemma_first_claimable_props(s, elig, i + 1, r);
    }
}

/// A claimable record guarantees that a claim finds one.
pub proof fn lemma_first_claimable_some(s: Seq<JobRecord>, elig: Seq<String>, k: int)
    requires
        0 <= k < s.len(),
        claimable(s[k], elig),
    ensures
        first_claimable(s, elig) is Some,
{
    lemma_first_claimable_some_from(s, elig, 0, k);
}

proof fn lemma_first_claimable_some_from(s: Seq<JobRecord>, elig: Seq<String>, i: int, k: int)
    requires
        0 <= i <= k < s.len(),
        claimable(s[k], elig),
    ensures
        first_claimable_from(s, elig, i) is Some,
    decreases s.len() - i,
{
    if i < k && !claimable(s[i], elig) {
        lemma_first_claimable_some_from(s, elig, i + 1, k);
    }
}

/// The in-memory mirror of the job table, most recently touched first.
#[derive(Debug)]
pub struct JobQueue {
    records: Vec<JobRecord>,
}

impl View for JobQueue {
    type V = Seq<JobRecord>;

    closed spec fn view(&self) -> Seq<JobRecord> {
        self.records@
    }
}

impl JobQueue {
    /// No two records share an id: the store's primary key, relied on by the
    /// exactly-once-claim argument.
    pub open spec fn wf(self) -> bool {
        unique_ids(self@)
    }

    /// An empty queue.
    pub fn new() -> (q: JobQueue)
        ensures
            q@ == Seq::<JobRecord>::empty(),
            q.wf(),
    {
        JobQueue { records: Vec::new() }
    }

    /// How many records the queue holds.
    pub fn len(&self) -> (n: usize)
        ensures
            n == self@.len(),
    {
        self.records.len()
    }

    /// The record at position `i`, most recently touched first.
    pub fn get(&self, i: usize) -> (r: &JobRecord)
        requires
            i < self@.len(),
        ensures
            *r == self@[i as int],
    {
        &self.records[i]
    }

    /// Appends a record fetched from the store, refusing a duplicate id so
    /// that well-formedness is kept.
    pub fn enqueue(&mut self, rec: JobRecord) -> (fresh: bool)
        requires
            old(self).wf(),
        ensures
            final(self).wf(),
            fresh == (forall|k: int|
                0 <= k < old(self)@.len() ==> old(self)@[k].id != rec.id),
            fresh ==> final(self)@ == old(self)@.push(rec),
            !fresh ==> final(self)@ == old(self)@,
    {
        let mut k: usize = 0;
        while k < self.records.len()
            invariant
                k <= self@.len(),
                forall|j: int| 0 <= j < k ==> self@[j].id != rec.id,
                self@ == old(self)@,
                unique_ids(old(self)@),
            decreases self@.len() - k,
        {
            if self.records[k].id == rec.id {
                return false;
            }
            k += 1;
        }
        self.records.push(rec);
        true
    }

    /// Atomically selects the first claimable record, marks it running, and
    /// returns it already transitioned; the exactly-once-claim property of
    /// the store, stated over the mirrored records.
    pub fn claim_next(&mut self, eligible_collections: &Vec<String>) -> (r: Option<JobRecord>)
        requires
            old(self).wf(),
        ensures
            final(self).wf(),
            match r {
                None => first_claimable(old(self)@, eligible_collections@) is None && final(self)@
                    == old(self)@,
                Some(rec) => first_claimable(old(self)@, eligible_collections@) matches Some(i)
                    && rec == (JobRecord { status: JobStatus::Running, ..old(self)@[i] }) && final(self)@ == old(self)@.update(i, rec),
            },
    {
        let mut i: usize = 0;
        while i < self.records.len()
            invariant
                i <= self@.len(),
                self@ == old(self)@,
                unique_ids(old(self)@),
                first_claimable(old(self)@, eligible_collections@) == first_claimable_from(
                    old(self)@,
                    eligible_collections@,
                    i as int,
                ),
            decreases self@.len() - i,
        {
            if is_claimable(&self.records[i], eligible_collections) {
                self.records[i].status = JobStatus::Running;
                let rec = clone_record(&self.records[i]);
                proof {
                    assert(final(self)@ =~= old(self)@.update(
                        i as int,
                        (JobRecord { status: JobStatus::Running, ..old(self)@[i as int] }),
                    ));
                }
                return Some(rec);
            }
            i += 1;
        }
        None
    }

    /// Transitions the running record with the given id into `outcome`; a
    /// record not running any more is left alone, so a second release of the
    /// same claim is harmless. Returns whether a record transitioned.
    pub fn release(&mut self, id: u64, outcome: JobStatus) -> (released: bool)
        requires
            old(self).wf(),
            !(outcome is Running),
        ensures
            final(self).wf(),
            final(self)@.len() == old(self)@.len(),
            forall|k: int|
                0 <= k < old(self)@.len() ==> final(self)@[k] == (if old(self)@[k].id == id && old(self)@[k].status is Running {
                    JobRecord { status: outcome, ..old(self)@[k] }
                } else {
                    old(self)@[k]
                }),
            released == (exists|k: int|
                0 <= k < old(self)@.len() && old(self)@[k].id == id && old(self)@[k].status is Running),
    {
        let mut released = false;
        let mut k: usize = 0;
        while k < self.records.len()
            invariant
                k <= old(self)@.len(),
                self@.len() == old(self)@.len(),
                !(outcome is Running),
                forall|j: int|
                    0 <= j < k ==> self@[j] == (if old(self)@[j].id == id && old(self)@[j].status is Running {
                        JobRecord { status: outcome, ..old(self)@[j] }
                    } else {
                        old(self)@[j]
                    }),
                forall|j: int| k <= j < old(self)@.len() ==> self@[j] == old(self)@[j],
                released == (exists|j: int|
                    0 <= j < k && old(self)@[j].id == id && old(self)@[j].status is Running),
            decreases self@.len() - k,
        {
            if self.records[k].id == id && self.records[k].status == JobStatus::Running {
                self.records[k].status = outcome;
                released = true;
            }
            k += 1;
        }
        proof {
            assert(unique_ids(self@));
        }
        released
    }

    /// Startup crash recovery: every record left running by a prior process
    /// becomes pending, and so claimable, again. Returns how many were reset.
    pub fn reset_stale_running(&mut self) -> (n: usize)
        requires
            old(self).wf(),
        ensures
            final(self).wf(),
            final(self)@.len() == old(self)@.len(),
            forall|k: int|
                0 <= k < old(self)@.len() ==> final(self)@[k] == (if old(self)@[k].status is Running {
                    JobRecord { status: JobStatus::Pending, ..old(self)@[k] }
                } else {
                    old(self)@[k]
                }),
            n == count_running(old(self)@),
    {
        let mut n: usize = 0;
        let mut k: usize = 0;
        while k < self.records.len()
            invariant
                k <= old(self)@.len(),
                n <= k,
                self@.len() == old(self)@.len(),
                forall|j: int|
                    0 <= j < k ==> self@[j] == (if old(self)@[j].status is Running {
                        JobRecord { status: JobStatus::Pending, ..old(self)@[j] }
                    } else {
                        old(self)@[j]
                    }),
                forall|j: int| k <= j < old(self)@.len() ==> self@[j] == old(self)@[j],
                n == count_running(old(self)@.subrange(0, k as int)),
            decreases self@.len() - k,
        {
            proof {
                assert(old(self)@.subrange(0, k + 1 as int).drop_last() =~= old(self)@.subrange(
                    0,
                    k as int,
                ));
            }
            if self.records[k].status == JobStatus::Running {
                self.records[k].status = JobStatus::Pending;
                n += 1;
            }
            k += 1;
        }
        proof {
            assert(old(self)@.subrange(0, old(self)@.len() as int) =~= old(self)@);
            assert(unique_ids(self@));
        }
        n
    }
}

/// Whether a claim may take the record now.
fn is_claimable(rec: &JobRecord, elig: &Vec<String>) -> (b: bool)
    ensures
        b == claimable(*rec, elig@),
{
    if !(rec.status == JobStatus::Pending) {
        return false;
    }
    let mut j: usize = 0;
    while j < elig.len()
        invariant
            j <= elig@.len(),
            rec.status is Pending,
            forall|l: int| 0 <= l < j ==> elig@[l]@ != rec.collection@,
        decreases elig@.len() - j,
    {
        if elig[j] == rec.collection {
            return true;
        }
        j += 1;
    }
    false
}

/// A field-for-field copy of a record.
fn clone_record(rec: &JobRecord) -> (c: JobRecord)
    ensures
        c == *rec,
{
    JobRecord {
        id: rec.id,
        target: rec.target.clone(),
        collection: rec.collection.clone(),
        status: rec.status,
    }
}

/// Exactly-once claim: of two claims against the same queue, the second can
/// never take the record the first took, whatever else it finds.
pub proof fn lemma_claim_exclusive(s: Seq<JobRecord>, elig: Seq<String>, i: int, j: int)
    requires
        unique_ids(s),
        first_claimable(s, elig) == Some(i),
        first_claimable(s.update(i, (JobRecord { status: JobStatus::Running, ..s[i] })), elig)
            == Some(j),
    ensures
        i != j,
        s.update(i, (JobRecord { status: JobStatus::Running, ..s[i] }))[j].id != s[i].id,
{
    let s2 = s.update(i, (JobRecord { status: JobStatus::Running, ..s[i] }));
    lemma_first_claimable_props(s, elig, 0, i);
    lemma_first_claimable_props(s2, elig, 0, j);
}

/// A record released as failed is never claimed again: no claim returns its
/// id while every record bearing it stays failed.
pub proof fn lemma_failed_never_reclaimed(s: Seq<JobRecord>, elig: Seq<String>, id: u64, j: int)
    requires
        forall|k: int| 0 <= k < s.len() && s[k].id == id ==> s[k].status is Failed,
        first_claimable(s, elig) == Some(j),
    ensures
        s[j].id != id,
{
    lemma_first_claimable_props(s, elig, 0, j);
}

/// A record reset from running to pending at startup is claimable again
/// whenever its collection is eligible.
pub proof fn lemma_reset_makes_claimable(
    s: Seq<JobRecord>,
    s2: Seq<JobRecord>,
    elig: Seq<String>,
    k: int,
)
    requires
        s2.len() == s.len(),
        forall|i: int|
            0 <= i < s.len() ==> s2[i] == (if s[i].status is Running {
                JobRecord { status: JobStatus::Pending, ..s[i] }
            } else {
                s[i]
            }),
        0 <= k < s.len(),
        s[k].status is Running,
        eligible(s[k], elig),
    ensures
        claimable(s2[k], elig),
        first_claimable(s2, elig) is Some,
{
    assert(s2[k].collection == s[k].collection);
    lemma_first_claimable_some(s2, elig, k);
}

} // verus!
