//! The Transfer Registry: the single owner of every submitted job. It
//! validates submissions up front — no job is ever registered for a request
//! that fails validation — appends accepted jobs in order, cancels and
//! removes jobs by identifier, and exposes the summary the presentation
//! layer binds to. Registry changes are recorded as events for the host's
//! change-notification channel, so consumers need not poll.

use vstd::prelude::*;
use crate::transfer::ConflictPolicy;
use crate::transfer::JobState;
use crate::transfer::ProcessType;
use crate::transfer::TransferItem;
use crate::transfer::TransferJob;
use crate::transfer::lemma_progress_bounded;
use crate::transfer::lemma_sum_sizes_prefix;
use crate::transfer::report_progress_model;
use crate::transfer::settle_item_model;
use crate::transfer::sum_sizes;

verus! {

/// One observable registry change.
#[derive(Clone, Copy, PartialEq, Eq, Structural, Debug)]
pub enum RegistryEvent {
    JobAdded(u64),
    JobRemoved(u64),
}

/// Why a submission was rejected, synchronously and before any job was
/// created.
#[derive(Clone, Copy, PartialEq, Eq, Structural, Debug)]
pub enum SubmitError {
    InvalidDestination,
    TotalTooLarge,
    IdsExhausted,
}

/// How many of the jobs are still running.
pub open spec fn count_running(s: Seq<TransferJob>) -> int
    decreases s.len(),
{
    if s.len() == 0 {
        0
    } else {
        count_running(s.drop_last()) + if s.last().spec_state() is Running {
            1int
        } else {
            0int
        }
    }
}

/// The jobs' total bytes, summed.
pub open spec fn sum_job_totals(s: Seq<TransferJob>) -> int
    decreases s.len(),
{
    if s.len() == 0 {
        0
    } else {
        sum_job_totals(s.drop_last()) + s.last().spec_total()
    }
}

/// The jobs' transferred bytes, summed.
pub open spec fn sum_job_done(s: Seq<TransferJob>) -> int
    decreases s.len(),
{
    if s.len() == 0 {
        0
    } else {
        sum_job_done(s.drop_last()) + s.last().spec_done()
    }
}

/// The ordered collection of active transfer jobs, append-only except for
/// explicit removal.
pub struct TransferRegistry {
    jobs: Vec<TransferJob>,
    next_id: u64,
    events: Vec<RegistryEvent>,
}

impl TransferRegistry {
    /// The registered jobs, in submission order.
    pub closed spec fn jobs_seq(self) -> Seq<TransferJob> {
        self.jobs@
    }

    /// The identifier the next accepted submission will get.
    pub closed spec fn spec_next_id(self) -> u64 {
        self.next_id
    }

    /// The changes not yet drained by the host.
    pub closed spec fn events_seq(self) -> Seq<RegistryEvent> {
        self.events@
    }

    /// Every registered job is well-formed, and identifiers are unique and
    /// below the next one to be handed out.
    pub closed spec fn wf(self) -> bool {
        &&& forall|i: int|
            0 <= i < self.jobs@.len() ==> (#[trigger] self.jobs@[i]).wf()
                && self.jobs@[i].spec_id() < self.next_id
        &&& forall|i: int, j: int|
            0 <= i < j < self.jobs@.len() ==> self.jobs@[i].spec_id() != self.jobs@[j].spec_id()
    }

    /// Some registered job carries this identifier.
    pub open spec fn has_job(self, id: u64) -> bool {
        exists|i: int| 0 <= i < self.jobs_seq().len() && self.jobs_seq()[i].spec_id() == id
    }

    /// A fresh, empty registry.
    pub fn new() -> (r: Self)
        ensures
            r.wf(),
            r.jobs_seq() =~= Seq::<TransferJob>::empty(),
            r.events_seq() =~= Seq::<RegistryEvent>::empty(),
            r.spec_next_id() == 0,
    {
        TransferRegistry { jobs: Vec::new(), next_id: 0, events: Vec::new() }
    }

    /// Submit a transfer. Validation happens first and synchronously: an
    /// invalid destination, a byte total beyond what can be counted, or an
    /// exhausted identifier space rejects the call, and a rejected call
    /// leaves the registry exactly as it was — no partial job is ever
    /// registered. An accepted submission appends one new job, running
    /// unless it has no items, and records its addition.
    pub fn submit(
        &mut self,
        kind: ProcessType,
        destination: u64,
        dest_ok: bool,
        on_conflict: ConflictPolicy,
        items: Vec<TransferItem>,
    ) -> (r: Result<u64, SubmitError>)
        requires
            old(self).wf(),
        ensures
            final(self).wf(),
            r is Err ==> *final(self) == *old(self),
            (r == Err::<u64, SubmitError>(SubmitError::InvalidDestination)) <==> !dest_ok,
            dest_ok ==> ((r == Err::<u64, SubmitError>(SubmitError::TotalTooLarge)) <==> sum_sizes(
                items@,
            ) > u64::MAX),
            dest_ok && sum_sizes(items@) <= u64::MAX ==> ((r == Err::<u64, SubmitError>(
                SubmitError::IdsExhausted,
            )) <==> old(self).spec_next_id() == u64::MAX),
            r is Ok ==> {
                &&& r->Ok_0 == old(self).spec_next_id()
                &&& final(self).spec_next_id() == old(self).spec_next_id() + 1
                &&& final(self).jobs_seq().len() == old(self).jobs_seq().len() + 1
                &&& final(self).jobs_seq().drop_last() == old(self).jobs_seq()
                &&& final(self).events_seq() == old(self).events_seq().push(
                    RegistryEvent::JobAdded(r->Ok_0),
                )
                &&& {
                    let j = final(self).jobs_seq().last();
                    &&& j.wf()
                    &&& j.spec_id() == r->Ok_0
                    &&& j.spec_kind() == kind
                    &&& j.spec_destination() == destination
                    &&& j.spec_on_conflict() == on_conflict
                    &&& j.spec_items() == items@
                    &&& j.spec_total() == sum_sizes(items@)
                    &&& j.spec_done() == 0
                    &&& j.spec_settled().len() == items@.len()
                    &&& forall|k: int| 0 <= k < items@.len() ==> !j.spec_settled()[k]
                    &&& j.spec_item_progress().len() == items@.len()
                    &&& forall|k: int| 0 <= k < items@.len() ==> j.spec_item_progress()[k] == 0
                    &&& j.spec_failed() =~= Seq::<usize>::empty()
                    &&& !j.spec_cancel_requested()
                    &&& j.spec_state() == (if items@.len() == 0 {
                        JobState::Completed
                    } else {
                        JobState::Running
                    })
                }
            },
    {
        if !dest_ok {
            return Err(SubmitError::InvalidDestination);
        }
        if checked_total(&items).is_none() {
            return Err(SubmitError::TotalTooLarge);
        }
        if self.next_id == u64::MAX {
            return Err(SubmitError::IdsExhausted);
        }
        let id = self.next_id;
        self.next_id = self.next_id + 1;
        let job = TransferJob::new(id, kind, destination, on_conflict, items);
        self.jobs.push(job);
        self.events.push(RegistryEvent::JobAdded(id));
        proof {
            assert(final(self).jobs_seq().drop_last() =~= old(self).jobs_seq());
        }
        Ok(id)
    }

    /// The current ordered sequence of jobs, for presentation binding.
    pub fn list(&self) -> (r: &Vec<TransferJob>)
        ensures
            r@ == self.jobs_seq(),
    {
        &self.jobs
    }

    /// The job at one position.
    pub fn get(&self, i: usize) -> (r: &TransferJob)
        requires
            i < self.jobs_seq().len(),
        ensures
            *r == self.jobs_seq()[i as int],
    {
        &self.jobs[i]
    }

    /// How many jobs are registered.
    pub fn job_count(&self) -> (r: usize)
        ensures
            r == self.jobs_seq().len(),
    {
        self.jobs.len()
    }

    /// Where the job with this identifier sits, if anywhere.
    pub fn index_of(&self, id: u64) -> (r: Option<usize>)
        ensures
            match r {
                Some(i) => i < self.jobs_seq().len() && self.jobs_seq()[i as int].spec_id() == id,
                None => !self.has_job(id),
            },
    {
        let mut i: usize = 0;
        while i < self.jobs.len()
            invariant
                0 <= i <= self.jobs@.len(),
                forall|k: int| 0 <= k < i ==> self.jobs@[k].spec_id() != id,
            decreases self.jobs@.len() - i,
        {
            if self.jobs[i].id() == id {
                return Some(i);
            }
            i = i + 1;
        }
        None
    }

    /// Request cancellation of the job with this identifier. Every other
    /// job is untouched; the named job takes the flag exactly when it is
    /// still running.
    pub fn cancel(&mut self, id: u64) -> (found: bool)
        requires
            old(self).wf(),
        ensures
            final(self).wf(),
            found == old(self).has_job(id),
            final(self).spec_next_id() == old(self).spec_next_id(),
            final(self).events_seq() == old(self).events_seq(),
            final(self).jobs_seq().len() == old(self).jobs_seq().len(),
            forall|i: int|
                0 <= i < old(self).jobs_seq().len() && old(self).jobs_seq()[i].spec_id() != id
                    ==> final(self).jobs_seq()[i] == old(self).jobs_seq()[i],
            forall|i: int|
                0 <= i < old(self).jobs_seq().len() && old(self).jobs_seq()[i].spec_id() == id
                    ==> job_cancel_model(old(self).jobs_seq()[i], final(self).jobs_seq()[i]),
    {
        let found = self.index_of(id);
        match found {
            None => false,
            Some(i) => {
                self.jobs[i].cancel();
                true
            },
        }
    }

    /// The executing task reports cumulative progress for one item of the
    /// job with this identifier. Every other job is untouched; an unknown
    /// identifier or an out-of-range item changes nothing.
    pub fn report_progress(&mut self, id: u64, idx: usize, bytes_done: u64) -> (found: bool)
        requires
            old(self).wf(),
        ensures
            final(self).wf(),
            found == old(self).has_job(id),
            final(self).spec_next_id() == old(self).spec_next_id(),
            final(self).events_seq() == old(self).events_seq(),
            final(self).jobs_seq().len() == old(self).jobs_seq().len(),
            forall|i: int|
                0 <= i < old(self).jobs_seq().len() && old(self).jobs_seq()[i].spec_id() != id
                    ==> final(self).jobs_seq()[i] == old(self).jobs_seq()[i],
            forall|i: int|
                0 <= i < old(self).jobs_seq().len() && old(self).jobs_seq()[i].spec_id() == id
                    ==> if idx < old(self).jobs_seq()[i].spec_items().len() {
                    report_progress_model(
                        old(self).jobs_seq()[i],
                        final(self).jobs_seq()[i],
                        idx as int,
                        bytes_done,
                    )
                } else {
                    final(self).jobs_seq()[i] == old(self).jobs_seq()[i]
                },
    {
        let found = self.index_of(id);
        match found {
            None => false,
            Some(i) => {
                if idx < self.jobs[i].items().len() {
                    self.jobs[i].report_progress(idx, bytes_done);
                }
                true
            },
        }
    }

    /// The executing task reports that one item of the job with this
    /// identifier finished, successfully or not. Every other job is
    /// untouched; an unknown identifier or an out-of-range item changes
    /// nothing.
    pub fn settle_item(&mut self, id: u64, idx: usize, ok: bool) -> (found: bool)
        requires
            old(self).wf(),
        ensures
            final(self).wf(),
            found == old(self).has_job(id),
            final(self).spec_next_id() == old(self).spec_next_id(),
            final(self).events_seq() == old(self).events_seq(),
            final(self).jobs_seq().len() == old(self).jobs_seq().len(),
            forall|i: int|
                0 <= i < old(self).jobs_seq().len() && old(self).jobs_seq()[i].spec_id() != id
                    ==> final(self).jobs_seq()[i] == old(self).jobs_seq()[i],
            forall|i: int|
                0 <= i < old(self).jobs_seq().len() && old(self).jobs_seq()[i].spec_id() == id
                    ==> if idx < old(self).jobs_seq()[i].spec_items().len() {
                    settle_item_model(
                        old(self).jobs_seq()[i],
                        final(self).jobs_seq()[i],
                        idx as int,
                        ok,
                    )
                } else {
                    final(self).jobs_seq()[i] == old(self).jobs_seq()[i]
                },
    {
        let found = self.index_of(id);
        match found {
            None => false,
            Some(i) => {
                if idx < self.jobs[i].items().len() {
                    self.jobs[i].settle_item(idx, ok);
                }
                true
            },
        }
    }

    /// Remove the job with this identifier: permitted in any state, but a
    /// running job is implicitly cancelled first, and the removal is
    /// recorded. The removed job is handed back; an unknown identifier
    /// changes nothing.
    pub fn remove(&mut self, id: u64) -> (r: Option<TransferJob>)
        requires
            old(self).wf(),
        ensures
            final(self).wf(),
            r is Some <==> old(self).has_job(id),
            r is None ==> *final(self) == *old(self),
            r is Some ==> {
                &&& r->0.wf()
                &&& r->0.spec_id() == id
                &&& final(self).spec_next_id() == old(self).spec_next_id()
                &&& final(self).events_seq() == old(self).events_seq().push(
                    RegistryEvent::JobRemoved(id),
                )
                &&& exists|i: int|
                    0 <= i < old(self).jobs_seq().len() && old(self).jobs_seq()[i].spec_id() == id
                        && final(self).jobs_seq() == old(self).jobs_seq().remove(i)
                        && job_cancel_model(old(self).jobs_seq()[i], r->0)
            },
    {
        let found = self.index_of(id);
        match found {
            None => None,
            Some(i) => {
                let mut job = self.jobs.remove(i);
                job.cancel();
                self.events.push(RegistryEvent::JobRemoved(id));
                proof {
                    assert forall|a: int, b: int|
                        0 <= a < b < self.jobs@.len() implies self.jobs@[a].spec_id()
                        != self.jobs@[b].spec_id() by {
                        assert(self.jobs@ == old(self).jobs@.remove(i as int));
                    }
                }
                Some(job)
            },
        }
    }

    /// Drain the recorded changes for the host's notification channel.
    pub fn take_events(&mut self) -> (r: Vec<RegistryEvent>)
        ensures
            r@ == old(self).events_seq(),
            final(self).events_seq() =~= Seq::<RegistryEvent>::empty(),
            final(self).jobs_seq() == old(self).jobs_seq(),
            final(self).spec_next_id() == old(self).spec_next_id(),
            old(self).wf() ==> final(self).wf(),
    {
        let r = self.events.split_off(0);
        proof {
            assert(r@ =~= old(self).events@);
        }
        r
    }

    /// How many registered jobs are still running.
    pub fn active_count(&self) -> (r: usize)
        ensures
            r == count_running(self.jobs_seq()),
    {
        let mut r: usize = 0;
        let mut i: usize = 0;
        while i < self.jobs.len()
            invariant
                0 <= i <= self.jobs@.len(),
                0 <= r <= i,
                r == count_running(self.jobs@.take(i as int)),
            decreases self.jobs@.len() - i,
        {
            proof {
                assert(self.jobs@.take(i + 1).drop_last() =~= self.jobs@.take(i as int));
                assert(self.jobs@.take(i + 1).last() == self.jobs@[i as int]);
            }
            if matches!(self.jobs[i].state(), JobState::Running) {
                r = r + 1;
            }
            i = i + 1;
        }
        proof {
            assert(self.jobs@.take(self.jobs@.len() as int) =~= self.jobs@);
        }
        r
    }

    /// Aggregate completion across every registered job: the bytes
    /// transferred so far and the bytes to transfer in all, summed.
    pub fn aggregate_bytes(&self) -> (r: (u128, u128))
        requires
            self.wf(),
        ensures
            r.0 == sum_job_done(self.jobs_seq()),
            r.1 == sum_job_totals(self.jobs_seq()),
            r.0 <= r.1,
    {
        let mut done: u128 = 0;
        let mut total: u128 = 0;
        let mut i: usize = 0;
        while i < self.jobs.len()
            invariant
                0 <= i <= self.jobs@.len(),
                done == sum_job_done(self.jobs@.take(i as int)),
                total == sum_job_totals(self.jobs@.take(i as int)),
                done <= total,
                total <= i * (u64::MAX as int),
                self.wf(),
            decreases self.jobs@.len() - i,
        {
            proof {
                assert(self.jobs@.take(i + 1).drop_last() =~= self.jobs@.take(i as int));
                assert(self.jobs@.take(i + 1).last() == self.jobs@[i as int]);
                assert(self.jobs@[i as int].wf());
                lemma_progress_bounded(self.jobs@[i as int]);
            }
            done = done + (self.jobs[i].transferred_bytes() as u128);
            total = total + (self.jobs[i].total_bytes() as u128);
            i = i + 1;
        }
        proof {
            assert(self.jobs@.take(self.jobs@.len() as int) =~= self.jobs@);
        }
        (done, total)
    }
}

/// The items' byte total, or nothing where it would exceed what a byte
/// counter can hold.
fn checked_total(items: &Vec<TransferItem>) -> (r: Option<u64>)
    ensures
        r is Some <==> sum_sizes(items@) <= u64::MAX,
        r is Some ==> r->0 == sum_sizes(items@),
{
    let n = items.len();
    let mut total: u64 = 0;
    let mut i: usize = 0;
    while i < n
        invariant
            n == items@.len(),
            0 <= i <= n,
            total == sum_sizes(items@.take(i as int)),
        decreases n - i,
    {
        proof {
            assert(items@.take(i + 1).drop_last() =~= items@.take(i as int));
            assert(items@.take(i + 1).last() == items@[i as int]);
        }
        let size = items[i].size;
        if size > u64::MAX - total {
            proof {
                lemma_sum_sizes_prefix(items@, i + 1);
            }
            return None;
        }
        total = total + size;
        i = i + 1;
    }
    proof {
        assert(items@.take(n as int) =~= items@);
    }
    Some(total)
}

/// How a cancellation request leaves a job: everything as it was, except
/// that the flag is set exactly when the job was (or already had been
/// flagged while) running.
pub open spec fn job_cancel_model(before: TransferJob, after: TransferJob) -> bool {
    &&& after.spec_cancel_requested() == (before.spec_cancel_requested()
        || before.spec_state() is Running)
    &&& after.spec_id() == before.spec_id()
    &&& after.spec_kind() == before.spec_kind()
    &&& after.spec_destination() == before.spec_destination()
    &&& after.spec_on_conflict() == before.spec_on_conflict()
    &&& after.spec_items() == before.spec_items()
    &&& after.spec_total() == before.spec_total()
    &&& after.spec_done() == before.spec_done()
    &&& after.spec_item_progress() == before.spec_item_progress()
    &&& after.spec_settled() == before.spec_settled()
    &&& after.spec_failed() == before.spec_failed()
    &&& after.spec_state() == before.spec_state()
}

} // verus!
