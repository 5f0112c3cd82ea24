//! Transfer jobs: one unit of work copying or moving a batch of source
//! entries into a destination directory, with aggregated byte progress.
//! The job owns the bookkeeping only; the host performs the actual byte
//! copying and reports cumulative per-item progress and per-item outcomes
//! back in. Aggregate progress is monotone and never exceeds the total,
//! cancellation is cooperative and observed at item boundaries, and a
//! failed item never aborts its siblings.

use vstd::prelude::*;

verus! {

/// What a job does with its sources: copy them, or move them (copy, then
/// delete the source on success).
#[derive(Clone, Copy, PartialEq, Eq, Structural, Debug)]
pub enum ProcessType {
    Copy,
    Move,
}

/// A job's lifecycle state. `Failed` records that at least one item failed
/// while the rest were still attempted; `Cancelled` is a normal terminal
/// state, not a failure.
#[derive(Clone, Copy, PartialEq, Eq, Structural, Debug)]
pub enum JobState {
    Running,
    Completed,
    Failed,
    Cancelled,
}

/// What the executing host does when a destination name already exists.
/// Overwriting is the default; the policy is a pluggable hook consulted
/// per item, not a promise the library enforces itself.
#[derive(Clone, Copy, PartialEq, Eq, Structural, Debug)]
pub enum ConflictPolicy {
    Overwrite,
    Skip,
}

/// One source entry of a transfer: its opaque handle, its base name (used
/// at the destination) and its size in bytes, pre-computed at submission.
pub struct TransferItem {
    pub source: u64,
    pub name: String,
    pub size: u64,
}

impl Clone for TransferItem {
    fn clone(&self) -> (r: Self)
        ensures
            r == *self,
    {
        TransferItem { source: self.source, name: self.name.clone(), size: self.size }
    }
}

/// The sum of the items' sizes.
pub open spec fn sum_sizes(items: Seq<TransferItem>) -> int
    decreases items.len(),
{
    if items.len() == 0 {
        0
    } else {
        sum_sizes(items.drop_last()) + items.last().size
    }
}

/// The sum of a sequence of byte counts.
pub open spec fn sum_u64(s: Seq<u64>) -> int
    decreases s.len(),
{
    if s.len() == 0 {
        0
    } else {
        sum_u64(s.drop_last()) + s.last()
    }
}

/// A size sum splits at any index.
pub proof fn lemma_sum_sizes_split(items: Seq<TransferItem>, i: int)
    requires
        0 <= i <= items.len(),
    ensures
        sum_sizes(items) == sum_sizes(items.take(i)) + sum_sizes(items.skip(i)),
    decreases items.len(),
{
    if i == items.len() {
        assert(items.take(i) =~= items);
        assert(items.skip(i) =~= Seq::<TransferItem>::empty());
    } else {
        let dl = items.drop_last();
        lemma_sum_sizes_split(dl, i);
        assert(dl.take(i) =~= items.take(i));
        assert(items.skip(i).drop_last() =~= dl.skip(i));
        assert(items.skip(i).last() == items.last());
    }
}

/// Size sums are non-negative.
pub proof fn lemma_sum_sizes_nonneg(items: Seq<TransferItem>)
    ensures
        sum_sizes(items) >= 0,
    decreases items.len(),
{
    if items.len() > 0 {
        lemma_sum_sizes_nonneg(items.drop_last());
    }
}

/// A prefix never sums to more than the whole.
pub proof fn lemma_sum_sizes_prefix(items: Seq<TransferItem>, i: int)
    requires
        0 <= i <= items.len(),
    ensures
        0 <= sum_sizes(items.take(i)) <= sum_sizes(items),
{
    lemma_sum_sizes_split(items, i);
    lemma_sum_sizes_nonneg(items.take(i));
    lemma_sum_sizes_nonneg(items.skip(i));
}

/// Byte-count sums are non-negative.
pub proof fn lemma_sum_u64_nonneg(s: Seq<u64>)
    ensures
        sum_u64(s) >= 0,
    decreases s.len(),
{
    if s.len() > 0 {
        lemma_sum_u64_nonneg(s.drop_last());
    }
}

/// A sequence of zeros sums to zero.
pub proof fn lemma_sum_u64_zero(s: Seq<u64>)
    requires
        forall|i: int| 0 <= i < s.len() ==> s[i] == 0,
    ensures
        sum_u64(s) == 0,
    decreases s.len(),
{
    if s.len() > 0 {
        lemma_sum_u64_zero(s.drop_last());
    }
}

/// Updating one element moves the sum by exactly the element's change.
pub proof fn lemma_sum_u64_update(s: Seq<u64>, i: int, v: u64)
    requires
        0 <= i < s.len(),
    ensures
        sum_u64(s.update(i, v)) == sum_u64(s) - s[i] + v,
    decreases s.len(),
{
    if i == s.len() - 1 {
        assert(s.update(i, v).drop_last() =~= s.drop_last());
        assert(s.update(i, v).last() == v);
    } else {
        lemma_sum_u64_update(s.drop_last(), i, v);
        assert(s.update(i, v).drop_last() =~= s.drop_last().update(i, v));
        assert(s.update(i, v).last() == s.last());
    }
}

/// One element never exceeds the whole sum.
pub proof fn lemma_sum_u64_element(s: Seq<u64>, i: int)
    requires
        0 <= i < s.len(),
    ensures
        s[i] <= sum_u64(s),
{
    lemma_sum_u64_update(s, i, 0);
    lemma_sum_u64_nonneg(s.update(i, 0));
}

/// A pointwise bound on byte counts bounds their sum by the size sum.
pub proof fn lemma_sum_u64_le_sizes(p: Seq<u64>, items: Seq<TransferItem>)
    requires
        p.len() == items.len(),
        forall|i: int| 0 <= i < p.len() ==> p[i] <= items[i].size,
    ensures
        sum_u64(p) <= sum_sizes(items),
    decreases p.len(),
{
    if p.len() > 0 {
        lemma_sum_u64_le_sizes(p.drop_last(), items.drop_last());
    }
}

/// A pointwise match of byte counts and sizes makes the sums equal.
pub proof fn lemma_sum_u64_eq_sizes(p: Seq<u64>, items: Seq<TransferItem>)
    requires
        p.len() == items.len(),
        forall|i: int| 0 <= i < p.len() ==> p[i] == items[i].size,
    ensures
        sum_u64(p) == sum_sizes(items),
    decreases p.len(),
{
    if p.len() > 0 {
        lemma_sum_u64_eq_sizes(p.drop_last(), items.drop_last());
    }
}

/// Every item has finished, successfully or not.
pub open spec fn all_settled(s: Seq<bool>) -> bool {
    forall|i: int| 0 <= i < s.len() ==> s[i]
}

/// The state a job ends an item boundary in: a pending cancellation wins,
/// otherwise the job finishes once every item has settled — `Failed` when
/// at least one item failed, `Completed` when none did — and keeps running
/// while items remain.
pub open spec fn boundary_state(flag: bool, settled: Seq<bool>, failed: Seq<usize>) -> JobState {
    if flag {
        JobState::Cancelled
    } else if all_settled(settled) {
        if failed.len() == 0 {
            JobState::Completed
        } else {
            JobState::Failed
        }
    } else {
        JobState::Running
    }
}

/// The cumulative byte count a progress report leaves an item at: clamped
/// to the item's size, and never moving backwards.
pub open spec fn clamped_progress(prev: u64, reported: u64, size: u64) -> u64 {
    let cap = if reported < size {
        reported
    } else {
        size
    };
    if cap > prev {
        cap
    } else {
        prev
    }
}

/// How a progress report leaves a job: the bookkeeping identity is
/// untouched, the aggregate only ever grows and stays within the total,
/// and on a running job with the item still open the item's count moves to
/// its clamped value — on any other job the report changes nothing.
pub open spec fn report_progress_model(
    pre: TransferJob,
    post: TransferJob,
    idx: int,
    bytes_done: u64,
) -> bool {
    &&& post.spec_done() >= pre.spec_done()
    &&& post.spec_done() <= post.spec_total()
    &&& post.spec_id() == pre.spec_id()
    &&& post.spec_kind() == pre.spec_kind()
    &&& post.spec_destination() == pre.spec_destination()
    &&& post.spec_on_conflict() == pre.spec_on_conflict()
    &&& post.spec_items() == pre.spec_items()
    &&& post.spec_total() == pre.spec_total()
    &&& post.spec_state() == pre.spec_state()
    &&& post.spec_cancel_requested() == pre.spec_cancel_requested()
    &&& post.spec_settled() == pre.spec_settled()
    &&& post.spec_failed() == pre.spec_failed()
    &&& pre.spec_state() is Running && !pre.spec_settled()[idx] ==> {
        &&& post.spec_item_progress() == pre.spec_item_progress().update(
            idx,
            clamped_progress(pre.spec_item_progress()[idx], bytes_done, pre.spec_items()[idx].size),
        )
        &&& post.spec_done() == pre.spec_done() - pre.spec_item_progress()[idx]
            + clamped_progress(
            pre.spec_item_progress()[idx],
            bytes_done,
            pre.spec_items()[idx].size,
        )
    }
    &&& !(pre.spec_state() is Running && !pre.spec_settled()[idx]) ==> post == pre
}

/// How settling one item leaves a job: on a running job with the item
/// still open, the item is marked settled, a success completes its bytes
/// while a failure records the item, and the job takes its boundary state;
/// on any other job the report changes nothing.
pub open spec fn settle_item_model(pre: TransferJob, post: TransferJob, idx: int, ok: bool) -> bool {
    &&& post.spec_done() >= pre.spec_done()
    &&& post.spec_done() <= post.spec_total()
    &&& post.spec_id() == pre.spec_id()
    &&& post.spec_kind() == pre.spec_kind()
    &&& post.spec_destination() == pre.spec_destination()
    &&& post.spec_on_conflict() == pre.spec_on_conflict()
    &&& post.spec_items() == pre.spec_items()
    &&& post.spec_total() == pre.spec_total()
    &&& post.spec_cancel_requested() == pre.spec_cancel_requested()
    &&& pre.spec_state() is Running && !pre.spec_settled()[idx] ==> {
        &&& post.spec_settled() == pre.spec_settled().update(idx, true)
        &&& post.spec_failed() == (if ok {
            pre.spec_failed()
        } else {
            pre.spec_failed().push(idx as usize)
        })
        &&& post.spec_item_progress() == (if ok {
            pre.spec_item_progress().update(idx, pre.spec_items()[idx].size)
        } else {
            pre.spec_item_progress()
        })
        &&& post.spec_done() == (if ok {
            pre.spec_done() - pre.spec_item_progress()[idx] + pre.spec_items()[idx].size
        } else {
            pre.spec_done() as int
        })
        &&& post.spec_state() == boundary_state(
            pre.spec_cancel_requested(),
            post.spec_settled(),
            post.spec_failed(),
        )
    }
    &&& !(pre.spec_state() is Running && !pre.spec_settled()[idx]) ==> post == pre
}

/// Aggregate progress as a fraction in thousandths, clamped so that an
/// empty total reads as complete.
pub open spec fn spec_permille(done: int, total: int) -> int {
    if total == 0 {
        1000
    } else {
        done * 1000 / total
    }
}

/// One copy or move job. All mutation goes through the job's methods; the
/// host reports progress and outcomes, the job keeps the aggregate honest.
pub struct TransferJob {
    id: u64,
    kind: ProcessType,
    destination: u64,
    on_conflict: ConflictPolicy,
    items: Vec<TransferItem>,
    total_bytes: u64,
    transferred: u64,
    item_progress: Vec<u64>,
    settled: Vec<bool>,
    failed_items: Vec<usize>,
    state: JobState,
    cancel_requested: bool,
}

impl TransferJob {
    /// The job's identifier.
    pub closed spec fn spec_id(self) -> u64 {
        self.id
    }

    /// Copy or move.
    pub closed spec fn spec_kind(self) -> ProcessType {
        self.kind
    }

    /// The destination directory handle.
    pub closed spec fn spec_destination(self) -> u64 {
        self.destination
    }

    /// What the host does on a destination name collision.
    pub closed spec fn spec_on_conflict(self) -> ConflictPolicy {
        self.on_conflict
    }

    /// The job's items.
    pub closed spec fn spec_items(self) -> Seq<TransferItem> {
        self.items@
    }

    /// Total bytes, computed once at creation.
    pub closed spec fn spec_total(self) -> u64 {
        self.total_bytes
    }

    /// Aggregate bytes transferred so far.
    pub closed spec fn spec_done(self) -> u64 {
        self.transferred
    }

    /// Cumulative per-item byte counts.
    pub closed spec fn spec_item_progress(self) -> Seq<u64> {
        self.item_progress@
    }

    /// Which items have finished (successfully or not).
    pub closed spec fn spec_settled(self) -> Seq<bool> {
        self.settled@
    }

    /// The indices of the items that failed, for inspection.
    pub closed spec fn spec_failed(self) -> Seq<usize> {
        self.failed_items@
    }

    /// The job's lifecycle state.
    pub closed spec fn spec_state(self) -> JobState {
        self.state
    }

    /// Whether cancellation was requested.
    pub closed spec fn spec_cancel_requested(self) -> bool {
        self.cancel_requested
    }

    /// The job's internal invariant: the bookkeeping shapes agree, per-item
    /// progress never exceeds the item's size, the aggregate is exactly the
    /// sum of the per-item counts and never exceeds the total, a completed
    /// job transferred everything, failed nothing and was never cancelled,
    /// and a failed job records at least one failed item.
    pub closed spec fn wf(self) -> bool {
        &&& self.item_progress@.len() == self.items@.len()
        &&& self.settled@.len() == self.items@.len()
        &&& forall|i: int|
            0 <= i < self.items@.len() ==> self.item_progress@[i] <= self.items@[i].size
        &&& self.total_bytes == sum_sizes(self.items@)
        &&& self.transferred == sum_u64(self.item_progress@)
        &&& self.transferred <= self.total_bytes
        &&& forall|k: int|
            0 <= k < self.failed_items@.len() ==> (self.failed_items@[k] as int)
                < self.items@.len()
        &&& forall|i: int|
            0 <= i < self.items@.len() && self.settled@[i] && !self.failed_items@.contains(
                i as usize,
            ) ==> self.item_progress@[i] == self.items@[i].size
        &&& self.state is Completed ==> !self.cancel_requested
        &&& self.state is Completed ==> self.transferred == self.total_bytes
            && self.failed_items@.len() == 0
        &&& self.state is Failed ==> self.failed_items@.len() > 0
    }

    /// Create a job over its items. A job with no items is complete the
    /// moment it exists; any other job starts `Running` with no progress.
    pub fn new(
        id: u64,
        kind: ProcessType,
        destination: u64,
        on_conflict: ConflictPolicy,
        items: Vec<TransferItem>,
    ) -> (j: Self)
        requires
            sum_sizes(items@) <= u64::MAX,
        ensures
            j.wf(),
            j.spec_id() == id,
            j.spec_kind() == kind,
            j.spec_destination() == destination,
            j.spec_on_conflict() == on_conflict,
            j.spec_items() == items@,
            j.spec_total() == sum_sizes(items@),
            j.spec_done() == 0,
            j.spec_settled().len() == items@.len(),
            forall|i: int| 0 <= i < items@.len() ==> !j.spec_settled()[i],
            j.spec_item_progress().len() == items@.len(),
            forall|i: int| 0 <= i < items@.len() ==> j.spec_item_progress()[i] == 0,
            j.spec_failed() =~= Seq::<usize>::empty(),
            !j.spec_cancel_requested(),
            j.spec_state() == (if items@.len() == 0 {
                JobState::Completed
            } else {
                JobState::Running
            }),
    {
        let n = items.len();
        let mut total: u64 = 0;
        let mut i: usize = 0;
        while i < n
            invariant
                n == items@.len(),
                0 <= i <= n,
                total == sum_sizes(items@.take(i as int)),
                sum_sizes(items@) <= u64::MAX,
            decreases n - i,
        {
            proof {
                lemma_sum_sizes_prefix(items@, i + 1);
                assert(items@.take(i + 1).drop_last() =~= items@.take(i as int));
                assert(items@.take(i + 1).last() == items@[i as int]);
            }
            total = total + items[i].size;
            i = i + 1;
        }
        proof {
            assert(items@.take(n as int) =~= items@);
        }
        let progress: Vec<u64> = vec![0u64; n];
        let settled: Vec<bool> = vec![false; n];
        let state = if n == 0 {
            JobState::Completed
        } else {
            JobState::Running
        };
        proof {
            lemma_sum_u64_zero(progress@);
        }
        TransferJob {
            id,
            kind,
            destination,
            on_conflict,
            items,
            total_bytes: total,
            transferred: 0,
            item_progress: progress,
            settled,
            failed_items: Vec::new(),
            state,
            cancel_requested: false,
        }
    }

    /// Aggregate progress in thousandths, clamped to `[0, 1000]`.
    pub fn progress_permille(&self) -> (r: u32)
        requires
            self.wf(),
        ensures
            r == spec_permille(self.spec_done() as int, self.spec_total() as int),
            r <= 1000,
    {
        if self.total_bytes == 0 {
            1000
        } else {
            let q: u128 = (self.transferred as u128) * 1000 / (self.total_bytes as u128);
            proof {
                assert(self.transferred as int * 1000 / (self.total_bytes as int) <= 1000)
                    by (nonlinear_arith)
                    requires
                        0 <= self.transferred as int <= self.total_bytes as int,
                        self.total_bytes as int > 0,
                ;
            }
            q as u32
        }
    }

    /// The host reports the cumulative bytes copied so far for one item.
    /// The per-item count is clamped to the item's size and never moves
    /// backwards, so the aggregate only ever grows; reports for settled
    /// items or non-running jobs change nothing.
    pub fn report_progress(&mut self, idx: usize, bytes_done: u64)
        requires
            old(self).wf(),
            idx < old(self).spec_items().len(),
        ensures
            final(self).wf(),
            report_progress_model(*old(self), *final(self), idx as int, bytes_done),
    {
        if !(matches!(self.state, JobState::Running)) {
            return ;
        }
        if self.settled[idx] {
            return ;
        }
        let size = self.items[idx].size;
        let old_p = self.item_progress[idx];
        let cap = if bytes_done < size {
            bytes_done
        } else {
            size
        };
        let p_new = if cap > old_p {
            cap
        } else {
            old_p
        };
        proof {
            lemma_sum_u64_element(self.item_progress@, idx as int);
            lemma_sum_u64_update(self.item_progress@, idx as int, p_new);
        }
        self.item_progress[idx] = p_new;
        proof {
            lemma_sum_u64_le_sizes(self.item_progress@, self.items@);
        }
        self.transferred = self.transferred - old_p + p_new;
    }

    /// The host reports that one item finished: successfully, with all its
    /// bytes in place, or with an unrecoverable error, which is recorded
    /// against the item and does not abort its siblings. At this item
    /// boundary the job observes a pending cancellation; otherwise it
    /// finishes once every item has settled. Reports for settled items or
    /// non-running jobs change nothing.
    pub fn settle_item(&mut self, idx: usize, ok: bool)
        requires
            old(self).wf(),
            idx < old(self).spec_items().len(),
        ensures
            final(self).wf(),
            settle_item_model(*old(self), *final(self), idx as int, ok),
    {
        if !(matches!(self.state, JobState::Running)) {
            return ;
        }
        if self.settled[idx] {
            return ;
        }
        self.settled[idx] = true;
        if ok {
            let size = self.items[idx].size;
            let old_p = self.item_progress[idx];
            proof {
                lemma_sum_u64_element(self.item_progress@, idx as int);
                lemma_sum_u64_update(self.item_progress@, idx as int, size);
            }
            self.item_progress[idx] = size;
            proof {
                lemma_sum_u64_le_sizes(self.item_progress@, self.items@);
            }
            self.transferred = self.transferred - old_p + size;
        } else {
            self.failed_items.push(idx);
        }
        proof {
            assert forall|i: int|
                0 <= i < self.items@.len() && self.settled@[i] && !self.failed_items@.contains(
                    i as usize,
                ) implies self.item_progress@[i] == self.items@[i].size by {
                if i == idx {
                    if !ok {
                        assert(self.failed_items@[self.failed_items@.len() - 1] == idx);
                        assert(self.failed_items@.contains(idx));
                    }
                } else {
                    if old(self).failed_items@.contains(i as usize) {
                        let w = choose|k: int|
                            0 <= k < old(self).failed_items@.len() && old(self).failed_items@[k]
                                == i as usize;
                        assert(self.failed_items@[w] == i as usize);
                        assert(self.failed_items@.contains(i as usize));
                    }
                }
            }
        }
        if self.cancel_requested {
            self.state = JobState::Cancelled;
            return ;
        }
        let mut all = true;
        let mut k: usize = 0;
        while k < self.settled.len()
            invariant
                0 <= k <= self.settled@.len(),
                all == (forall|j: int| 0 <= j < k ==> self.settled@[j]),
            decreases self.settled@.len() - k,
        {
            if !self.settled[k] {
                all = false;
            }
            k = k + 1;
        }
        if all {
            if self.failed_items.len() == 0 {
                proof {
                    assert forall|i: int|
                        0 <= i < self.item_progress@.len() implies self.item_progress@[i]
                        == self.items@[i].size by {
                        assert(self.settled@[i]);
                        assert(!self.failed_items@.contains(i as usize));
                    }
                    lemma_sum_u64_eq_sizes(self.item_progress@, self.items@);
                }
                self.state = JobState::Completed;
            } else {
                self.state = JobState::Failed;
            }
        }
    }

    /// Request cancellation: set the job's flag, to be observed at the next
    /// item boundary. Only a running job takes the flag; a terminal job is
    /// left untouched.
    pub fn cancel(&mut self)
        requires
            old(self).wf(),
        ensures
            final(self).wf(),
            final(self).spec_cancel_requested() == (old(self).spec_cancel_requested() || old(
                self,
            ).spec_state() is Running),
            final(self).spec_id() == old(self).spec_id(),
            final(self).spec_kind() == old(self).spec_kind(),
            final(self).spec_destination() == old(self).spec_destination(),
            final(self).spec_on_conflict() == old(self).spec_on_conflict(),
            final(self).spec_items() == old(self).spec_items(),
            final(self).spec_total() == old(self).spec_total(),
            final(self).spec_done() == old(self).spec_done(),
            final(self).spec_item_progress() == old(self).spec_item_progress(),
            final(self).spec_settled() == old(self).spec_settled(),
            final(self).spec_failed() == old(self).spec_failed(),
            final(self).spec_state() == old(self).spec_state(),
    {
        if matches!(self.state, JobState::Running) {
            self.cancel_requested = true;
        }
    }

    /// The job's identifier.
    pub fn id(&self) -> (r: u64)
        ensures
            r == self.spec_id(),
    {
        self.id
    }

    /// Copy or move.
    pub fn kind(&self) -> (r: ProcessType)
        ensures
            r == self.spec_kind(),
    {
        self.kind
    }

    /// The destination directory handle.
    pub fn destination(&self) -> (r: u64)
        ensures
            r == self.spec_destination(),
    {
        self.destination
    }

    /// What the host does on a destination name collision.
    pub fn on_conflict(&self) -> (r: ConflictPolicy)
        ensures
            r == self.spec_on_conflict(),
    {
        self.on_conflict
    }

    /// The job's items.
    pub fn items(&self) -> (r: &Vec<TransferItem>)
        ensures
            r@ == self.spec_items(),
    {
        &self.items
    }

    /// Total bytes, computed once at creation.
    pub fn total_bytes(&self) -> (r: u64)
        ensures
            r == self.spec_total(),
    {
        self.total_bytes
    }

    /// Aggregate bytes transferred so far.
    pub fn transferred_bytes(&self) -> (r: u64)
        ensures
            r == self.spec_done(),
    {
        self.transferred
    }

    /// The job's lifecycle state.
    pub fn state(&self) -> (r: JobState)
        ensures
            r == self.spec_state(),
    {
        self.state
    }

    /// The indices of the items that failed, for inspection.
    pub fn failed_items(&self) -> (r: &Vec<usize>)
        ensures
            r@ == self.spec_failed(),
    {
        &self.failed_items
    }

    /// Whether cancellation was requested.
    pub fn cancel_requested(&self) -> (r: bool)
        ensures
            r == self.spec_cancel_requested(),
    {
        self.cancel_requested
    }
}

/// Aggregate progress never runs backwards and never exceeds the total:
/// at every observation of a well-formed job, the transferred bytes lie in
/// `[0, total_bytes]` (each mutating step's contract adds that the new
/// count is at least the old one).
pub proof fn lemma_progress_bounded(j: TransferJob)
    requires
        j.wf(),
    ensures
        0 <= j.spec_done() <= j.spec_total(),
{
}

/// A job whose cancellation was requested is never `Completed`: requesting
/// cancellation and completing are mutually exclusive for the whole of the
/// job's remaining lifetime.
pub proof fn lemma_cancel_precludes_completed(j: TransferJob)
    requires
        j.wf(),
        j.spec_cancel_requested(),
    ensures
        !(j.spec_state() is Completed),
{
}

} // verus!
