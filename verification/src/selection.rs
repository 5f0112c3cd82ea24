//! Selection and clipboard state: which entries a view has selected, and
//! which entries are staged for a pending paste. Selection is recomputed
//! wholesale on every selection-changing interaction; the clipboard is
//! independent of the selection, so the selection may change after staging
//! without affecting what a paste will transfer.

use vstd::prelude::*;
use crate::entry::FileEntry;
use crate::registry::SubmitError;
use crate::registry::TransferRegistry;
use crate::transfer::ConflictPolicy;
use crate::transfer::ProcessType;
use crate::transfer::TransferItem;
use crate::transfer::sum_sizes;

verus! {

/// The current selection of one view: nothing, one entry, or several.
pub enum Selection {
    NoSelection,
    Single(FileEntry),
    Multi(Vec<FileEntry>),
}

impl Selection {
    /// The selected entries, in order.
    pub open spec fn entries_seq(self) -> Seq<FileEntry> {
        match self {
            Selection::NoSelection => Seq::empty(),
            Selection::Single(e) => seq![e],
            Selection::Multi(v) => v@,
        }
    }

    /// How many entries are selected.
    pub fn count(&self) -> (r: usize)
        ensures
            r == self.entries_seq().len(),
    {
        match self {
            Selection::NoSelection => 0,
            Selection::Single(_) => 1,
            Selection::Multi(v) => v.len(),
        }
    }
}

/// Recompute the selection wholesale from the entries currently marked
/// selected: nothing for none, `Single` for exactly one, `Multi` for more.
pub fn classify_selection(entries: Vec<FileEntry>) -> (r: Selection)
    ensures
        entries@.len() == 0 ==> r is NoSelection,
        entries@.len() == 1 ==> r == Selection::Single(entries@[0]),
        entries@.len() > 1 ==> r == Selection::Multi(entries),
        r.entries_seq() =~= entries@,
{
    if entries.len() == 0 {
        Selection::NoSelection
    } else if entries.len() == 1 {
        let mut entries = entries;
        let e = entries.pop().unwrap();
        Selection::Single(e)
    } else {
        Selection::Multi(entries)
    }
}

/// The transfer items a set of entries stands for: each entry's handle,
/// base name and size.
pub open spec fn items_of(entries: Seq<FileEntry>) -> Seq<TransferItem> {
    entries.map_values(
        |e: FileEntry| TransferItem { source: e.handle, name: e.name, size: e.size },
    )
}

/// The clipboard: the entries staged for a pending paste.
pub struct Clipboard {
    staged: Vec<FileEntry>,
}

impl Clipboard {
    /// The staged entries, in staging order.
    pub closed spec fn staged_seq(self) -> Seq<FileEntry> {
        self.staged@
    }

    /// A fresh, empty clipboard.
    pub fn new() -> (r: Self)
        ensures
            r.staged_seq() =~= Seq::<FileEntry>::empty(),
    {
        Clipboard { staged: Vec::new() }
    }

    /// Stage these entries for a later paste, replacing whatever was staged
    /// before.
    pub fn stage_for_paste(&mut self, entries: &Vec<FileEntry>)
        ensures
            final(self).staged_seq() == entries@,
    {
        let mut staged: Vec<FileEntry> = Vec::new();
        let mut i: usize = 0;
        while i < entries.len()
            invariant
                0 <= i <= entries@.len(),
                staged@ =~= entries@.take(i as int),
            decreases entries@.len() - i,
        {
            staged.push(entries[i].clone());
            i = i + 1;
        }
        proof {
            assert(entries@.take(entries@.len() as int) =~= entries@);
        }
        self.staged = staged;
    }

    /// Forget the staged entries.
    pub fn clear(&mut self)
        ensures
            final(self).staged_seq() =~= Seq::<FileEntry>::empty(),
    {
        self.staged.clear();
    }

    /// How many entries are staged.
    pub fn len(&self) -> (r: usize)
        ensures
            r == self.staged_seq().len(),
    {
        self.staged.len()
    }

    /// Paste the staged entries into a destination: submit a copy job over
    /// them, with the default overwrite-on-collision policy. The staged
    /// buffer is left intact for repeated pastes until explicitly cleared.
    /// Validation and its outcomes are the registry's: a rejected paste
    /// leaves the registry untouched.
    pub fn paste_into(&self, registry: &mut TransferRegistry, destination: u64, dest_ok: bool) -> (r:
        Result<u64, SubmitError>)
        requires
            old(registry).wf(),
        ensures
            final(registry).wf(),
            r is Err ==> *final(registry) == *old(registry),
            (r == Err::<u64, SubmitError>(SubmitError::InvalidDestination)) <==> !dest_ok,
            dest_ok ==> ((r == Err::<u64, SubmitError>(SubmitError::TotalTooLarge)) <==> sum_sizes(
                items_of(self.staged_seq()),
            ) > u64::MAX),
            dest_ok && sum_sizes(items_of(self.staged_seq())) <= u64::MAX ==> ((r == Err::<
                u64,
                SubmitError,
            >(SubmitError::IdsExhausted)) <==> old(registry).spec_next_id() == u64::MAX),
            r is Ok ==> {
                &&& r->Ok_0 == old(registry).spec_next_id()
                &&& final(registry).spec_next_id() == old(registry).spec_next_id() + 1
                &&& final(registry).jobs_seq().len() == old(registry).jobs_seq().len() + 1
                &&& final(registry).jobs_seq().drop_last() == old(registry).jobs_seq()
                &&& {
                    let j = final(registry).jobs_seq().last();
                    &&& j.wf()
                    &&& j.spec_id() == r->Ok_0
                    &&& j.spec_kind() == ProcessType::Copy
                    &&& j.spec_destination() == destination
                    &&& j.spec_on_conflict() == ConflictPolicy::Overwrite
                    &&& j.spec_items() == items_of(self.staged_seq())
                    &&& j.spec_total() == sum_sizes(items_of(self.staged_seq()))
                    &&& j.spec_done() == 0
                    &&& j.spec_settled().len() == self.staged_seq().len()
                    &&& forall|k: int| 0 <= k < self.staged_seq().len() ==> !j.spec_settled()[k]
                    &&& j.spec_failed() =~= Seq::<usize>::empty()
                    &&& !j.spec_cancel_requested()
                }
            },
    {
        let mut items: Vec<TransferItem> = Vec::new();
        let mut i: usize = 0;
        while i < self.staged.len()
            invariant
                0 <= i <= self.staged@.len(),
                items@ =~= items_of(self.staged@.take(i as int)),
            decreases self.staged@.len() - i,
        {
            let e = &self.staged[i];
            items.push(TransferItem { source: e.handle, name: e.name.clone(), size: e.size });
            proof {
                assert(self.staged@.take(i + 1) =~= self.staged@.take(i as int).push(
                    self.staged@[i as int],
                ));
                assert(items@ =~= items_of(self.staged@.take(i + 1)));
            }
            i = i + 1;
        }
        proof {
            assert(self.staged@.take(self.staged@.len() as int) =~= self.staged@);
        }
        registry.submit(ProcessType::Copy, destination, dest_ok, ConflictPolicy::Overwrite, items)
    }
}

} // verus!
