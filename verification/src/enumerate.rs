//! The Directory Enumerator: lists a directory-like resource shallowly, or
//! flattens a whole tree depth-first. The traversal is driven as a state
//! machine over an explicit work stack: the host pops read requests with
//! `step`, performs the actual directory read, and hands the outcome back
//! with `report_children` or `report_unreadable`. An unreadable subtree is
//! skipped and counted as a non-fatal diagnostic; it never aborts the
//! traversal. Once cancelled, no outcome appends further entries.

use vstd::prelude::*;
use crate::entry::EntryKind;
use crate::entry::FileEntry;

verus! {

/// Shallow lists immediate children only; recursive flattens the tree
/// depth-first, appending only non-directory entries and traversing into
/// each child directory before continuing with its siblings.
#[derive(Clone, Copy, PartialEq, Eq, Structural, Debug)]
pub enum EnumMode {
    Shallow,
    Recursive,
}

/// One unit of outstanding traversal work: a directory still to be read, or
/// an entry ready to be appended to the output.
pub enum WorkItem {
    Visit(u64),
    Emit(FileEntry),
}

/// What one `step` of the traversal asks of the host: read the children of
/// a directory handle, nothing (an entry was appended internally), or
/// nothing at all because the traversal is finished or cancelled.
pub enum EnumAction {
    Read(u64),
    Emitted,
    Idle,
}

/// The work a freshly read child list induces, top of stack last: the first
/// child ends on top, so the traversal handles children in order and
/// descends into a child directory before continuing with its siblings.
pub open spec fn work_of(mode: EnumMode, children: Seq<FileEntry>) -> Seq<WorkItem> {
    children.reverse().map_values(|e: FileEntry| work_item_of(mode, e))
}

/// The work one child induces: in recursive mode a directory is traversed
/// but not emitted; everything else is emitted.
pub open spec fn work_item_of(mode: EnumMode, e: FileEntry) -> WorkItem {
    match mode {
        EnumMode::Shallow => WorkItem::Emit(e),
        EnumMode::Recursive => if e.kind == EntryKind::Directory {
            WorkItem::Visit(e.handle)
        } else {
            WorkItem::Emit(e)
        },
    }
}

/// An in-progress enumeration of one directory-like resource.
pub struct Enumerator {
    mode: EnumMode,
    stack: Vec<WorkItem>,
    output: Vec<FileEntry>,
    diagnostics: u64,
    cancelled: bool,
}

impl Enumerator {
    /// The entries produced so far, in traversal order.
    pub closed spec fn out(self) -> Seq<FileEntry> {
        self.output@
    }

    /// The outstanding work, top of stack last.
    pub closed spec fn work(self) -> Seq<WorkItem> {
        self.stack@
    }

    /// How many subtrees failed and were skipped.
    pub closed spec fn diags(self) -> u64 {
        self.diagnostics
    }

    /// Whether the enumeration was cancelled.
    pub closed spec fn spec_cancelled(self) -> bool {
        self.cancelled
    }

    /// The mode the enumeration was started in.
    pub closed spec fn spec_mode(self) -> EnumMode {
        self.mode
    }

    /// Start enumerating under one root directory handle.
    pub fn begin(root: u64, mode: EnumMode) -> (e: Self)
        ensures
            e.out() =~= Seq::<FileEntry>::empty(),
            e.work() =~= seq![WorkItem::Visit(root)],
            e.diags() == 0,
            !e.spec_cancelled(),
            e.spec_mode() == mode,
    {
        let mut stack: Vec<WorkItem> = Vec::new();
        stack.push(WorkItem::Visit(root));
        Enumerator { mode, stack, output: Vec::new(), diagnostics: 0, cancelled: false }
    }

    /// Take one step: append the next ready entry, ask the host to read the
    /// next directory, or report that nothing is left to do. Cancellation
    /// stops the traversal: no entry is appended and no read is requested.
    pub fn step(&mut self) -> (r: EnumAction)
        ensures
            final(self).diags() == old(self).diags(),
            final(self).spec_cancelled() == old(self).spec_cancelled(),
            final(self).spec_mode() == old(self).spec_mode(),
            old(self).spec_cancelled() || old(self).work().len() == 0 ==> {
                &&& r is Idle
                &&& final(self).out() == old(self).out()
                &&& final(self).work() == old(self).work()
            },
            !old(self).spec_cancelled() && old(self).work().len() > 0 ==> {
                &&& final(self).work() == old(self).work().drop_last()
                &&& match old(self).work().last() {
                    WorkItem::Emit(e) => r is Emitted && final(self).out() == old(
                        self,
                    ).out().push(e),
                    WorkItem::Visit(h) => r == EnumAction::Read(h) && final(self).out() == old(
                        self,
                    ).out(),
                }
            },
    {
        if self.cancelled {
            return EnumAction::Idle;
        }
        match self.stack.pop() {
            None => EnumAction::Idle,
            Some(WorkItem::Emit(e)) => {
                self.output.push(e);
                EnumAction::Emitted
            },
            Some(WorkItem::Visit(h)) => EnumAction::Read(h),
        }
    }

    /// The host read the children of the directory the last `step` asked
    /// for: queue the work they induce, first child on top. After
    /// cancellation the outcome is dropped.
    pub fn report_children(&mut self, children: Vec<FileEntry>)
        ensures
            final(self).out() == old(self).out(),
            final(self).diags() == old(self).diags(),
            final(self).spec_cancelled() == old(self).spec_cancelled(),
            final(self).spec_mode() == old(self).spec_mode(),
            old(self).spec_cancelled() ==> final(self).work() == old(self).work(),
            !old(self).spec_cancelled() ==> final(self).work() == old(self).work() + work_of(
                old(self).spec_mode(),
                children@,
            ),
    {
        if self.cancelled {
            return ;
        }
        let ghost orig = children@;
        let ghost base = self.stack@;
        let mut children = children;
        while children.len() > 0
            invariant
                children@.len() <= orig.len(),
                children@ == orig.take(children@.len() as int),
                self.stack@ == base + work_of(self.mode, orig.skip(children@.len() as int)),
                self.output@ == old(self).output@,
                self.diagnostics == old(self).diagnostics,
                self.cancelled == old(self).cancelled,
                self.mode == old(self).mode,
            decreases children@.len(),
        {
            let ghost n = children@.len() as int;
            let e = children.pop().unwrap();
            match (self.mode, e.kind) {
                (EnumMode::Recursive, EntryKind::Directory) => {
                    self.stack.push(WorkItem::Visit(e.handle));
                },
                _ => {
                    self.stack.push(WorkItem::Emit(e));
                },
            }
            proof {
                assert(children@ =~= orig.take(n - 1));
                assert(orig.skip(n - 1) =~= seq![orig[n - 1]] + orig.skip(n));
                assert(orig.skip(n - 1).reverse() =~= orig.skip(n).reverse().push(orig[n - 1]));
                assert(work_of(self.mode, orig.skip(n - 1)) =~= work_of(
                    self.mode,
                    orig.skip(n),
                ).push(work_item_of(self.mode, orig[n - 1])));
                assert(self.stack@ =~= base + work_of(self.mode, orig.skip(n - 1)));
            }
        }
        proof {
            assert(orig.skip(0) =~= orig);
        }
    }

    /// The host could not read the directory the last `step` asked for
    /// (permission denied, broken symlink, I/O fault): the subtree is
    /// skipped and the failure counted, never rethrown. After cancellation
    /// the outcome is dropped.
    pub fn report_unreadable(&mut self)
        ensures
            final(self).out() == old(self).out(),
            final(self).work() == old(self).work(),
            final(self).spec_cancelled() == old(self).spec_cancelled(),
            final(self).spec_mode() == old(self).spec_mode(),
            old(self).spec_cancelled() ==> final(self).diags() == old(self).diags(),
            !old(self).spec_cancelled() ==> {
                &&& final(self).diags() >= old(self).diags()
                &&& final(self).diags() > 0
                &&& old(self).diags() < u64::MAX ==> final(self).diags() == old(self).diags() + 1
            },
    {
        if self.cancelled {
            return ;
        }
        if self.diagnostics < u64::MAX {
            self.diagnostics = self.diagnostics + 1;
        }
    }

    /// Cancel the enumeration: outstanding work will append no further
    /// entries.
    pub fn cancel(&mut self)
        ensures
            final(self).out() == old(self).out(),
            final(self).work() == old(self).work(),
            final(self).diags() == old(self).diags(),
            final(self).spec_mode() == old(self).spec_mode(),
            final(self).spec_cancelled(),
    {
        self.cancelled = true;
    }

    /// Nothing remains: the work stack is empty or the traversal was
    /// cancelled.
    pub fn is_done(&self) -> (r: bool)
        ensures
            r == (self.spec_cancelled() || self.work().len() == 0),
    {
        self.cancelled || self.stack.len() == 0
    }

    /// The entries produced so far.
    pub fn results(&self) -> (r: &Vec<FileEntry>)
        ensures
            r@ == self.out(),
    {
        &self.output
    }

    /// How many subtrees failed and were skipped.
    pub fn diagnostic_count(&self) -> (r: u64)
        ensures
            r == self.diags(),
    {
        self.diagnostics
    }

    /// Whether the enumeration was cancelled.
    pub fn is_cancelled(&self) -> (r: bool)
        ensures
            r == self.spec_cancelled(),
    {
        self.cancelled
    }
}

} // verus!
