//! One browsing view: its Listing Store, its navigation history and its
//! presentation settings. The filter and sort settings are presentation
//! state selectable at runtime; changing them never touches the underlying
//! listing, and switching directories resets the listing wholesale to a
//! fresh enumeration.

use vstd::prelude::*;
use crate::entry::FileEntry;
use crate::history::NavigationHistory;
use crate::history::back_pos;
use crate::history::forward_pos;
use crate::listing::ListingStore;
use crate::listing::SortOrder;
use crate::listing::filtered_spec;
use crate::listing::sorted_by_order;

verus! {

/// One browsing pane: listing, history and presentation settings.
pub struct BrowserView {
    store: ListingStore,
    history: NavigationHistory,
    show_hidden: bool,
    query: Option<String>,
    order: SortOrder,
}

impl BrowserView {
    /// The listed entries, in enumeration order.
    pub closed spec fn entries(self) -> Seq<FileEntry> {
        self.store.entries()
    }

    /// The view's navigation history.
    pub closed spec fn hist(self) -> NavigationHistory {
        self.history
    }

    /// Whether hidden entries are shown.
    pub closed spec fn spec_show_hidden(self) -> bool {
        self.show_hidden
    }

    /// The active search query, if any.
    pub closed spec fn spec_query(self) -> Option<Seq<char>> {
        match self.query {
            Option::Some(q) => Option::Some(q@),
            Option::None => Option::None,
        }
    }

    /// The selected ordering.
    pub closed spec fn spec_order(self) -> SortOrder {
        self.order
    }

    /// A fresh view: empty listing, empty history, hidden entries hidden,
    /// no query, ordered by name.
    pub fn new() -> (v: Self)
        ensures
            v.entries() =~= Seq::<FileEntry>::empty(),
            v.hist().wf(),
            v.hist().locs() =~= Seq::<Seq<char>>::empty(),
            !v.spec_show_hidden(),
            v.spec_query() is None,
            v.spec_order() == SortOrder::ByName,
    {
        BrowserView {
            store: ListingStore::new(),
            history: NavigationHistory::new(),
            show_hidden: false,
            query: None,
            order: SortOrder::ByName,
        }
    }

    /// The view's invariant: its history is well-formed.
    pub open spec fn wf(self) -> bool {
        self.hist().wf()
    }

    /// Replace the listing with a fresh enumeration's entries. History and
    /// presentation settings are untouched.
    pub fn set_entries(&mut self, entries: Vec<FileEntry>)
        ensures
            final(self).entries() == entries@,
            final(self).hist() == old(self).hist(),
            final(self).spec_show_hidden() == old(self).spec_show_hidden(),
            final(self).spec_query() == old(self).spec_query(),
            final(self).spec_order() == old(self).spec_order(),
    {
        let mut store = ListingStore::new();
        let mut entries = entries;
        let ghost orig = entries@;
        let mut i: usize = 0;
        let n = entries.len();
        proof {
            assert(orig.take(0) =~= Seq::<FileEntry>::empty());
        }
        while i < n
            invariant
                n == orig.len(),
                0 <= i <= n,
                entries@ == orig,
                store.entries() == orig.take(i as int),
            decreases n - i,
        {
            let e = entries[i].clone();
            store.append(e);
            proof {
                assert(orig.take(i + 1) =~= orig.take(i as int).push(orig[i as int]));
            }
            i = i + 1;
        }
        proof {
            assert(orig.take(n as int) =~= orig);
        }
        self.store = store;
    }

    /// Show or hide hidden entries.
    pub fn set_show_hidden(&mut self, show: bool)
        ensures
            final(self).spec_show_hidden() == show,
            final(self).entries() == old(self).entries(),
            final(self).hist() == old(self).hist(),
            final(self).spec_query() == old(self).spec_query(),
            final(self).spec_order() == old(self).spec_order(),
    {
        self.show_hidden = show;
    }

    /// Set or clear the search query.
    pub fn set_query(&mut self, query: Option<String>)
        ensures
            final(self).spec_query() == (match query {
                Option::Some(q) => Option::Some(q@),
                Option::None => Option::<Seq<char>>::None,
            }),
            final(self).entries() == old(self).entries(),
            final(self).hist() == old(self).hist(),
            final(self).spec_show_hidden() == old(self).spec_show_hidden(),
            final(self).spec_order() == old(self).spec_order(),
    {
        self.query = query;
    }

    /// Select the presentation ordering.
    pub fn set_sort(&mut self, order: SortOrder)
        ensures
            final(self).spec_order() == order,
            final(self).entries() == old(self).entries(),
            final(self).hist() == old(self).hist(),
            final(self).spec_show_hidden() == old(self).spec_show_hidden(),
            final(self).spec_query() == old(self).spec_query(),
    {
        self.order = order;
    }

    /// The presented entries: filtered by the view's settings, in the
    /// view's ordering.
    pub fn visible(&self) -> (r: Vec<FileEntry>)
        ensures
            sorted_by_order(self.spec_order(), r@),
            r@.to_multiset() == filtered_spec(
                self.entries(),
                self.spec_show_hidden(),
                self.spec_query(),
            ).to_multiset(),
    {
        self.store.present(self.show_hidden, self.query.as_ref(), self.order)
    }

    /// Visit a new location: the history truncates its abandoned tail and
    /// the cursor moves onto the new location. The caller re-enumerates and
    /// then replaces the listing.
    pub fn navigate(&mut self, location: String)
        requires
            old(self).wf(),
        ensures
            final(self).wf(),
            final(self).hist().locs() =~= old(self).hist().locs().subrange(
                0,
                if old(self).hist().locs().len() == 0 {
                    0
                } else {
                    old(self).hist().pos() + 1
                },
            ).push(location@),
            final(self).hist().pos() == final(self).hist().locs().len() - 1,
            final(self).entries() == old(self).entries(),
            final(self).spec_show_hidden() == old(self).spec_show_hidden(),
            final(self).spec_query() == old(self).spec_query(),
            final(self).spec_order() == old(self).spec_order(),
    {
        self.history.navigate(location);
    }

    /// Step back in the history, returning the now-current location.
    pub fn go_backward(&mut self) -> (r: Option<String>)
        requires
            old(self).wf(),
        ensures
            final(self).wf(),
            final(self).hist().locs() == old(self).hist().locs(),
            final(self).hist().pos() == back_pos(old(self).hist().pos()),
            r is Some <==> old(self).hist().pos() > 0,
            r is Some ==> r->0@ == final(self).hist().locs()[final(self).hist().pos()],
            final(self).entries() == old(self).entries(),
            final(self).spec_show_hidden() == old(self).spec_show_hidden(),
            final(self).spec_query() == old(self).spec_query(),
            final(self).spec_order() == old(self).spec_order(),
    {
        self.history.back()
    }

    /// Step forward in the history, returning the now-current location.
    pub fn go_forward(&mut self) -> (r: Option<String>)
        requires
            old(self).wf(),
        ensures
            final(self).wf(),
            final(self).hist().locs() == old(self).hist().locs(),
            final(self).hist().pos() == forward_pos(
                old(self).hist().locs().len() as int,
                old(self).hist().pos(),
            ),
            r is Some <==> old(self).hist().pos() + 1 < old(self).hist().locs().len(),
            r is Some ==> r->0@ == final(self).hist().locs()[final(self).hist().pos()],
            final(self).entries() == old(self).entries(),
            final(self).spec_show_hidden() == old(self).spec_show_hidden(),
            final(self).spec_query() == old(self).spec_query(),
            final(self).spec_order() == old(self).spec_order(),
    {
        self.history.forward()
    }

    /// The location under the history's cursor, if any.
    pub fn current_location(&self) -> (r: Option<&String>)
        requires
            self.wf(),
        ensures
            r is Some <==> self.hist().locs().len() > 0,
            r is Some ==> r->0@ == self.hist().locs()[self.hist().pos()],
    {
        self.history.current()
    }
}

} // verus!
