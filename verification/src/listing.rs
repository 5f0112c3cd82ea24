//! The Listing Store: an ordered collection of file-metadata records for one
//! browsing view, in enumeration order, together with its two presentation
//! transforms. Filtering and sorting produce derived views; the underlying
//! sequence is never reordered in place.

use vstd::prelude::*;
use vstd::seq_lib::group_to_multiset_ensures;
use vstd::seq_lib::lemma_multiset_commutative;
use crate::entry::FileEntry;
use crate::text::contains_exec;
use crate::text::contains_seq;
use crate::text::lemma_lex_leq_total;
use crate::text::lemma_lex_leq_trans;
use crate::text::lower_seq;
use crate::text::name_leq;
use crate::text::name_leq_exec;

verus! {

/// The two orderings a view can present: by name (case-insensitive
/// lexicographic) and by modification time (missing timestamps sort last,
/// ties broken by name).
#[derive(Clone, Copy, PartialEq, Eq, Structural, Debug)]
pub enum SortOrder {
    ByName,
    ByModified,
}

/// Whether an entry passes the presentation filter: hidden entries are
/// excluded unless "show hidden" is on, and with a query set the name must
/// contain it as a (case-sensitive) substring.
pub open spec fn passes(show_hidden: bool, query: Option<Seq<char>>, e: FileEntry) -> bool {
    &&& show_hidden || !e.spec_is_hidden()
    &&& match query {
        Option::Some(q) => contains_seq(e.name@, q),
        Option::None => true,
    }
}

/// Modification-time order: entries without a timestamp sort last, ties are
/// broken by case-insensitive name.
pub open spec fn mtime_leq(a: FileEntry, b: FileEntry) -> bool {
    match (a.modified_at, b.modified_at) {
        (Option::Some(x), Option::Some(y)) => if x != y {
            x < y
        } else {
            name_leq(a.name@, b.name@)
        },
        (Option::Some(_), Option::None) => true,
        (Option::None, Option::Some(_)) => false,
        (Option::None, Option::None) => name_leq(a.name@, b.name@),
    }
}

/// The order a `SortOrder` selects.
pub open spec fn entry_leq(order: SortOrder, a: FileEntry, b: FileEntry) -> bool {
    match order {
        SortOrder::ByName => name_leq(a.name@, b.name@),
        SortOrder::ByModified => mtime_leq(a, b),
    }
}

/// A sequence is sorted under the selected order.
pub open spec fn sorted_by_order(order: SortOrder, s: Seq<FileEntry>) -> bool {
    forall|i: int, j: int| 0 <= i < j < s.len() ==> entry_leq(order, s[i], s[j])
}

/// The selected order is total.
pub proof fn lemma_entry_leq_total(order: SortOrder, a: FileEntry, b: FileEntry)
    ensures
        entry_leq(order, a, b) || entry_leq(order, b, a),
{
    lemma_lex_leq_total(lower_seq(a.name@), lower_seq(b.name@));
}

/// The selected order is transitive.
pub proof fn lemma_entry_leq_trans(order: SortOrder, a: FileEntry, b: FileEntry, c: FileEntry)
    requires
        entry_leq(order, a, b),
        entry_leq(order, b, c),
    ensures
        entry_leq(order, a, c),
{
    if name_leq(a.name@, b.name@) && name_leq(b.name@, c.name@) {
        lemma_lex_leq_trans(lower_seq(a.name@), lower_seq(b.name@), lower_seq(c.name@));
    }
}

/// Inserting an element anywhere in a sequence adds it, as a multiset.
proof fn lemma_insert_to_multiset<A>(s: Seq<A>, i: int, a: A)
    requires
        0 <= i <= s.len(),
    ensures
        s.insert(i, a).to_multiset() == s.to_multiset().insert(a),
{
    broadcast use group_to_multiset_ensures;

    let t = s.take(i);
    let u = s.skip(i);
    assert(s.insert(i, a) =~= t.push(a) + u);
    assert(s =~= t + u);
    lemma_multiset_commutative(t.push(a), u);
    lemma_multiset_commutative(t, u);
    assert(t.push(a).to_multiset() =~= t.to_multiset().insert(a));
    assert(t.to_multiset().insert(a).add(u.to_multiset()) =~= t.to_multiset().add(
        u.to_multiset(),
    ).insert(a));
}

/// The subsequence of `s` that passes the presentation filter, in order.
pub open spec fn filtered_spec(s: Seq<FileEntry>, show_hidden: bool, query: Option<Seq<char>>) -> Seq<
    FileEntry,
> {
    s.filter(|e: FileEntry| passes(show_hidden, query, e))
}

/// One browsing view's listing: file entries in enumeration order.
pub struct ListingStore {
    items: Vec<FileEntry>,
}

impl ListingStore {
    /// The entries, in enumeration order.
    pub closed spec fn entries(self) -> Seq<FileEntry> {
        self.items@
    }

    /// A fresh, empty listing.
    pub fn new() -> (s: Self)
        ensures
            s.entries() =~= Seq::<FileEntry>::empty(),
    {
        ListingStore { items: Vec::new() }
    }

    /// Append one enumerated entry at the end.
    pub fn append(&mut self, e: FileEntry)
        ensures
            final(self).entries() == old(self).entries().push(e),
    {
        self.items.push(e);
    }

    /// Drop every entry: switching the active directory resets the listing
    /// to a fresh enumeration.
    pub fn clear(&mut self)
        ensures
            final(self).entries() =~= Seq::<FileEntry>::empty(),
    {
        self.items.clear();
    }

    /// How many entries the listing holds.
    pub fn len(&self) -> (r: usize)
        ensures
            r == self.entries().len(),
    {
        self.items.len()
    }

    /// The entry at one index.
    pub fn get(&self, i: usize) -> (r: &FileEntry)
        requires
            i < self.entries().len(),
        ensures
            *r == self.entries()[i as int],
    {
        &self.items[i]
    }

    /// The filtered presentation view: exactly the entries that pass the
    /// filter, in listing order.
    pub fn filtered(&self, show_hidden: bool, query: Option<&String>) -> (r: Vec<FileEntry>)
        ensures
            r@ == filtered_spec(self.entries(), show_hidden, spec_query(query)),
    {
        let ghost q = spec_query(query);
        let mut r: Vec<FileEntry> = Vec::new();
        let mut i: usize = 0;
        while i < self.items.len()
            invariant
                0 <= i <= self.items@.len(),
                r@ == filtered_spec(self.items@.take(i as int), show_hidden, q),
                q == spec_query(query),
            decreases self.items@.len() - i,
        {
            let e = &self.items[i];
            let keep = (show_hidden || !e.is_hidden()) && (match query {
                Some(s) => contains_exec(e.name.as_str(), s.as_str()),
                None => true,
            });
            proof {
                reveal(Seq::filter);
                assert(self.items@.take(i + 1).drop_last() =~= self.items@.take(i as int));
                assert(self.items@.take(i + 1).last() == self.items@[i as int]);
            }
            if keep {
                r.push(e.clone());
            }
            i = i + 1;
        }
        proof {
            assert(self.items@.take(self.items@.len() as int) =~= self.items@);
        }
        r
    }

    /// The sorted presentation view: the same entries, as a multiset, in the
    /// selected order.
    pub fn sorted(&self, order: SortOrder) -> (r: Vec<FileEntry>)
        ensures
            sorted_by_order(order, r@),
            r@.to_multiset() == self.entries().to_multiset(),
    {
        sort_entries(&self.items, order)
    }

    /// The full presentation pipeline: filter, then sort. The result holds
    /// exactly the passing entries, in the selected order.
    pub fn present(&self, show_hidden: bool, query: Option<&String>, order: SortOrder) -> (r: Vec<
        FileEntry,
    >)
        ensures
            sorted_by_order(order, r@),
            r@.to_multiset() == filtered_spec(
                self.entries(),
                show_hidden,
                spec_query(query),
            ).to_multiset(),
    {
        let f = self.filtered(show_hidden, query);
        sort_entries(&f, order)
    }
}

/// The query a presentation call selects, as a character sequence.
pub open spec fn spec_query(query: Option<&String>) -> Option<Seq<char>> {
    match query {
        Option::Some(q) => Option::Some(q@),
        Option::None => Option::None,
    }
}

/// The selected order, decided executably.
pub fn entry_leq_exec(order: SortOrder, a: &FileEntry, b: &FileEntry) -> (r: bool)
    ensures
        r == entry_leq(order, *a, *b),
{
    match order {
        SortOrder::ByName => name_leq_exec(a.name.as_str(), b.name.as_str()),
        SortOrder::ByModified => {
            match (a.modified_at, b.modified_at) {
                (Some(x), Some(y)) => {
                    if x != y {
                        x < y
                    } else {
                        name_leq_exec(a.name.as_str(), b.name.as_str())
                    }
                },
                (Some(_), None) => true,
                (None, Some(_)) => false,
                (None, None) => name_leq_exec(a.name.as_str(), b.name.as_str()),
            }
        },
    }
}

/// Insertion sort under the selected order: the result is sorted and holds
/// the same entries, as a multiset.
pub fn sort_entries(v: &Vec<FileEntry>, order: SortOrder) -> (r: Vec<FileEntry>)
    ensures
        sorted_by_order(order, r@),
        r@.to_multiset() == v@.to_multiset(),
{
    broadcast use group_to_multiset_ensures;

    let mut r: Vec<FileEntry> = Vec::new();
    let mut i: usize = 0;
    while i < v.len()
        invariant
            0 <= i <= v@.len(),
            sorted_by_order(order, r@),
            r@.to_multiset() == v@.take(i as int).to_multiset(),
        decreases v@.len() - i,
    {
        let x = v[i].clone();
        let mut p: usize = 0;
        while p < r.len() && entry_leq_exec(order, &r[p], &x)
            invariant
                0 <= p <= r@.len(),
                forall|k: int| 0 <= k < p ==> entry_leq(order, r@[k], x),
            decreases r@.len() - p,
        {
            p = p + 1;
        }
        let ghost r_old = r@;
        let ghost pos = p as int;
        r.insert(p, x);
        proof {
            broadcast use group_to_multiset_ensures;

            r_old.insert_ensures(pos, x);
            if pos < r_old.len() {
                lemma_entry_leq_total(order, r_old[pos], x);
            }
            assert forall|a: int, b: int| 0 <= a < b < r@.len() implies entry_leq(
                order,
                r@[a],
                r@[b],
            ) by {
                if a < pos && b == pos {
                } else if a == pos && b > pos {
                    if b - 1 > pos {
                        lemma_entry_leq_trans(order, x, r_old[pos], r_old[b - 1]);
                    }
                } else if a < pos && b > pos {
                } else if a == pos && b == pos {
                } else if a > pos && b > pos {
                } else {
                }
            }
            lemma_insert_to_multiset(r_old, pos, x);
            assert(v@.take(i + 1) =~= v@.take(i as int).push(v@[i as int]));
            assert(v@.take(i as int).push(v@[i as int]).to_multiset() =~= v@.take(
                i as int,
            ).to_multiset().insert(v@[i as int]));
        }
        i = i + 1;
    }
    proof {
        assert(v@.take(v@.len() as int) =~= v@);
    }
    r
}

} // verus!
