//! Per-view navigation history: an ordered sequence of visited locations and
//! a cursor into it. Navigating truncates everything after the cursor,
//! appends the new location and moves the cursor to the new last index;
//! back and forward only move the cursor and never mutate the entries.

use vstd::prelude::*;

verus! {

/// Cursor position after one `back` step: unchanged at the start of the
/// history, one step earlier otherwise.
pub open spec fn back_pos(pos: int) -> int {
    if pos <= 0 {
        pos
    } else {
        pos - 1
    }
}

/// Cursor position after one `forward` step: unchanged at the end of the
/// history, one step later otherwise.
pub open spec fn forward_pos(len: int, pos: int) -> int {
    if pos + 1 < len {
        pos + 1
    } else {
        pos
    }
}

/// One browsing view's navigation history.
pub struct NavigationHistory {
    entries: Vec<String>,
    cursor: usize,
}

impl NavigationHistory {
    /// The visited locations, in visit order.
    pub closed spec fn locs(self) -> Seq<Seq<char>> {
        self.entries@.map_values(|s: String| s@)
    }

    /// The cursor: an index into `locs` whenever the history is non-empty.
    pub closed spec fn pos(self) -> int {
        self.cursor as int
    }

    /// The cursor never leaves `[0, locs().len() - 1]` while the history is
    /// non-empty, and rests at zero while it is empty.
    pub closed spec fn wf(self) -> bool {
        if self.entries@.len() == 0 {
            self.cursor == 0
        } else {
            (self.cursor as int) < self.entries@.len()
        }
    }

    /// A fresh, empty history.
    pub fn new() -> (h: Self)
        ensures
            h.wf(),
            h.locs() =~= Seq::<Seq<char>>::empty(),
            h.pos() == 0,
    {
        NavigationHistory { entries: Vec::new(), cursor: 0 }
    }

    /// Visit a new location: drop everything after the cursor, append the
    /// location, and move the cursor onto it.
    pub fn navigate(&mut self, location: String)
        requires
            old(self).wf(),
        ensures
            final(self).wf(),
            final(self).locs() =~= old(self).locs().subrange(
                0,
                if old(self).locs().len() == 0 {
                    0
                } else {
                    old(self).pos() + 1
                },
            ).push(location@),
            final(self).pos() == final(self).locs().len() - 1,
    {
        if self.entries.len() > 0 {
            self.entries.truncate(self.cursor + 1);
        }
        self.entries.push(location);
        self.cursor = self.entries.len() - 1;
        proof {
            assert(final(self).locs() =~= old(self).locs().subrange(
                0,
                if old(self).locs().len() == 0 {
                    0int
                } else {
                    old(self).pos() + 1
                },
            ).push(final(self).entries@.last()@));
        }
    }

    /// Step back: a no-op at the start of the history, else the cursor moves
    /// one step earlier and the now-current location is returned. The
    /// entries themselves never change.
    pub fn back(&mut self) -> (r: Option<String>)
        requires
            old(self).wf(),
        ensures
            final(self).wf(),
            final(self).locs() == old(self).locs(),
            final(self).pos() == back_pos(old(self).pos()),
            r is Some <==> old(self).pos() > 0,
            r is Some ==> r->0@ == final(self).locs()[final(self).pos()],
    {
        if self.cursor > 0 {
            self.cursor = self.cursor - 1;
            Some(self.entries[self.cursor].clone())
        } else {
            None
        }
    }

    /// Step forward: a no-op at the end of the history, else the cursor
    /// moves one step later and the now-current location is returned. The
    /// entries themselves never change.
    pub fn forward(&mut self) -> (r: Option<String>)
        requires
            old(self).wf(),
        ensures
            final(self).wf(),
            final(self).locs() == old(self).locs(),
            final(self).pos() == forward_pos(old(self).locs().len() as int, old(self).pos()),
            r is Some <==> old(self).pos() + 1 < old(self).locs().len(),
            r is Some ==> r->0@ == final(self).locs()[final(self).pos()],
    {
        let n = self.entries.len();
        if n > 0 && self.cursor < n - 1 {
            self.cursor = self.cursor + 1;
            Some(self.entries[self.cursor].clone())
        } else {
            None
        }
    }

    /// The location under the cursor, if any.
    pub fn current(&self) -> (r: Option<&String>)
        requires
            self.wf(),
        ensures
            r is Some <==> self.locs().len() > 0,
            r is Some ==> r->0@ == self.locs()[self.pos()],
    {
        if self.entries.len() > 0 {
            Some(&self.entries[self.cursor])
        } else {
            None
        }
    }

    /// How many locations the history holds.
    pub fn len(&self) -> (r: usize)
        ensures
            r == self.locs().len(),
    {
        self.entries.len()
    }

    /// The cursor's index.
    pub fn cursor_index(&self) -> (r: usize)
        ensures
            r == self.pos(),
    {
        self.cursor
    }
}

/// Back and forward keep the cursor inside `[0, len - 1]`: from any in-bounds
/// position, both stepped positions are again in bounds.
pub proof fn lemma_moves_stay_in_bounds(len: int, pos: int)
    requires
        0 < len,
        0 <= pos < len,
    ensures
        0 <= back_pos(pos) < len,
        0 <= forward_pos(len, pos) < len,
{
}

/// Stepping back and then forward, with no intervening navigation, returns
/// the cursor — and with it the current location — to where it stood,
/// provided the back step actually moved (the cursor was not at the start).
pub proof fn lemma_back_then_forward(len: int, pos: int)
    requires
        0 < pos < len,
    ensures
        forward_pos(len, back_pos(pos)) == pos,
{
}

} // verus!
