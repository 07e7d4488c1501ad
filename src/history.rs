//! The decision history: identifiers of decided candidates with a movable
//! cursor, undo/redo style.
use std::collections::VecDeque;
use vstd::prelude::*;

verus! {

/// What a history holds: the identifiers in order and the cursor's index.
pub struct HistoryModel {
    pub ids: Seq<Seq<char>>,
    pub cursor: nat,
}

impl HistoryModel {
    /// The cursor stays on an entry, and at zero while there is none.
    pub open spec fn wf(self) -> bool {
        if self.ids.len() == 0 {
            self.cursor == 0
        } else {
            self.cursor < self.ids.len()
        }
    }

    /// The identifier under the cursor.
    pub open spec fn current(self) -> Option<Seq<char>> {
        if self.cursor < self.ids.len() {
            Some(self.ids[self.cursor as int])
        } else {
            None
        }
    }

    /// One step back, stopping at the first entry.
    pub open spec fn back(self) -> HistoryModel {
        HistoryModel { ids: self.ids, cursor: if self.cursor == 0 { 0 } else { (self.cursor - 1) as nat } }
    }

    /// One step forward, stopping at the last entry.
    pub open spec fn forward(self) -> HistoryModel {
        HistoryModel {
            ids: self.ids,
            cursor: if self.cursor + 1 < self.ids.len() { self.cursor + 1 } else if self.ids.len() == 0 {
                0
            } else {
                (self.ids.len() - 1) as nat
            },
        }
    }

    /// Records `id`: nothing changes when it is already under the cursor; otherwise
    /// every entry after the cursor is dropped and `id` becomes the new last entry.
    pub open spec fn pushed(self, id: Seq<char>) -> HistoryModel {
        if self.current() == Some(id) {
            self
        } else if self.ids.len() == 0 {
            HistoryModel { ids: seq![id], cursor: 0 }
        } else {
            HistoryModel {
                ids: self.ids.subrange(0, self.cursor + 1 as int).push(id),
                cursor: self.cursor + 1,
            }
        }
    }
}

/// The view of an optional identifier.
pub open spec fn opt_chars(o: Option<String>) -> Option<Seq<char>> {
    match o {
        Some(s) => Some(s@),
        None => None,
    }
}

/// Identifiers of decided candidates with a cursor, navigable backwards and forwards.
#[derive(Debug, Clone)]
pub struct History {
    arr: VecDeque<String>,
    idx: usize,
}

impl View for History {
    type V = HistoryModel;

    closed spec fn view(&self) -> HistoryModel {
        HistoryModel { ids: self.arr@.map_values(|s: String| s@), cursor: self.idx as nat }
    }
}

impl History {
    proof fn lemma_view(&self)
        ensures
            self@.ids.len() == self.arr@.len(),
            self@.cursor == self.idx,
            forall|i: int| 0 <= i < self.arr@.len() ==> #[trigger] self@.ids[i] == self.arr@[i]@,
    {
    }

    /// An empty history.
    pub fn new() -> (r: History)
        ensures
            r@.ids.len() == 0,
            r@.cursor == 0,
            r@.wf(),
    {
        let r = History { arr: VecDeque::new(), idx: 0 };
        proof { r.lemma_view(); }
        r
    }

    /// A history with the given entries and cursor, when the cursor stands on an
    /// entry (or at zero with no entries).
    pub fn from_parts(ids: Vec<String>, idx: usize) -> (r: Option<History>)
        ensures
            match r {
                Some(h) => h@.wf() && h@.ids == ids@.map_values(|s: String| s@) && h@.cursor == idx,
                None => !(HistoryModel { ids: ids@.map_values(|s: String| s@), cursor: idx as nat }).wf(),
            },
    {
        let n = ids.len();
        if (n == 0 && idx != 0) || (n > 0 && idx >= n) {
            return None;
        }
        let mut arr: VecDeque<String> = VecDeque::new();
        let mut i: usize = 0;
        while i < n
            invariant
                n == ids@.len(),
                i <= n,
                arr@ == ids@.subrange(0, i as int),
            decreases n - i,
        {
            arr.push_back(ids[i].clone());
            assert(arr@ =~= ids@.subrange(0, i + 1));
            i = i + 1;
        }
        assert(arr@ =~= ids@);
        let h = History { arr, idx };
        proof {
            h.lemma_view();
            assert(h@.ids =~= ids@.map_values(|s: String| s@));
        }
        Some(h)
    }

    /// The entries, oldest first.
    pub fn ids(&self) -> (r: Vec<String>)
        ensures
            r@.map_values(|s: String| s@) == self@.ids,
    {
        let mut out: Vec<String> = Vec::new();
        let n = self.arr.len();
        let mut i: usize = 0;
        proof { self.lemma_view(); }
        while i < n
            invariant
                n == self.arr@.len(),
                i <= n,
                out@.len() == i,
                forall|j: int| 0 <= j < i ==> #[trigger] out@[j]@ == self.arr@[j]@,
            decreases n - i,
        {
            out.push(self.arr[i].clone());
            i = i + 1;
        }
        assert(out@.map_values(|s: String| s@) =~= self@.ids);
        out
    }

    /// The cursor's index.
    pub fn idx(&self) -> (r: usize)
        ensures
            r == self@.cursor,
    {
        proof { self.lemma_view(); }
        self.idx
    }

    /// The number of entries.
    pub fn len(&self) -> (r: usize)
        ensures
            r == self@.ids.len(),
    {
        proof { self.lemma_view(); }
        self.arr.len()
    }

    /// Moves the cursor one entry back (not below the first) and returns the
    /// identifier there; nothing when the history is empty.
    pub fn prev(&mut self) -> (r: Option<String>)
        requires
            old(self)@.wf(),
        ensures
            final(self)@ == old(self)@.back(),
            final(self)@.wf(),
            opt_chars(r) == final(self)@.current(),
    {
        proof { self.lemma_view(); }
        self.idx = if self.idx == 0 { 0 } else { self.idx - 1 };
        proof { self.lemma_view(); }
        self.current()
    }

    /// Moves the cursor one entry forward (not past the last) and returns the
    /// identifier there; nothing when the history is empty.
    pub fn next(&mut self) -> (r: Option<String>)
        requires
            old(self)@.wf(),
        ensures
            final(self)@ == old(self)@.forward(),
            final(self)@.wf(),
            opt_chars(r) == final(self)@.current(),
    {
        proof { self.lemma_view(); }
        let last = if self.arr.len() == 0 { 0 } else { self.arr.len() - 1 };
        self.idx = if self.idx < last { self.idx + 1 } else { last };
        proof { self.lemma_view(); }
        self.current()
    }

    /// The identifier under the cursor.
    pub fn current(&self) -> (r: Option<String>)
        ensures
            opt_chars(r) == self@.current(),
    {
        proof { self.lemma_view(); }
        if self.idx < self.arr.len() {
            Some(self.arr[self.idx].clone())
        } else {
            None
        }
    }

    /// Records a decided candidate: a repeat of the identifier under the cursor
    /// changes nothing; otherwise the entries after the cursor are dropped and
    /// `value` is appended under the cursor.
    pub fn push(&mut self, value: String)
        requires
            old(self)@.wf(),
        ensures
            final(self)@ == old(self)@.pushed(value@),
            final(self)@.wf(),
    {
        proof { self.lemma_view(); }
        let ghost before = self@;
        if self.idx < self.arr.len() && self.arr[self.idx] == value {
            return;
        }
        let n = self.arr.len();
        if n > 0 && self.idx != n - 1 {
            self.arr.truncate(self.idx + 1);
        }
        if n > 0 {
            self.idx = self.idx + 1;
        }
        self.arr.push_back(value);
        proof {
            self.lemma_view();
            assert(self@.ids =~= before.pushed(value@).ids);
        }
    }
}

/// Pushing the identifier that is already under the cursor leaves the history as it was.
pub proof fn lemma_push_current_is_noop(h: HistoryModel, id: Seq<char>)
    requires
        h.wf(),
        h.current() == Some(id),
    ensures
        h.pushed(id) == h,
{
}

/// Pushing a new identifier from any cursor keeps the entries up to the cursor,
/// drops the rest, and leaves the cursor on the new last entry.
pub proof fn lemma_push_truncates_after_cursor(h: HistoryModel, id: Seq<char>)
    requires
        h.wf(),
        h.ids.len() > 0,
        h.current() != Some(id),
    ensures
        h.pushed(id).ids == h.ids.subrange(0, h.cursor + 1 as int).push(id),
        h.pushed(id).cursor == h.cursor + 1,
        h.pushed(id).cursor == h.pushed(id).ids.len() - 1,
        h.pushed(id).current() == Some(id),
        h.pushed(id).wf(),
{
}

/// On an empty history both directions find nothing, and stepping back from the
/// first entry stays on it.
pub proof fn lemma_navigation_bounds(h: HistoryModel)
    requires
        h.wf(),
    ensures
        h.ids.len() == 0 ==> h.back().current() is None && h.forward().current() is None,
        h.cursor == 0 ==> h.back() == h,
        h.back().wf(),
        h.forward().wf(),
{
}

} // verus!
