//! The selection state: the ordered candidate list the last re-filter
//! step produced, and the index of the highlighted candidate. The
//! navigation operations move the index and never touch the list.

use vstd::prelude::*;

use crate::store::copy_chars;
use crate::store::views_of;

verus! {

/// An ordered candidate list plus the index of the highlighted one.
pub struct Selection {
    pub candidates: Vec<Vec<char>>,
    pub cursor: usize,
}

impl Selection {
    /// The character sequences of the candidates, in list order.
    pub open spec fn cands(&self) -> Seq<Seq<char>> {
        views_of(self.candidates@)
    }

    /// The cursor stays on a candidate: `cursor < len` whenever the
    /// list is non-empty, and `cursor == 0` when it is empty.
    pub open spec fn wf(&self) -> bool {
        if self.candidates@.len() == 0 {
            self.cursor == 0
        } else {
            self.cursor < self.candidates@.len()
        }
    }

    /// An empty selection.
    pub fn new() -> (r: Selection)
        ensures
            r.cands() == Seq::<Seq<char>>::empty(),
            r.cursor == 0,
            r.wf(),
    {
        let r = Selection { candidates: Vec::new(), cursor: 0 };
        proof {
            assert(r.cands() =~= Seq::<Seq<char>>::empty());
        }
        r
    }

    /// Moves the highlight one candidate up, clamped at the first; the
    /// candidate list itself never changes.
    pub fn move_up(&mut self)
        requires
            old(self).wf(),
        ensures
            final(self).candidates == old(self).candidates,
            final(self).cursor == if old(self).cursor > 0 {
                (old(self).cursor - 1) as usize
            } else {
                0usize
            },
            final(self).wf(),
    {
        if self.cursor > 0 {
            self.cursor = self.cursor - 1;
        }
    }

    /// Moves the highlight one candidate down, clamped at the last; the
    /// candidate list itself never changes.
    pub fn move_down(&mut self)
        requires
            old(self).wf(),
        ensures
            final(self).candidates == old(self).candidates,
            final(self).cursor == if old(self).cursor + 1 < old(self).candidates@.len() {
                (old(self).cursor + 1) as usize
            } else {
                old(self).cursor
            },
            final(self).wf(),
    {
        if self.candidates.len() > 0 && self.cursor + 1 < self.candidates.len() {
            self.cursor = self.cursor + 1;
        }
    }

    /// The highlighted candidate, or nothing when the list is empty.
    pub fn current(&self) -> (r: Option<Vec<char>>)
        requires
            self.wf(),
        ensures
            self.candidates@.len() == 0 ==> r is None,
            self.candidates@.len() > 0 ==> (r matches Some(v) && v@ == self.cands()[
                self.cursor as int]),
    {
        if self.candidates.len() == 0 {
            None
        } else {
            Some(copy_chars(&self.candidates[self.cursor]))
        }
    }
}

} // verus!
