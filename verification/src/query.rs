//! The query state: the text the user has typed so far and a cursor
//! into it. Every operation is total and keeps the cursor within
//! `0 ..= text.len()`.

use vstd::prelude::*;

verus! {

/// An editable text buffer plus a cursor position.
pub struct Query {
    pub text: Vec<char>,
    pub cursor: usize,
}

impl Query {
    /// The cursor is an offset into the text: `0 <= cursor <= len`.
    pub open spec fn wf(&self) -> bool {
        self.cursor <= self.text@.len()
    }

    /// An empty query with the cursor at the start.
    pub fn new() -> (r: Query)
        ensures
            r.text@ == Seq::<char>::empty(),
            r.cursor == 0,
            r.wf(),
    {
        let r = Query { text: Vec::new(), cursor: 0 };
        proof {
            assert(r.text@ =~= Seq::<char>::empty());
        }
        r
    }

    /// Inserts `c` at the cursor and advances the cursor by one.
    pub fn insert_char(&mut self, c: char)
        requires
            old(self).wf(),
            old(self).text@.len() < usize::MAX,
        ensures
            final(self).text@ == old(self).text@.insert(old(self).cursor as int, c),
            final(self).cursor == old(self).cursor + 1,
            final(self).wf(),
    {
        self.text.insert(self.cursor, c);
        self.cursor = self.cursor + 1;
    }

    /// Removes the character immediately before the cursor and moves
    /// the cursor back by one; a no-op with the cursor at the start.
    pub fn erase_char(&mut self)
        requires
            old(self).wf(),
        ensures
            final(self).text@ == if old(self).cursor > 0 {
                old(self).text@.remove(old(self).cursor - 1)
            } else {
                old(self).text@
            },
            final(self).cursor == if old(self).cursor > 0 {
                (old(self).cursor - 1) as usize
            } else {
                0usize
            },
            final(self).wf(),
    {
        if self.cursor > 0 {
            self.text.remove(self.cursor - 1);
            self.cursor = self.cursor - 1;
        }
    }

    /// Clears the text and puts the cursor at the start.
    pub fn erase_all(&mut self)
        ensures
            final(self).text@ == Seq::<char>::empty(),
            final(self).cursor == 0,
            final(self).wf(),
    {
        self.text.clear();
        self.cursor = 0;
        proof {
            assert(self.text@ =~= Seq::<char>::empty());
        }
    }

    /// Moves the cursor one position left, clamped at the start.
    pub fn move_left(&mut self)
        requires
            old(self).wf(),
        ensures
            final(self).text@ == old(self).text@,
            final(self).cursor == if old(self).cursor > 0 {
                (old(self).cursor - 1) as usize
            } else {
                0usize
            },
            final(self).wf(),
    {
        if self.cursor > 0 {
            self.cursor = self.cursor - 1;
        }
    }

    /// Moves the cursor one position right, clamped at the end.
    pub fn move_right(&mut self)
        requires
            old(self).wf(),
        ensures
            final(self).text@ == old(self).text@,
            final(self).cursor == if old(self).cursor < old(self).text@.len() {
                (old(self).cursor + 1) as usize
            } else {
                old(self).cursor
            },
            final(self).wf(),
    {
        if self.cursor < self.text.len() {
            self.cursor = self.cursor + 1;
        }
    }

    /// Moves the cursor to the start of the text.
    pub fn move_head(&mut self)
        ensures
            final(self).text@ == old(self).text@,
            final(self).cursor == 0,
            final(self).wf(),
    {
        self.cursor = 0;
    }

    /// Moves the cursor to the end of the text.
    pub fn move_tail(&mut self)
        ensures
            final(self).text@ == old(self).text@,
            final(self).cursor == old(self).text@.len(),
            final(self).wf(),
    {
        self.cursor = self.text.len();
    }
}

} // verus!
