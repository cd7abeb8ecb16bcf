//! The session: the store, the query state and the selection state,
//! together with the event dispatch step. One logical key event at a
//! time mutates the query or the selection; every change of the query
//! text re-filters the candidates before the step returns, so the
//! state a renderer reads between events is always consistent.

use vstd::prelude::*;

use crate::query::Query;
use crate::selection::Selection;
use crate::store::EntryStore;
use crate::store::matching;

verus! {

/// A logical input event, decoded from a raw key press by the
/// surrounding event source.
#[derive(Clone, Copy, PartialEq, Eq, Debug)]
pub enum KeyEvent {
    /// A printable character.
    Char(char),
    /// Erase the character before the query cursor.
    Backspace,
    /// Erase the whole query line.
    ClearLine,
    /// Move the query cursor one position left.
    Left,
    /// Move the query cursor one position right.
    Right,
    /// Move the query cursor to the start of the line.
    Head,
    /// Move the query cursor to the end of the line.
    Tail,
    /// Move the selection highlight up.
    Up,
    /// Move the selection highlight down.
    Down,
    /// Accept the highlighted candidate.
    Confirm,
    /// Abandon the session.
    Interrupt,
    /// The terminal was resized: re-render only, no state change.
    Resize,
}

/// What a dispatch step yields: the session goes on, or it ends with
/// the highlighted entry (none when the candidate list is empty), or
/// it ends cancelled with no value.
#[derive(PartialEq, Eq, Debug)]
pub enum Outcome {
    Continue,
    Confirmed(Option<Vec<char>>),
    Cancelled,
}

/// One interactive session: the store built at start, the query the
/// user edits, and the selection the re-filter step maintains.
pub struct State {
    pub store: EntryStore,
    pub query: Query,
    pub selection: Selection,
}

/// `t` is `s` after one re-filter step: the store and the query are
/// untouched, the candidates are exactly the stored entries that start
/// with the query text, and the highlight is back on the first one.
pub open spec fn finalized_of(s: State, t: State) -> bool {
    &&& t.store == s.store
    &&& t.query == s.query
    &&& t.selection.cands() == matching(s.store@, s.query.text@)
    &&& t.selection.cursor == 0
}

impl State {
    /// The session invariant: each part is well formed, and the
    /// candidate list is exactly what the most recent re-filter step
    /// produced from the current query text.
    pub open spec fn wf(&self) -> bool {
        &&& self.store.wf()
        &&& self.query.wf()
        &&& self.selection.wf()
        &&& self.selection.cands() == matching(self.store@, self.query.text@)
    }

    /// Starts a session over `store` with an empty query: the
    /// candidates are all stored entries that start with the empty
    /// text, highlight on the first.
    pub fn new(store: EntryStore) -> (r: State)
        requires
            store.wf(),
        ensures
            r.store == store,
            r.query.text@ == Seq::<char>::empty(),
            r.query.cursor == 0,
            r.selection.cands() == matching(store@, Seq::<char>::empty()),
            r.selection.cursor == 0,
            r.wf(),
    {
        let query = Query::new();
        let candidates = store.prefix_lookup(&query.text);
        let selection = Selection { candidates, cursor: 0 };
        State { store, query, selection }
    }

    /// The re-filter step: recomputes the candidates from the store
    /// and the current query text and puts the highlight back on the
    /// first one. The store and the query are left untouched.
    pub fn finalize(&mut self)
        requires
            old(self).store.wf(),
            old(self).query.wf(),
        ensures
            finalized_of(*old(self), *final(self)),
            final(self).wf(),
    {
        let candidates = self.store.prefix_lookup(&self.query.text);
        self.selection = Selection { candidates, cursor: 0 };
    }

    /// The highlighted entry, or nothing when the candidate list is
    /// empty: what confirming at this point would carry.
    pub fn output(&self) -> (r: Option<Vec<char>>)
        requires
            self.selection.wf(),
        ensures
            self.selection.candidates@.len() == 0 ==> r is None,
            self.selection.candidates@.len() > 0 ==> (r matches Some(v) && v@
                == self.selection.cands()[self.selection.cursor as int]),
    {
        self.selection.current()
    }

    /// Dispatches one logical event: exactly one transition of the
    /// table runs to completion, any event that changes the query text
    /// re-filters before returning, and only Confirm and Interrupt end
    /// the session.
    pub fn step(&mut self, ev: KeyEvent) -> (r: Outcome)
        requires
            old(self).wf(),
            ev matches KeyEvent::Char(_) ==> old(self).query.text@.len() < usize::MAX,
        ensures
            final(self).store == old(self).store,
            final(self).wf(),
            match ev {
                KeyEvent::Char(c) => {
                    &&& final(self).query.text@ == old(self).query.text@.insert(
                        old(self).query.cursor as int,
                        c,
                    )
                    &&& final(self).query.cursor == old(self).query.cursor + 1
                    &&& final(self).selection.cursor == 0
                    &&& r == Outcome::Continue
                },
                KeyEvent::Backspace => {
                    &&& final(self).query.text@ == if old(self).query.cursor > 0 {
                        old(self).query.text@.remove(old(self).query.cursor - 1)
                    } else {
                        old(self).query.text@
                    }
                    &&& final(self).query.cursor == if old(self).query.cursor > 0 {
                        (old(self).query.cursor - 1) as usize
                    } else {
                        0usize
                    }
                    &&& final(self).selection.cursor == 0
                    &&& r == Outcome::Continue
                },
                KeyEvent::ClearLine => {
                    &&& final(self).query.text@ == Seq::<char>::empty()
                    &&& final(self).query.cursor == 0
                    &&& final(self).selection.cursor == 0
                    &&& r == Outcome::Continue
                },
                KeyEvent::Left => {
                    &&& final(self).query.text@ == old(self).query.text@
                    &&& final(self).query.cursor == if old(self).query.cursor > 0 {
                        (old(self).query.cursor - 1) as usize
                    } else {
                        0usize
                    }
                    &&& final(self).selection == old(self).selection
                    &&& r == Outcome::Continue
                },
                KeyEvent::Right => {
                    &&& final(self).query.text@ == old(self).query.text@
                    &&& final(self).query.cursor == if old(self).query.cursor
                        < old(self).query.text@.len() {
                        (old(self).query.cursor + 1) as usize
                    } else {
                        old(self).query.cursor
                    }
                    &&& final(self).selection == old(self).selection
                    &&& r == Outcome::Continue
                },
                KeyEvent::Head => {
                    &&& final(self).query.text@ == old(self).query.text@
                    &&& final(self).query.cursor == 0
                    &&& final(self).selection == old(self).selection
                    &&& r == Outcome::Continue
                },
                KeyEvent::Tail => {
                    &&& final(self).query.text@ == old(self).query.text@
                    &&& final(self).query.cursor == old(self).query.text@.len()
                    &&& final(self).selection == old(self).selection
                    &&& r == Outcome::Continue
                },
                KeyEvent::Up => {
                    &&& final(self).query == old(self).query
                    &&& final(self).selection.candidates == old(self).selection.candidates
                    &&& final(self).selection.cursor == if old(self).selection.cursor > 0 {
                        (old(self).selection.cursor - 1) as usize
                    } else {
                        0usize
                    }
                    &&& r == Outcome::Continue
                },
                KeyEvent::Down => {
                    &&& final(self).query == old(self).query
                    &&& final(self).selection.candidates == old(self).selection.candidates
                    &&& final(self).selection.cursor == if old(self).selection.cursor + 1
                        < old(self).selection.candidates@.len() {
                        (old(self).selection.cursor + 1) as usize
                    } else {
                        old(self).selection.cursor
                    }
                    &&& r == Outcome::Continue
                },
                KeyEvent::Confirm => {
                    &&& *final(self) == *old(self)
                    &&& (r matches Outcome::Confirmed(t) && if old(
                        self,
                    ).selection.candidates@.len() == 0 {
                        t is None
                    } else {
                        t matches Some(v) && v@ == old(self).selection.cands()[old(
                            self,
                        ).selection.cursor as int]
                    })
                },
                KeyEvent::Interrupt => {
                    &&& *final(self) == *old(self)
                    &&& r == Outcome::Cancelled
                },
                KeyEvent::Resize => {
                    &&& *final(self) == *old(self)
                    &&& r == Outcome::Continue
                },
            },
    {
        match ev {
            KeyEvent::Char(c) => {
                self.query.insert_char(c);
                self.finalize();
                Outcome::Continue
            },
            KeyEvent::Backspace => {
                self.query.erase_char();
                self.finalize();
                Outcome::Continue
            },
            KeyEvent::ClearLine => {
                self.query.erase_all();
                self.finalize();
                Outcome::Continue
            },
            KeyEvent::Left => {
                self.query.move_left();
                Outcome::Continue
            },
            KeyEvent::Right => {
                self.query.move_right();
                Outcome::Continue
            },
            KeyEvent::Head => {
                self.query.move_head();
                Outcome::Continue
            },
            KeyEvent::Tail => {
                self.query.move_tail();
                Outcome::Continue
            },
            KeyEvent::Up => {
                self.selection.move_up();
                Outcome::Continue
            },
            KeyEvent::Down => {
                self.selection.move_down();
                Outcome::Continue
            },
            KeyEvent::Confirm => Outcome::Confirmed(self.output()),
            KeyEvent::Interrupt => Outcome::Cancelled,
            KeyEvent::Resize => Outcome::Continue,
        }
    }
}

/// The re-filter step is idempotent: the selection it produces depends
/// only on the store and the query text, both of which it leaves
/// untouched, so two consecutive steps with no intervening query
/// change yield identical selection state.
pub proof fn lemma_finalize_idempotent(s0: State, s1: State, s2: State)
    requires
        finalized_of(s0, s1),
        finalized_of(s1, s2),
    ensures
        s2.store == s1.store,
        s2.query == s1.query,
        s2.selection.cands() == s1.selection.cands(),
        s2.selection.cursor == s1.selection.cursor,
{
}

} // verus!
