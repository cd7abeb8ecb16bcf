//! The entry store: the fixed corpus of entries, built once at session
//! start, that every re-filter step draws its candidates from.
//!
//! An entry is a sequence of characters. The store keeps each distinct
//! entry once, in order of first insertion, and answers prefix lookups:
//! all stored entries that start with a given query, in store order.

use vstd::prelude::*;

verus! {

/// The candidates for query `q` among the stored entries `stored`:
/// exactly the entries that start with `q`, in store order.
pub open spec fn matching(stored: Seq<Seq<char>>, q: Seq<char>) -> Seq<Seq<char>> {
    stored.filter(|e: Seq<char>| q.is_prefix_of(e))
}

/// No two positions of `s` hold the same character sequence.
pub open spec fn distinct(s: Seq<Seq<char>>) -> bool {
    forall|i: int, j: int| 0 <= i < j < s.len() ==> s[i] != s[j]
}

/// The distinct entries of `s`, each at the position of its first
/// occurrence: what building a store from `s` yields.
pub open spec fn first_occurrences(s: Seq<Seq<char>>) -> Seq<Seq<char>>
    decreases s.len(),
{
    if s.len() == 0 {
        Seq::empty()
    } else {
        let rest = first_occurrences(s.drop_last());
        if rest.contains(s.last()) {
            rest
        } else {
            rest.push(s.last())
        }
    }
}

/// The character sequences of a sequence of character vectors.
pub open spec fn views_of(s: Seq<Vec<char>>) -> Seq<Seq<char>> {
    s.map_values(|v: Vec<char>| v@)
}

/// The prefix-indexed store of entries. Built once at session start;
/// read-only for the rest of the session. Each distinct entry is kept
/// once, at the position of its first insertion, and `prefix_lookup`
/// enumerates candidates in that store order.
pub struct EntryStore {
    pub entries: Vec<Vec<char>>,
}

impl View for EntryStore {
    type V = Seq<Seq<char>>;

    open spec fn view(&self) -> Seq<Seq<char>> {
        views_of(self.entries@)
    }
}

impl EntryStore {
    /// No two stored entries are equal.
    pub open spec fn wf(&self) -> bool {
        distinct(self@)
    }

    /// An empty store.
    pub fn new() -> (r: EntryStore)
        ensures
            r@ == Seq::<Seq<char>>::empty(),
            r.wf(),
    {
        let r = EntryStore { entries: Vec::new() };
        proof {
            assert(r@ =~= Seq::<Seq<char>>::empty());
        }
        r
    }

    /// True when `e@` is one of the stored entries.
    pub fn contains_entry(&self, e: &Vec<char>) -> (r: bool)
        ensures
            r == self@.contains(e@),
    {
        let mut i: usize = 0;
        while i < self.entries.len()
            invariant
                0 <= i <= self.entries.len(),
                forall|j: int| 0 <= j < i ==> self@[j] != e@,
            decreases self.entries.len() - i,
        {
            if chars_eq(&self.entries[i], e) {
                assert(self@[i as int] == e@);
                return true;
            }
            i = i + 1;
        }
        false
    }

    /// Inserts `e`: a new entry goes to the end of the store order, an
    /// entry already present leaves the store unchanged (the first
    /// insertion keeps its position).
    pub fn insert(&mut self, e: Vec<char>)
        ensures
            final(self)@ == if old(self)@.contains(e@) {
                old(self)@
            } else {
                old(self)@.push(e@)
            },
            old(self).wf() ==> final(self).wf(),
    {
        let present = self.contains_entry(&e);
        if !present {
            proof {
                let ghost olds = self@;
                assert(views_of(self.entries@.push(e)) =~= olds.push(e@));
            }
            self.entries.push(e);
        }
    }

    /// Builds a store from the given entries, inserting each in turn:
    /// the store holds each distinct entry once, in order of first
    /// occurrence.
    pub fn build(entries: &Vec<Vec<char>>) -> (r: EntryStore)
        ensures
            r@ == first_occurrences(views_of(entries@)),
            r.wf(),
    {
        let ghost s = views_of(entries@);
        let mut store = EntryStore::new();
        let mut i: usize = 0;
        while i < entries.len()
            invariant
                0 <= i <= entries.len(),
                s == views_of(entries@),
                store@ == first_occurrences(s.take(i as int)),
                store.wf(),
            decreases entries.len() - i,
        {
            let e = copy_chars(&entries[i]);
            assert(e@ == s[i as int]);
            store.insert(e);
            proof {
                lemma_take_step(s, i as int);
            }
            i = i + 1;
        }
        proof {
            assert(s.take(s.len() as int) =~= s);
        }
        store
    }

    /// Returns every stored entry that has `q` as a literal prefix, in
    /// store order. An empty `q` returns all stored entries; a `q` no
    /// stored entry starts with returns an empty sequence.
    pub fn prefix_lookup(&self, q: &Vec<char>) -> (r: Vec<Vec<char>>)
        ensures
            views_of(r@) == matching(self@, q@),
    {
        let ghost s = self@;
        let mut out: Vec<Vec<char>> = Vec::new();
        proof {
            reveal(Seq::filter);
            assert(views_of(out@) =~= Seq::<Seq<char>>::empty());
            assert(s.take(0) =~= Seq::<Seq<char>>::empty());
        }
        let mut i: usize = 0;
        while i < self.entries.len()
            invariant
                0 <= i <= self.entries.len(),
                s == self@,
                views_of(out@) == matching(s.take(i as int), q@),
            decreases self.entries.len() - i,
        {
            let ghost oldout = views_of(out@);
            if starts_with(&self.entries[i], q) {
                let e = copy_chars(&self.entries[i]);
                assert(e@ == s[i as int]);
                proof {
                    assert(views_of(out@.push(e)) =~= oldout.push(e@));
                }
                out.push(e);
            }
            proof {
                reveal(Seq::filter);
                lemma_take_step(s, i as int);
                assert(matching(s.take(i + 1), q@) == if q@.is_prefix_of(s[i as int]) {
                    matching(s.take(i as int), q@).push(s[i as int])
                } else {
                    matching(s.take(i as int), q@)
                });
            }
            i = i + 1;
        }
        proof {
            assert(s.take(s.len() as int) =~= s);
        }
        out
    }
}

/// Taking one more element appends that element.
proof fn lemma_take_step(s: Seq<Seq<char>>, i: int)
    requires
        0 <= i < s.len(),
    ensures
        s.take(i + 1).drop_last() == s.take(i),
        s.take(i + 1).last() == s[i],
        s.take(i + 1).len() == i + 1,
{
    assert(s.take(i + 1).drop_last() =~= s.take(i));
}

/// The candidates for `q` are exactly the stored entries that start
/// with `q`: no entry is missing, and nothing else appears.
pub proof fn lemma_matching_exact(stored: Seq<Seq<char>>, q: Seq<char>, e: Seq<char>)
    ensures
        matching(stored, q).contains(e) <==> stored.contains(e) && q.is_prefix_of(e),
    decreases stored.len(),
{
    reveal(Seq::filter);
    if stored.len() == 0 {
    } else {
        let rest = stored.drop_last();
        let x = stored.last();
        lemma_matching_exact(rest, q, e);
        assert(stored.contains(e) <==> rest.contains(e) || e == x) by {
            if rest.contains(e) {
                let j = choose|j: int| 0 <= j < rest.len() && rest[j] == e;
                assert(stored[j] == e);
            }
            if e == x {
                assert(stored[stored.len() - 1] == e);
            }
            if stored.contains(e) {
                let j = choose|j: int| 0 <= j < stored.len() && stored[j] == e;
                if j < stored.len() - 1 {
                    assert(rest[j] == e);
                }
            }
        }
        let m = matching(rest, q);
        if q.is_prefix_of(x) {
            assert(matching(stored, q) == m.push(x));
            assert(matching(stored, q).contains(e) <==> m.contains(e) || e == x) by {
                if m.contains(e) {
                    let j = choose|j: int| 0 <= j < m.len() && m[j] == e;
                    assert(m.push(x)[j] == e);
                }
                if e == x {
                    assert(m.push(x)[m.len() as int] == e);
                }
                if m.push(x).contains(e) {
                    let j = choose|j: int| 0 <= j < m.push(x).len() && m.push(x)[j] == e;
                    if j < m.len() {
                        assert(m[j] == e);
                    }
                }
            }
        } else {
            assert(matching(stored, q) == m);
        }
    }
}

/// A store without duplicate entries yields candidates without
/// duplicates: no entry is listed more than once ("no more").
pub proof fn lemma_matching_distinct(stored: Seq<Seq<char>>, q: Seq<char>)
    requires
        distinct(stored),
    ensures
        distinct(matching(stored, q)),
    decreases stored.len(),
{
    reveal(Seq::filter);
    if stored.len() == 0 {
    } else {
        let rest = stored.drop_last();
        let x = stored.last();
        assert(distinct(rest)) by {
            assert(forall|i: int| 0 <= i < rest.len() ==> rest[i] == stored[i]);
        }
        lemma_matching_distinct(rest, q);
        let m = matching(rest, q);
        if q.is_prefix_of(x) {
            assert(!m.contains(x)) by {
                lemma_matching_exact(rest, q, x);
                if rest.contains(x) {
                    let j = choose|j: int| 0 <= j < rest.len() && rest[j] == x;
                    assert(stored[j] == stored[stored.len() - 1]);
                }
            }
            assert(matching(stored, q) == m.push(x));
            assert forall|i: int, j: int|
                0 <= i < j < m.push(x).len() implies m.push(x)[i] != m.push(x)[j] by {
                if j < m.len() {
                    assert(m[i] != m[j]);
                } else {
                    assert(m.push(x)[j] == x);
                    assert(m.contains(m[i]));
                }
            }
        } else {
            assert(matching(stored, q) == m);
        }
    }
}

/// An empty query matches every stored entry: the candidates are the
/// whole store, in store order.
pub proof fn lemma_matching_empty(stored: Seq<Seq<char>>)
    ensures
        matching(stored, Seq::<char>::empty()) == stored,
    decreases stored.len(),
{
    reveal(Seq::filter);
    if stored.len() == 0 {
        assert(matching(stored, Seq::<char>::empty()) =~= stored);
    } else {
        lemma_matching_empty(stored.drop_last());
        assert(Seq::<char>::empty().is_prefix_of(stored.last())) by {
            assert(Seq::<char>::empty() =~= stored.last().subrange(0, 0));
        }
        assert(matching(stored, Seq::<char>::empty()) == stored.drop_last().push(stored.last()));
        assert(stored.drop_last().push(stored.last()) =~= stored);
    }
}

/// Building keeps exactly the inserted entries: an entry is in the
/// built store if and only if it was among the inserted ones.
pub proof fn lemma_first_occurrences_membership(s: Seq<Seq<char>>, e: Seq<char>)
    ensures
        first_occurrences(s).contains(e) <==> s.contains(e),
    decreases s.len(),
{
    if s.len() == 0 {
    } else {
        let rest = s.drop_last();
        let x = s.last();
        lemma_first_occurrences_membership(rest, e);
        assert(s.contains(e) <==> rest.contains(e) || e == x) by {
            if rest.contains(e) {
                let j = choose|j: int| 0 <= j < rest.len() && rest[j] == e;
                assert(s[j] == e);
            }
            if e == x {
                assert(s[s.len() - 1] == e);
            }
            if s.contains(e) {
                let j = choose|j: int| 0 <= j < s.len() && s[j] == e;
                if j < s.len() - 1 {
                    assert(rest[j] == e);
                }
            }
        }
        let m = first_occurrences(rest);
        if !m.contains(x) {
            assert(first_occurrences(s) == m.push(x));
            assert(m.push(x).contains(e) <==> m.contains(e) || e == x) by {
                if m.contains(e) {
                    let j = choose|j: int| 0 <= j < m.len() && m[j] == e;
                    assert(m.push(x)[j] == e);
                }
                if e == x {
                    assert(m.push(x)[m.len() as int] == e);
                }
                if m.push(x).contains(e) {
                    let j = choose|j: int| 0 <= j < m.push(x).len() && m.push(x)[j] == e;
                    if j < m.len() {
                        assert(m[j] == e);
                    }
                }
            }
        }
    }
}

/// For every built store and every query, `prefix_lookup` returns
/// exactly the inserted entries whose text starts with the query: an
/// empty query returns everything, and a query no inserted entry
/// starts with returns nothing.
pub proof fn lemma_prefix_lookup_exact(inserted: Seq<Seq<char>>, q: Seq<char>, e: Seq<char>)
    ensures
        matching(first_occurrences(inserted), q).contains(e) <==> inserted.contains(e)
            && q.is_prefix_of(e),
{
    lemma_matching_exact(first_occurrences(inserted), q, e);
    lemma_first_occurrences_membership(inserted, e);
}

/// True when `q@` is a literal prefix of `e@` (character-wise,
/// case-sensitive, no normalization).
pub fn starts_with(e: &Vec<char>, q: &Vec<char>) -> (r: bool)
    ensures
        r == q@.is_prefix_of(e@),
{
    if q.len() > e.len() {
        return false;
    }
    let mut i: usize = 0;
    while i < q.len()
        invariant
            0 <= i <= q.len() <= e.len(),
            forall|j: int| 0 <= j < i ==> e@[j] == q@[j],
        decreases q.len() - i,
    {
        if e[i] != q[i] {
            assert(!q@.is_prefix_of(e@)) by {
                assert(e@.subrange(0, q@.len() as int)[i as int] == e@[i as int]);
            }
            return false;
        }
        i = i + 1;
    }
    assert(q@ =~= e@.subrange(0, q@.len() as int));
    true
}

/// True when the two character sequences are equal.
pub fn chars_eq(a: &Vec<char>, b: &Vec<char>) -> (r: bool)
    ensures
        r == (a@ == b@),
{
    if a.len() != b.len() {
        return false;
    }
    let mut i: usize = 0;
    while i < a.len()
        invariant
            0 <= i <= a.len(),
            a.len() == b.len(),
            forall|j: int| 0 <= j < i ==> a@[j] == b@[j],
        decreases a.len() - i,
    {
        if a[i] != b[i] {
            return false;
        }
        i = i + 1;
    }
    assert(a@ =~= b@);
    true
}

/// A copy of the character sequence.
pub fn copy_chars(v: &Vec<char>) -> (r: Vec<char>)
    ensures
        r@ == v@,
{
    let mut out: Vec<char> = Vec::new();
    let mut i: usize = 0;
    while i < v.len()
        invariant
            0 <= i <= v.len(),
            out@ == v@.take(i as int),
        decreases v.len() - i,
    {
        out.push(v[i]);
        assert(out@ =~= v@.take(i + 1 as int));
        i = i + 1;
    }
    assert(v@.take(v@.len() as int) =~= v@);
    out
}

} // verus!
