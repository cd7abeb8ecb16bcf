//! Entry ingestion: joining physical lines into logical entries.
//!
//! A backing history file splits one logical entry over several
//! physical lines by ending each line but the last with a
//! continuation marker (`\`). Joining strips the marker and
//! concatenates the lines until a line without the marker terminates
//! the entry; a run of marker lines that no plain line terminates
//! yields no entry.

use vstd::prelude::*;
use vstd::string::StringExecFns;

use crate::store::views_of;

verus! {

/// True when the line ends with the continuation marker.
pub open spec fn ends_with_marker(l: Seq<char>) -> bool {
    l.len() > 0 && l.last() == '\\'
}

/// The logical entries of `lines`, with `acc` the partial entry the
/// preceding lines left open: a marker line adds its text (marker
/// stripped) to the open entry, a plain line closes it.
pub open spec fn joined(lines: Seq<Seq<char>>, acc: Seq<char>) -> Seq<Seq<char>>
    decreases lines.len(),
{
    if lines.len() == 0 {
        Seq::empty()
    } else if ends_with_marker(lines.first()) {
        joined(lines.drop_first(), acc + lines.first().drop_last())
    } else {
        seq![acc + lines.first()] + joined(lines.drop_first(), Seq::<char>::empty())
    }
}

/// Joins physical lines into logical entries: each line ending in the
/// continuation marker is stripped of it and concatenated with the
/// following lines until a line without the marker closes the entry.
pub fn join_lines(lines: &Vec<Vec<char>>) -> (r: Vec<Vec<char>>)
    ensures
        views_of(r@) == joined(views_of(lines@), Seq::<char>::empty()),
{
    let ghost s = views_of(lines@);
    let mut out: Vec<Vec<char>> = Vec::new();
    let mut acc: Vec<char> = Vec::new();
    proof {
        assert(s.skip(0) =~= s);
        assert(views_of(out@) =~= Seq::<Seq<char>>::empty());
        assert(acc@ =~= Seq::<char>::empty());
        assert(Seq::<Seq<char>>::empty() + joined(s, acc@) =~= joined(s, acc@));
    }
    let mut i: usize = 0;
    while i < lines.len()
        invariant
            0 <= i <= lines.len(),
            s == views_of(lines@),
            joined(s, Seq::<char>::empty()) == views_of(out@) + joined(
                s.skip(i as int),
                acc@,
            ),
        decreases lines.len() - i,
    {
        let ghost rest = s.skip(i as int);
        let ghost acc0 = acc@;
        proof {
            assert(rest.len() == s.len() - i);
            assert(rest.first() == s[i as int]);
            assert(rest.drop_first() =~= s.skip(i + 1));
        }
        let line = &lines[i];
        assert(line@ == s[i as int]);
        if line.len() > 0 && line[line.len() - 1] == '\\' {
            let mut j: usize = 0;
            while j < line.len() - 1
                invariant
                    0 <= j <= line@.len() - 1,
                    acc@ == acc0 + line@.take(j as int),
                decreases line@.len() - 1 - j,
            {
                acc.push(line[j]);
                proof {
                    assert(acc0 + line@.take(j + 1) =~= (acc0 + line@.take(j as int)).push(
                        line@[j as int],
                    ));
                }
                j = j + 1;
            }
            proof {
                assert(line@.take(line@.len() - 1) =~= line@.drop_last());
                assert(joined(rest, acc0) == joined(s.skip(i + 1), acc0 + line@.drop_last()));
            }
        } else {
            let mut entry: Vec<char> = Vec::new();
            let mut j: usize = 0;
            while j < acc.len()
                invariant
                    0 <= j <= acc@.len(),
                    acc@ == acc0,
                    entry@ == acc0.take(j as int),
                decreases acc@.len() - j,
            {
                entry.push(acc[j]);
                proof {
                    assert(acc0.take(j + 1) =~= acc0.take(j as int).push(acc0[j as int]));
                }
                j = j + 1;
            }
            proof {
                assert(acc0.take(acc0.len() as int) =~= acc0);
            }
            let mut k: usize = 0;
            while k < line.len()
                invariant
                    0 <= k <= line@.len(),
                    line@ == s[i as int],
                    entry@ == acc0 + line@.take(k as int),
                decreases line@.len() - k,
            {
                entry.push(line[k]);
                proof {
                    assert(acc0 + line@.take(k + 1) =~= (acc0 + line@.take(k as int)).push(
                        line@[k as int],
                    ));
                }
                k = k + 1;
            }
            proof {
                assert(acc0 + line@.take(line@.len() as int) =~= acc0 + line@);
            }
            let ghost out0 = views_of(out@);
            proof {
                assert(views_of(out@.push(entry)) =~= out0.push(acc0 + line@));
            }
            out.push(entry);
            acc.clear();
            proof {
                assert(joined(rest, acc0) == seq![acc0 + line@] + joined(
                    s.skip(i + 1),
                    Seq::<char>::empty(),
                ));
                assert(out0.push(acc0 + line@) =~= out0 + seq![acc0 + line@]);
                assert((out0 + seq![acc0 + line@]) + joined(s.skip(i + 1), Seq::<char>::empty())
                    =~= out0 + (seq![acc0 + line@] + joined(s.skip(i + 1), Seq::<char>::empty())));
                assert(acc@ =~= Seq::<char>::empty());
            }
        }
        i = i + 1;
    }
    proof {
        assert(s.skip(s.len() as int) =~= Seq::<Seq<char>>::empty());
        assert(views_of(out@) + joined(Seq::<Seq<char>>::empty(), acc@) =~= views_of(out@));
    }
    out
}

/// Relies on std's `Path::exists` to ask the file system whether the
/// path names an existing entry. The answer depends on what is on
/// disk, so nothing is promised of which way it goes.
#[verifier::external_body]
fn file_exists(path: &str) -> bool {
    std::path::Path::new(path).exists()
}

/// Checks that a path names an existing file, as a command-line
/// validator: `Ok` when it exists, otherwise an error message naming
/// the path.
pub fn path_exists(path: &str) -> (r: Result<(), String>)
    ensures
        r matches Err(m) ==> m@ == "no such file: "@ + path@,
{
    if file_exists(path) {
        Ok(())
    } else {
        let mut m = "no such file: ".to_owned();
        m.append(path);
        Err(m)
    }
}

} // verus!
