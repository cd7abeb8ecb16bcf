use hstr::loader::join_lines;
use hstr::loader::path_exists;
use hstr::query::Query;
use hstr::selection::Selection;
use hstr::session::KeyEvent;
use hstr::session::Outcome;
use hstr::session::State;
use hstr::store::EntryStore;

fn chars(s: &str) -> Vec<char> {
    s.chars().collect()
}

fn entries(strs: &[&str]) -> Vec<Vec<char>> {
    strs.iter().map(|s| chars(s)).collect()
}

fn git_store() -> EntryStore {
    EntryStore::build(&entries(&["git status", "git commit", "ls -la"]))
}

fn type_str(session: &mut State, text: &str) {
    for c in text.chars() {
        let outcome = session.step(KeyEvent::Char(c));
        assert_eq!(outcome, Outcome::Continue);
    }
}

#[test]
fn prefix_lookup_returns_exactly_the_matches() {
    let store = git_store();
    assert_eq!(
        store.prefix_lookup(&chars("git ")),
        entries(&["git status", "git commit"])
    );
    assert_eq!(store.prefix_lookup(&chars("ls")), entries(&["ls -la"]));
    assert_eq!(store.prefix_lookup(&chars("zzz")), entries(&[]));
}

#[test]
fn prefix_lookup_empty_query_returns_everything_in_store_order() {
    let store = git_store();
    assert_eq!(
        store.prefix_lookup(&chars("")),
        entries(&["git status", "git commit", "ls -la"])
    );
}

#[test]
fn prefix_lookup_query_longer_than_any_entry_returns_nothing() {
    let store = git_store();
    assert_eq!(
        store.prefix_lookup(&chars("git status and then some")),
        entries(&[])
    );
}

#[test]
fn duplicate_insertions_collapse_to_one_entry() {
    let store = EntryStore::build(&entries(&["ls", "ls", "cd", "ls"]));
    assert_eq!(store.entries, entries(&["ls", "cd"]));
    let mut store = store;
    store.insert(chars("cd"));
    assert_eq!(store.entries, entries(&["ls", "cd"]));
    store.insert(chars("pwd"));
    assert_eq!(store.entries, entries(&["ls", "cd", "pwd"]));
}

#[test]
fn empty_entry_is_a_valid_key() {
    let store = EntryStore::build(&entries(&["", "a"]));
    assert_eq!(store.prefix_lookup(&chars("")), entries(&["", "a"]));
    assert_eq!(store.prefix_lookup(&chars("a")), entries(&["a"]));
}

#[test]
fn empty_store_answers_every_query_with_nothing() {
    let store = EntryStore::new();
    assert_eq!(store.prefix_lookup(&chars("")), entries(&[]));
    assert_eq!(store.prefix_lookup(&chars("x")), entries(&[]));
}

#[test]
fn query_cursor_stays_clamped() {
    let mut q = Query::new();
    q.move_left();
    assert_eq!(q.cursor, 0);
    q.erase_char();
    assert_eq!((q.text.len(), q.cursor), (0, 0));
    q.insert_char('a');
    q.insert_char('b');
    assert_eq!((q.text.clone(), q.cursor), (chars("ab"), 2));
    q.move_right();
    assert_eq!(q.cursor, 2);
    q.move_left();
    q.insert_char('x');
    assert_eq!((q.text.clone(), q.cursor), (chars("axb"), 2));
    q.move_head();
    assert_eq!(q.cursor, 0);
    q.move_tail();
    assert_eq!(q.cursor, 3);
    q.erase_char();
    assert_eq!((q.text.clone(), q.cursor), (chars("ax"), 2));
    q.erase_all();
    assert_eq!((q.text.len(), q.cursor), (0, 0));
}

#[test]
fn selection_cursor_stays_clamped() {
    let mut sel = Selection {
        candidates: entries(&["a", "b", "c"]),
        cursor: 0,
    };
    sel.move_up();
    assert_eq!(sel.cursor, 0);
    sel.move_down();
    sel.move_down();
    sel.move_down();
    assert_eq!(sel.cursor, 2);
    assert_eq!(sel.current(), Some(chars("c")));

    let mut empty = Selection {
        candidates: entries(&[]),
        cursor: 0,
    };
    empty.move_up();
    empty.move_down();
    assert_eq!(empty.cursor, 0);
    assert_eq!(empty.current(), None);
}

#[test]
fn finalize_matches_a_fresh_prefix_lookup() {
    let mut session = State::new(git_store());
    type_str(&mut session, "git");
    session.step(KeyEvent::Backspace);
    session.step(KeyEvent::Char('t'));
    assert_eq!(
        session.selection.candidates,
        session.store.prefix_lookup(&session.query.text)
    );
    assert_eq!(session.selection.cursor, 0);
}

#[test]
fn finalize_twice_yields_the_same_selection() {
    let mut session = State::new(git_store());
    type_str(&mut session, "git");
    session.finalize();
    let once = (session.selection.candidates.clone(), session.selection.cursor);
    session.finalize();
    let twice = (session.selection.candidates.clone(), session.selection.cursor);
    assert_eq!(once, twice);
}

#[test]
fn continuation_marker_joins_lines() {
    let joined = join_lines(&entries(&["abc\\", "def"]));
    assert_eq!(joined, entries(&["abcdef"]));
}

#[test]
fn lines_without_marker_stay_separate() {
    let joined = join_lines(&entries(&["abc", "def"]));
    assert_eq!(joined, entries(&["abc", "def"]));
}

#[test]
fn marker_run_spans_several_lines() {
    let joined = join_lines(&entries(&["a\\", "b\\", "c", "d"]));
    assert_eq!(joined, entries(&["abc", "d"]));
}

#[test]
fn unterminated_marker_line_yields_no_entry() {
    let joined = join_lines(&entries(&["abc\\"]));
    assert_eq!(joined, entries(&[]));
}

#[test]
fn typing_narrows_and_down_moves_the_highlight() {
    let mut session = State::new(git_store());
    type_str(&mut session, "g");
    assert_eq!(
        session.selection.candidates,
        entries(&["git status", "git commit"])
    );
    assert_eq!(session.selection.cursor, 0);
    type_str(&mut session, "i");
    assert_eq!(
        session.selection.candidates,
        entries(&["git status", "git commit"])
    );
    let outcome = session.step(KeyEvent::Down);
    assert_eq!(outcome, Outcome::Continue);
    assert_eq!(session.selection.cursor, 1);
    let outcome = session.step(KeyEvent::Confirm);
    assert_eq!(outcome, Outcome::Confirmed(Some(chars("git commit"))));
}

#[test]
fn confirming_with_no_candidate_carries_no_value() {
    let mut session = State::new(git_store());
    type_str(&mut session, "zzz");
    assert_eq!(session.selection.candidates, entries(&[]));
    let outcome = session.step(KeyEvent::Confirm);
    assert_eq!(outcome, Outcome::Confirmed(None));
}

#[test]
fn clearing_the_line_restores_all_candidates() {
    let mut session = State::new(git_store());
    type_str(&mut session, "git");
    let outcome = session.step(KeyEvent::ClearLine);
    assert_eq!(outcome, Outcome::Continue);
    assert_eq!(session.query.text.len(), 0);
    assert_eq!(
        session.selection.candidates,
        entries(&["git status", "git commit", "ls -la"])
    );
    assert_eq!(session.selection.cursor, 0);
}

#[test]
fn interrupt_cancels_whatever_came_before() {
    let mut fresh = State::new(git_store());
    assert_eq!(fresh.step(KeyEvent::Interrupt), Outcome::Cancelled);

    let mut busy = State::new(git_store());
    type_str(&mut busy, "git s");
    busy.step(KeyEvent::Down);
    busy.step(KeyEvent::Left);
    assert_eq!(busy.step(KeyEvent::Interrupt), Outcome::Cancelled);
}

#[test]
fn cursor_moves_do_not_refilter() {
    let mut session = State::new(git_store());
    type_str(&mut session, "g");
    session.step(KeyEvent::Down);
    assert_eq!(session.selection.cursor, 1);
    session.step(KeyEvent::Left);
    session.step(KeyEvent::Right);
    session.step(KeyEvent::Head);
    session.step(KeyEvent::Tail);
    assert_eq!(session.selection.cursor, 1);
    assert_eq!(
        session.selection.candidates,
        entries(&["git status", "git commit"])
    );
}

#[test]
fn resize_changes_nothing() {
    let mut session = State::new(git_store());
    type_str(&mut session, "git");
    session.step(KeyEvent::Down);
    let before = (
        session.query.text.clone(),
        session.query.cursor,
        session.selection.candidates.clone(),
        session.selection.cursor,
    );
    let outcome = session.step(KeyEvent::Resize);
    assert_eq!(outcome, Outcome::Continue);
    let after = (
        session.query.text.clone(),
        session.query.cursor,
        session.selection.candidates.clone(),
        session.selection.cursor,
    );
    assert_eq!(before, after);
}

#[test]
fn backspace_at_start_still_resets_the_highlight() {
    let mut session = State::new(git_store());
    session.step(KeyEvent::Down);
    assert_eq!(session.selection.cursor, 1);
    let outcome = session.step(KeyEvent::Backspace);
    assert_eq!(outcome, Outcome::Continue);
    assert_eq!(session.query.text.len(), 0);
    assert_eq!(session.selection.cursor, 0);
}

#[test]
fn output_is_the_highlighted_entry() {
    let mut session = State::new(git_store());
    assert_eq!(session.output(), Some(chars("git status")));
    session.step(KeyEvent::Down);
    assert_eq!(session.output(), Some(chars("git commit")));
    type_str(&mut session, "zzz");
    assert_eq!(session.output(), None);
}

#[test]
fn path_check_reports_a_missing_file_by_name() {
    let missing = "/no/such/directory/no-such-history-file";
    assert_eq!(
        path_exists(missing),
        Err(format!("no such file: {}", missing))
    );
    assert_eq!(path_exists("/"), Ok(()));
}
