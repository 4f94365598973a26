//! The note list: filtering, selection, and shared-prefix grouping.

use zettelkasten::keys::Key;
use zettelkasten::list::{split_path, CommonParts, List, ListAction};
use zettelkasten::storage::{User, ZettelHeader};

fn user() -> User {
    User { id: 1, name: "u".to_string(), password: "p".to_string(), last_visited_zettel: None }
}

fn header(id: i64, path: &str) -> ZettelHeader {
    ZettelHeader { id, path: path.to_string(), highlight_text: None }
}

fn listing(paths: &[&str]) -> List {
    let links: Vec<ZettelHeader> =
        paths.iter().enumerate().map(|(i, p)| header(i as i64 + 1, p)).collect();
    List::new(user(), links)
}

/// Filter `a/` over `["a/b", "a/c", "d"]` keeps `a/b` and `a/c`; the shared
/// prefix `a/` is rendered once, with remainders `b` and `c`.
#[test]
fn scenario_filter_and_shared_prefix() {
    let mut l = listing(&["a/b", "a/c", "d"]);
    l.handle_key(Key::Char('a'), &Vec::new());
    l.handle_key(Key::Char('/'), &Vec::new());
    let rows = l.filtered();
    assert_eq!(rows.len(), 2);
    assert_eq!(rows[0].path, "a/b");
    assert_eq!(rows[1].path, "a/c");

    let first = CommonParts::get(&split_path(&rows[0].path), &Vec::new());
    assert_eq!(first.common_length, 0);
    assert_eq!(first.remaining, vec!["a".to_string(), "b".to_string()]);

    let second = CommonParts::get(&split_path(&rows[1].path), &split_path(&rows[0].path));
    assert_eq!(second.common_length, 1);
    assert_eq!(second.remaining, vec!["c".to_string()]);
}

/// A blank filter shows everything; matching ignores ASCII case.
#[test]
fn filter_blank_and_case() {
    let l = listing(&["Alpha/One", "beta", "gamma/ALPHA"]);
    assert_eq!(l.filtered().len(), 3);

    let mut l = listing(&["Alpha/One", "beta", "gamma/ALPHA"]);
    for c in "alpha".chars() {
        l.handle_key(Key::Char(c), &Vec::new());
    }
    let rows = l.filtered();
    assert_eq!(rows.len(), 2);
    assert_eq!(rows[0].path, "Alpha/One");
    assert_eq!(rows[1].path, "gamma/ALPHA");

    l.handle_key(Key::Backspace, &Vec::new());
    assert_eq!(l.search, "alph");
}

/// Paths split on every slash, keeping empty segments.
#[test]
fn path_segments() {
    assert_eq!(split_path("a/b"), vec!["a".to_string(), "b".to_string()]);
    assert_eq!(split_path("d"), vec!["d".to_string()]);
    assert_eq!(split_path(""), vec!["".to_string()]);
    assert_eq!(split_path("a/"), vec!["a".to_string(), "".to_string()]);
}

/// The shared-prefix computation compares segments case-insensitively and
/// stops at the first difference.
#[test]
fn common_parts_cases() {
    let a = split_path("A/b/c");
    let b = split_path("a/B/x");
    let parts = CommonParts::get(&a, &b);
    assert_eq!(parts.common_length, 2);
    assert_eq!(parts.remaining, vec!["c".to_string()]);

    let parts = CommonParts::get(&split_path("x/y"), &split_path("z/y"));
    assert_eq!(parts.common_length, 0);
    assert_eq!(parts.remaining, vec!["x".to_string(), "y".to_string()]);

    let parts = CommonParts::get(&split_path("a"), &split_path("a/b"));
    assert_eq!(parts.common_length, 1);
    assert!(parts.remaining.is_empty());
}

/// The selection stays inside the filtered rows, and Enter opens the
/// highlighted one.
#[test]
fn selection_and_open() {
    let mut l = listing(&["a", "b", "c"]);
    let rows = l.filtered();
    assert_eq!(l.handle_key(Key::Down, &rows), ListAction::Continue);
    assert_eq!(l.handle_key(Key::Down, &rows), ListAction::Continue);
    assert_eq!(l.selected, 2);
    assert_eq!(l.handle_key(Key::Down, &rows), ListAction::Continue);
    assert_eq!(l.selected, 2);
    match l.handle_key(Key::Enter, &rows) {
        ListAction::Open { id } => assert_eq!(id, 3),
        _ => panic!("expected to open the third row"),
    }
    assert_eq!(l.handle_key(Key::Up, &rows), ListAction::Continue);
    assert_eq!(l.selected, 1);

    l.clamp_selection(1);
    assert_eq!(l.selected, 0);
    l.clamp_selection(0);
    assert_eq!(l.selected, 0);

    // With no rows, Enter is a no-op.
    let empty: Vec<ZettelHeader> = Vec::new();
    assert_eq!(l.handle_key(Key::Enter, &empty), ListAction::Continue);
    assert_eq!(l.handle_key(Key::Esc, &empty), ListAction::Pop);
}

/// Drawing the grouped rows: one indent step per shared segment, remainders
/// joined with slashes, the marker on the selected row.
#[test]
fn draw_groups_shared_prefixes() {
    let mut l = listing(&["a/b", "a/c", "d"]);
    l.handle_key(Key::Char('a'), &Vec::new());
    l.handle_key(Key::Char('/'), &Vec::new());
    let rows = l.filtered();
    let drawn = l.draw(&rows);
    assert_eq!(drawn.len(), 2);

    let texts: Vec<Vec<&str>> = drawn
        .iter()
        .map(|line| line.spans.iter().map(|s| s.text.as_str()).collect())
        .collect();
    // The first row spells out the whole path; the second indents the shared
    // `a` segment once and shows only the remainder.
    assert_eq!(texts[0], vec!["> ", "a", "/", "b"]);
    assert_eq!(texts[1], vec!["  ", "  ", "c"]);
}
