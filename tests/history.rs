use aniwall::commands::{navigate, HistorySubcommand};
use aniwall::history::History;

fn history_of(ids: &[&str], idx: usize) -> History {
    History::from_parts(ids.iter().map(|s| s.to_string()).collect(), idx).unwrap()
}

#[test]
fn push_of_current_is_noop() {
    let mut h = history_of(&["a", "b", "c"], 1);
    assert_eq!(h.current(), Some("b".to_string()));
    h.push("b".to_string());
    assert_eq!(h.ids(), vec!["a", "b", "c"]);
    assert_eq!(h.idx(), 1);
}

#[test]
fn push_twice_records_once() {
    let mut h = History::new();
    h.push("x".to_string());
    h.push("x".to_string());
    assert_eq!(h.ids(), vec!["x"]);
    assert_eq!(h.idx(), 0);
}

#[test]
fn push_truncates_after_cursor() {
    let mut h = history_of(&["a", "b", "c"], 0);
    h.push("d".to_string());
    assert_eq!(h.ids(), vec!["a", "d"]);
    assert_eq!(h.idx(), 1);
    assert_eq!(h.current(), Some("d".to_string()));
}

#[test]
fn push_at_tail_appends() {
    let mut h = history_of(&["a", "b"], 1);
    h.push("c".to_string());
    assert_eq!(h.ids(), vec!["a", "b", "c"]);
    assert_eq!(h.idx(), 2);
}

#[test]
fn empty_history_navigation_finds_nothing() {
    let mut h = History::new();
    assert_eq!(h.prev(), None);
    assert_eq!(h.next(), None);
    assert_eq!(h.current(), None);
    assert_eq!(h.idx(), 0);
    assert_eq!(h.len(), 0);
}

#[test]
fn prev_stops_at_first_entry() {
    let mut h = history_of(&["a", "b"], 1);
    assert_eq!(h.prev(), Some("a".to_string()));
    assert_eq!(h.prev(), Some("a".to_string()));
    assert_eq!(h.prev(), Some("a".to_string()));
    assert_eq!(h.idx(), 0);
}

#[test]
fn next_stops_at_last_entry() {
    let mut h = history_of(&["a", "b"], 0);
    assert_eq!(h.next(), Some("b".to_string()));
    assert_eq!(h.next(), Some("b".to_string()));
    assert_eq!(h.idx(), 1);
}

#[test]
fn from_parts_refuses_cursor_off_entries() {
    assert!(History::from_parts(vec!["a".to_string()], 1).is_none());
    assert!(History::from_parts(vec![], 3).is_none());
    assert!(History::from_parts(vec![], 0).is_some());
}

#[test]
fn navigate_moves_like_prev_and_next() {
    let mut h = history_of(&["a", "b", "c"], 1);
    assert_eq!(navigate(&mut h, HistorySubcommand::Current), Some("b".to_string()));
    assert_eq!(navigate(&mut h, HistorySubcommand::Next), Some("c".to_string()));
    assert_eq!(navigate(&mut h, HistorySubcommand::Previous), Some("b".to_string()));
    assert_eq!(h.idx(), 1);
}
