use todotui::todo::{Todo, TodoError};
use todotui::ui::Tabs;

fn store(pending: &[&str], completed: &[&str]) -> Todo {
    let mut t = Todo::new();
    for p in pending {
        t.add_to_todo(p.to_string());
    }
    for c in completed {
        t.add_to_done(c.to_string());
    }
    t
}

#[test]
fn new_store_is_empty() {
    let t = Todo::new();
    assert_eq!(t.todo_len(), 0);
    assert_eq!(t.done_len(), 0);
    assert!(t.visible(Tabs::All).is_empty());
}

#[test]
fn add_appends_in_order() {
    let t = store(&["a", "b"], &["c"]);
    assert_eq!(t.collect_todo_md(), vec!["[ ] a".to_string(), "[ ] b".to_string()]);
    assert_eq!(t.collect_done_md(), vec!["[x] c".to_string()]);
}

#[test]
fn add_accepts_empty_description() {
    let mut t = Todo::new();
    t.add_to_todo(String::new());
    assert_eq!(t.collect_todo_md(), vec!["[ ] ".to_string()]);
}

#[test]
fn all_view_concatenates_pending_then_completed() {
    let t = store(&["a", "b"], &["c"]);
    assert_eq!(
        t.collect_all_md(),
        vec!["[ ] a".to_string(), "[ ] b".to_string(), "[x] c".to_string()]
    );
}

#[test]
fn visible_matches_each_tab() {
    let t = store(&["a"], &["b"]);
    assert_eq!(t.visible(Tabs::Todo), t.collect_todo_md());
    assert_eq!(t.visible(Tabs::Done), t.collect_done_md());
    assert_eq!(t.visible(Tabs::All), t.collect_all_md());
}

#[test]
fn visible_twice_is_identical() {
    let t = store(&["a", "b"], &["c"]);
    for tab in [Tabs::All, Tabs::Todo, Tabs::Done] {
        assert_eq!(t.visible(tab), t.visible(tab));
    }
}

#[test]
fn mark_done_swaps_last_into_place() {
    let mut t = store(&["a", "b", "c"], &[]);
    assert_eq!(t.mark_as_done(0), Ok(()));
    assert_eq!(t.collect_todo_md(), vec!["[ ] c".to_string(), "[ ] b".to_string()]);
    assert_eq!(t.collect_done_md(), vec!["[x] a".to_string()]);
}

#[test]
fn mark_todo_is_the_symmetric_inverse() {
    let mut t = store(&[], &["a", "b", "c"]);
    assert_eq!(t.mark_as_todo(0), Ok(()));
    assert_eq!(t.collect_done_md(), vec!["[x] c".to_string(), "[x] b".to_string()]);
    assert_eq!(t.collect_todo_md(), vec!["[ ] a".to_string()]);
}

#[test]
fn remove_returns_the_removed_description() {
    let mut t = store(&["a", "b", "c"], &["d"]);
    assert_eq!(t.remove_from_todo(1), Ok("b".to_string()));
    assert_eq!(t.collect_todo_md(), vec!["[ ] a".to_string(), "[ ] c".to_string()]);
    assert_eq!(t.remove_from_done(0), Ok("d".to_string()));
    assert_eq!(t.done_len(), 0);
}

#[test]
fn out_of_range_is_reported_and_changes_nothing() {
    let mut t = store(&["a"], &[]);
    assert_eq!(t.remove_from_todo(1), Err(TodoError::OutOfRange));
    assert_eq!(t.remove_from_done(0), Err(TodoError::OutOfRange));
    assert_eq!(t.mark_as_done(7), Err(TodoError::OutOfRange));
    assert_eq!(t.mark_as_todo(0), Err(TodoError::OutOfRange));
    assert_eq!(t.collect_todo_md(), vec!["[ ] a".to_string()]);
    assert_eq!(t.done_len(), 0);
}

#[test]
fn addressing_maps_all_rows_to_local_coordinates() {
    let t = store(&["a", "b"], &["c"]);
    assert_eq!(t.all_to_single(0), Ok((0, Tabs::Todo)));
    assert_eq!(t.all_to_single(1), Ok((1, Tabs::Todo)));
    assert_eq!(t.all_to_single(2), Ok((0, Tabs::Done)));
    assert_eq!(t.all_to_single(3), Err(TodoError::OutOfRange));
}

#[test]
fn end_to_end_toggle_empties_the_todo_tab() {
    let mut t = Todo::new();
    t.add_to_todo("buy milk".to_string());
    assert_eq!(t.mark_as_done(0), Ok(()));
    assert!(t.visible(Tabs::Todo).is_empty());
    assert_eq!(t.visible(Tabs::Done), vec!["[x] buy milk".to_string()]);
}
