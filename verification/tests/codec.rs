use todotui::todo::Todo;
use todotui::ui::Tabs;

#[test]
fn save_writes_tagged_lines_with_trailing_newline() {
    let mut t = Todo::new();
    t.add_to_todo("a".to_string());
    t.add_to_todo("b".to_string());
    t.add_to_done("c".to_string());
    assert_eq!(t.save(), "TODO: a\nTODO: b\nDONE: c\n");
}

#[test]
fn save_of_an_empty_store_is_empty() {
    let t = Todo::new();
    assert_eq!(t.save(), "");
}

#[test]
fn from_reads_tagged_lines() {
    let t = Todo::from("TODO: a\nDONE: b\nTODO: c\n");
    assert_eq!(
        t.collect_todo_md(),
        vec!["[ ] a".to_string(), "[ ] c".to_string()]
    );
    assert_eq!(t.collect_done_md(), vec!["[x] b".to_string()]);
}

#[test]
fn from_matches_tags_case_insensitively() {
    let t = Todo::from("todo: a\nDone: b\ntOdO: c");
    assert_eq!(
        t.collect_todo_md(),
        vec!["[ ] a".to_string(), "[ ] c".to_string()]
    );
    assert_eq!(t.collect_done_md(), vec!["[x] b".to_string()]);
}

#[test]
fn from_ignores_unrecognized_lines() {
    let t = Todo::from("note\nTODO:x\n\n  DONE: y\nDONE: z\n");
    assert_eq!(t.todo_len(), 0);
    assert_eq!(t.collect_done_md(), vec!["[x] z".to_string()]);
}

#[test]
fn from_trims_the_description() {
    let t = Todo::from("TODO:   spaced out  \nDONE: \n");
    assert_eq!(t.collect_todo_md(), vec!["[ ] spaced out".to_string()]);
    assert_eq!(t.collect_done_md(), vec!["[x] ".to_string()]);
}

#[test]
fn from_strips_carriage_returns() {
    let t = Todo::from("TODO: a\r\nDONE: b\r\n");
    assert_eq!(t.collect_todo_md(), vec!["[ ] a".to_string()]);
    assert_eq!(t.collect_done_md(), vec!["[x] b".to_string()]);
}

#[test]
fn save_then_load_reproduces_the_store() {
    let mut t = Todo::new();
    t.add_to_todo("buy milk".to_string());
    t.add_to_todo("water plants".to_string());
    t.add_to_done("file taxes".to_string());
    let saved = t.save();
    let reloaded = Todo::from(&saved);
    assert_eq!(reloaded.visible(Tabs::All), t.visible(Tabs::All));
    assert_eq!(reloaded.save(), saved);
}

#[test]
fn round_trip_after_swap_removal_keeps_the_multisets() {
    let mut t = Todo::new();
    t.add_to_todo("a".to_string());
    t.add_to_todo("b".to_string());
    t.add_to_todo("c".to_string());
    assert_eq!(t.mark_as_done(1), Ok(()));
    let reloaded = Todo::from(&t.save());
    let mut before = t.visible(Tabs::All);
    let mut after = reloaded.visible(Tabs::All);
    before.sort();
    after.sort();
    assert_eq!(before, after);
    assert_eq!(reloaded.visible(Tabs::All), t.visible(Tabs::All));
}
