use todotui::draw::DrawCmd;
use todotui::session::{remove_last_word, to_upper_ascii, word_erase, Action, Key, Session};
use todotui::todo::Todo;
use todotui::ui::{Input, Tabs, UI};

fn session_with(pending: &[&str], completed: &[&str]) -> Session {
    let mut t = Todo::new();
    for p in pending {
        t.add_to_todo(p.to_string());
    }
    for c in completed {
        t.add_to_done(c.to_string());
    }
    Session::new(t)
}

#[test]
fn a_fresh_session_starts_on_the_todo_tab() {
    let s = session_with(&["a"], &[]);
    assert_eq!(s.ui.current_tab, Tabs::Todo);
    assert_eq!(s.ui.position, 0);
    assert!(!s.editing);
    assert_eq!(s.current_list, vec!["[ ] a".to_string()]);
}

#[test]
fn repeated_move_down_clamps_at_the_last_row() {
    let mut s = session_with(&["a", "b", "c"], &[]);
    for _ in 0..7 {
        assert_eq!(s.handle_event(Key::Char('j')), Action::RedrawList);
        assert!(s.ui.position <= 2);
    }
    assert_eq!(s.ui.position, 2);
}

#[test]
fn repeated_move_up_clamps_at_zero() {
    let mut s = session_with(&["a", "b", "c"], &[]);
    s.handle_event(Key::Char('j'));
    for _ in 0..5 {
        s.handle_event(Key::Char('k'));
    }
    assert_eq!(s.ui.position, 0);
}

#[test]
fn moving_on_an_empty_list_stays_at_zero() {
    let mut s = session_with(&[], &[]);
    s.handle_event(Key::Char('j'));
    assert_eq!(s.ui.position, 0);
    s.handle_event(Key::Char('k'));
    assert_eq!(s.ui.position, 0);
}

#[test]
fn handle_input_clamps_directly() {
    let mut ui = UI::new();
    ui.handle_input(Input::Down, 2);
    ui.handle_input(Input::Down, 2);
    ui.handle_input(Input::Down, 2);
    assert_eq!(ui.position, 1);
    ui.handle_input(Input::Up, 2);
    ui.handle_input(Input::Up, 2);
    assert_eq!(ui.position, 0);
    ui.handle_input(Input::Down, 0);
    assert_eq!(ui.position, 0);
}

#[test]
fn three_tab_cycles_return_to_the_start_and_reset_the_row() {
    for start in [Tabs::All, Tabs::Todo, Tabs::Done] {
        let mut s = session_with(&["a", "b"], &["c"]);
        s.ui.change_tab(start);
        s.current_list = s.todo.visible(start);
        s.handle_event(Key::Char('j'));
        let mut tabs = Vec::new();
        for _ in 0..3 {
            assert_eq!(s.handle_event(Key::CycleTab), Action::RedrawListAndTabs);
            assert_eq!(s.ui.position, 0);
            tabs.push(s.ui.current_tab);
        }
        assert_eq!(tabs[2], start);
        assert_eq!(s.current_list, s.todo.visible(start));
    }
}

#[test]
fn tabs_cycle_in_order() {
    let mut ui = UI::new();
    ui.change_tab(Tabs::All);
    ui.cycle_tabs();
    assert_eq!(ui.current_tab, Tabs::Todo);
    ui.cycle_tabs();
    assert_eq!(ui.current_tab, Tabs::Done);
    ui.cycle_tabs();
    assert_eq!(ui.current_tab, Tabs::All);
}

#[test]
fn from_index_names_the_bar_order() {
    assert_eq!(Tabs::from_index(0), Tabs::All);
    assert_eq!(Tabs::from_index(1), Tabs::Todo);
    assert_eq!(Tabs::from_index(2), Tabs::Done);
}

#[test]
fn toggle_marks_the_selected_row_done() {
    let mut s = session_with(&["buy milk"], &[]);
    assert_eq!(s.handle_event(Key::Char('x')), Action::RedrawList);
    assert!(s.current_list.is_empty());
    assert_eq!(s.todo.visible(Tabs::Done), vec!["[x] buy milk".to_string()]);
    assert_eq!(s.ui.position, 0);
}

#[test]
fn toggle_on_an_empty_list_is_a_no_op() {
    let mut s = session_with(&[], &[]);
    assert_eq!(s.handle_event(Key::Char('x')), Action::Idle);
    assert!(s.current_list.is_empty());
}

#[test]
fn toggle_on_the_all_tab_addresses_both_sequences() {
    let mut s = session_with(&["a", "b"], &["c"]);
    s.handle_event(Key::CycleTab);
    s.handle_event(Key::CycleTab);
    assert_eq!(s.ui.current_tab, Tabs::All);
    // Row 2 is the completed description "c": toggling moves it to pending.
    s.handle_event(Key::Char('j'));
    s.handle_event(Key::Char('j'));
    assert_eq!(s.handle_event(Key::Char('x')), Action::RedrawList);
    assert_eq!(
        s.current_list,
        vec!["[ ] a".to_string(), "[ ] b".to_string(), "[ ] c".to_string()]
    );
}

#[test]
fn quit_and_save_are_reported_without_state_change() {
    let mut s = session_with(&["a"], &[]);
    assert_eq!(s.handle_event(Key::Char('q')), Action::Quit);
    assert_eq!(s.handle_event(Key::Char('s')), Action::Save);
    assert_eq!(s.current_list, vec!["[ ] a".to_string()]);
    assert!(!s.editing);
}

#[test]
fn unknown_keys_are_ignored() {
    let mut s = session_with(&["a"], &[]);
    assert_eq!(s.handle_event(Key::Char('z')), Action::Idle);
    assert_eq!(s.handle_event(Key::Enter), Action::Idle);
    assert_eq!(s.handle_event(Key::Esc), Action::Idle);
    assert_eq!(s.handle_event(Key::Backspace), Action::Idle);
}

#[test]
fn typing_builds_the_draft_buffer() {
    let mut s = session_with(&[], &[]);
    assert_eq!(s.handle_event(Key::Char('a')), Action::OpenDraft);
    assert!(s.editing);
    assert_eq!(s.handle_event(Key::Char('h')), Action::RedrawDraft);
    assert_eq!(s.handle_event(Key::ShiftChar('i')), Action::RedrawDraft);
    assert_eq!(s.buffer, "hI");
}

#[test]
fn commit_adds_the_buffer_to_the_tab_sequence() {
    let mut s = session_with(&["a"], &[]);
    s.handle_event(Key::Char('a'));
    for c in "milk".chars() {
        s.handle_event(Key::Char(c));
    }
    assert_eq!(s.handle_event(Key::Enter), Action::CommitDraft);
    assert!(!s.editing);
    assert_eq!(s.buffer, "");
    assert_eq!(
        s.current_list,
        vec!["[ ] a".to_string(), "[ ] milk".to_string()]
    );
}

#[test]
fn commit_on_the_done_tab_adds_a_completed_description() {
    let mut s = session_with(&[], &[]);
    s.handle_event(Key::CycleTab);
    assert_eq!(s.ui.current_tab, Tabs::Done);
    s.handle_event(Key::Char('a'));
    s.handle_event(Key::Char('x'));
    assert_eq!(s.handle_event(Key::Enter), Action::CommitDraft);
    assert_eq!(s.current_list, vec!["[x] x".to_string()]);
}

#[test]
fn committing_an_empty_buffer_adds_nothing() {
    let mut s = session_with(&["a"], &[]);
    s.handle_event(Key::Char('a'));
    assert_eq!(s.handle_event(Key::Enter), Action::CloseDraft);
    assert!(!s.editing);
    assert_eq!(s.current_list, vec!["[ ] a".to_string()]);
}

#[test]
fn escape_discards_the_draft() {
    let mut s = session_with(&["a"], &[]);
    s.handle_event(Key::Char('a'));
    s.handle_event(Key::Char('x'));
    assert_eq!(s.handle_event(Key::Esc), Action::CloseDraft);
    assert!(!s.editing);
    assert_eq!(s.buffer, "");
    assert_eq!(s.current_list, vec!["[ ] a".to_string()]);
}

#[test]
fn backspace_erases_one_character() {
    let mut s = session_with(&[], &[]);
    s.handle_event(Key::Char('a'));
    s.handle_event(Key::Char('h'));
    s.handle_event(Key::Char('i'));
    assert_eq!(s.handle_event(Key::Backspace), Action::RedrawDraft);
    assert_eq!(s.buffer, "h");
    s.handle_event(Key::Backspace);
    assert_eq!(s.buffer, "");
    assert_eq!(s.handle_event(Key::Backspace), Action::Idle);
}

#[test]
fn word_erase_in_the_editor_keeps_one_separator() {
    let mut s = session_with(&[], &[]);
    s.handle_event(Key::Char('a'));
    for c in "hello world".chars() {
        s.handle_event(Key::Char(c));
    }
    assert_eq!(s.handle_event(Key::CtrlBackspace), Action::RedrawDraft);
    assert_eq!(s.buffer, "hello ");
    // On a buffer that ends in the separator, word-erase drops the empty
    // final field and restores the separator: the buffer does not change.
    s.handle_event(Key::CtrlBackspace);
    assert_eq!(s.buffer, "hello ");
    s.handle_event(Key::Backspace);
    s.handle_event(Key::CtrlBackspace);
    assert_eq!(s.buffer, "");
    assert_eq!(s.handle_event(Key::CtrlBackspace), Action::Idle);
}

#[test]
fn word_erase_examples() {
    assert_eq!(word_erase("hello world"), "hello ");
    assert_eq!(word_erase("hello"), "");
    assert_eq!(word_erase("a b"), "a");
    assert_eq!(word_erase(""), "");
}

#[test]
fn remove_last_word_cuts_at_the_last_space() {
    assert_eq!(remove_last_word("one two three"), "one two");
    assert_eq!(remove_last_word("one"), "");
    assert_eq!(remove_last_word(" x"), "");
    assert_eq!(remove_last_word("one two "), "one two");
}

#[test]
fn shift_uppercases_ascii_letters_only() {
    assert_eq!(to_upper_ascii('a'), 'A');
    assert_eq!(to_upper_ascii('z'), 'Z');
    assert_eq!(to_upper_ascii('A'), 'A');
    assert_eq!(to_upper_ascii('1'), '1');
}

#[test]
fn end_to_end_scenario_from_an_empty_store() {
    let mut t = Todo::new();
    t.add_to_todo("buy milk".to_string());
    let mut s = Session::new(t);
    assert_eq!(s.ui.current_tab, Tabs::Todo);
    s.handle_event(Key::Char('x'));
    assert!(s.todo.visible(Tabs::Todo).is_empty());
    assert_eq!(s.todo.visible(Tabs::Done), vec!["[x] buy milk".to_string()]);
}

#[test]
fn render_list_highlights_exactly_the_selected_row() {
    let mut ui = UI::new();
    ui.set_position(0);
    let rows = vec!["[ ] a".to_string(), "[ ] b".to_string()];
    let cmds = ui.render_list(&rows);
    assert_eq!(
        cmds,
        vec![
            DrawCmd::MoveTo(0, 1),
            DrawCmd::ClearFromCursorDown,
            DrawCmd::SetHighlight,
            DrawCmd::MoveTo(1, 2),
            DrawCmd::Print("[ ] a".to_string()),
            DrawCmd::ResetStyle,
            DrawCmd::MoveTo(1, 3),
            DrawCmd::Print("[ ] b".to_string()),
        ]
    );
}

#[test]
fn render_tabs_highlights_the_active_tab() {
    let ui = UI::new();
    let cmds = ui.render_tabs();
    assert_eq!(
        cmds,
        vec![
            DrawCmd::MoveTo(0, 1),
            DrawCmd::ClearFromCursorUp,
            DrawCmd::MoveTo(1, 0),
            DrawCmd::Print("All".to_string()),
            DrawCmd::SetHighlight,
            DrawCmd::MoveTo(7, 0),
            DrawCmd::Print("Todo".to_string()),
            DrawCmd::ResetStyle,
            DrawCmd::MoveTo(13, 0),
            DrawCmd::Print(" Done".to_string()),
        ]
    );
}

#[test]
fn the_draft_row_sits_below_the_visible_list() {
    let mut s = session_with(&["a"], &[]);
    let a = s.handle_event(Key::Char('a'));
    assert_eq!(a, Action::OpenDraft);
    assert_eq!(
        s.draw_commands(a),
        vec![
            DrawCmd::MoveTo(1, 3),
            DrawCmd::Print("[ ]".to_string()),
            DrawCmd::MoveTo(5, 3),
            DrawCmd::ShowCursor,
            DrawCmd::BarCursor,
        ]
    );
    let a = s.handle_event(Key::Char('h'));
    assert_eq!(
        s.draw_commands(a),
        vec![
            DrawCmd::MoveTo(0, 3),
            DrawCmd::ClearFromCursorDown,
            DrawCmd::MoveTo(1, 3),
            DrawCmd::Print("[ ]".to_string()),
            DrawCmd::MoveTo(5, 3),
            DrawCmd::Print("h".to_string()),
        ]
    );
}

#[test]
fn idle_quit_and_save_draw_nothing() {
    let s = session_with(&["a"], &[]);
    assert!(s.draw_commands(Action::Idle).is_empty());
    assert!(s.draw_commands(Action::Quit).is_empty());
    assert!(s.draw_commands(Action::Save).is_empty());
}

#[test]
fn closing_the_draft_erases_it_and_hides_the_cursor() {
    let mut s = session_with(&["a"], &[]);
    s.handle_event(Key::Char('a'));
    let a = s.handle_event(Key::Esc);
    assert_eq!(
        s.draw_commands(a),
        vec![
            DrawCmd::HideCursor,
            DrawCmd::MoveTo(0, 3),
            DrawCmd::ClearFromCursorDown,
        ]
    );
}

#[test]
fn committing_redraws_the_grown_list() {
    let mut s = session_with(&[], &[]);
    s.handle_event(Key::Char('a'));
    s.handle_event(Key::Char('n'));
    let a = s.handle_event(Key::Enter);
    assert_eq!(a, Action::CommitDraft);
    assert_eq!(
        s.draw_commands(a),
        vec![
            DrawCmd::HideCursor,
            DrawCmd::MoveTo(0, 3),
            DrawCmd::ClearFromCursorDown,
            DrawCmd::MoveTo(0, 1),
            DrawCmd::ClearFromCursorDown,
            DrawCmd::SetHighlight,
            DrawCmd::MoveTo(1, 2),
            DrawCmd::Print("[ ] n".to_string()),
            DrawCmd::ResetStyle,
        ]
    );
}
