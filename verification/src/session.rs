//! The input state machine: one session of the editor, stepping from key
//! event to key event through the navigation and line-edit modes, with the
//! visible list kept consistent with the store and the tab at every step.

use vstd::prelude::*;
use vstd::string::*;

use crate::draw::{render_list_spec, render_tabs_spec, DrawCmd, DrawCmdV};
use crate::todo::{swap_removed, visible_spec, Todo, TodoView};
use crate::ui::{nav_down, nav_up, next_tab, pos_in_bounds, Input, Tabs, UI};

verus! {

/// The index of the last space of `s` strictly before `j`, or -1 if none.
pub open spec fn last_space(s: Seq<char>, j: int) -> int
    decreases j,
{
    if j <= 0 || j > s.len() {
        -1
    } else if s[j - 1] == ' ' {
        j - 1
    } else {
        last_space(s, j - 1)
    }
}

/// `s` cut back to just before its last space, or emptied if it holds none:
/// the space-delimited fields of `s` with the final field dropped,
/// rejoined by single spaces.
pub open spec fn remove_last_word_spec(s: Seq<char>) -> Seq<char> {
    let k = last_space(s, s.len() as int);
    if k < 0 {
        Seq::<char>::empty()
    } else {
        s.subrange(0, k)
    }
}

/// What a word-erase leaves of a non-empty line-edit buffer: the buffer
/// without its final word, and — when more than one character remains — a
/// single trailing space, so typing can continue without retyping the
/// separator.
pub open spec fn word_erase_spec(s: Seq<char>) -> Seq<char> {
    if s.len() == 0 {
        s
    } else {
        let r = remove_last_word_spec(s);
        if r.len() > 1 {
            r.push(' ')
        } else {
            r
        }
    }
}

proof fn lemma_last_space_at(s: Seq<char>, j: int, m: int)
    requires
        0 <= j <= m <= s.len(),
        forall|k: int| j <= k < m ==> s[k] != ' ',
        j == 0 || s[j - 1] == ' ',
    ensures
        last_space(s, m) == if j == 0 {
            -1int
        } else {
            j - 1
        },
    decreases m - j,
{
    if j < m {
        lemma_last_space_at(s, j, m - 1);
    }
}

/// The buffer without its final space-delimited word: everything up to the
/// last space (exclusive), or the empty string when the buffer holds no
/// space at all.
pub fn remove_last_word(input: &str) -> (r: String)
    ensures
        r@ == remove_last_word_spec(input@),
{
    let n = input.unicode_len();
    let mut j = n;
    while j > 0
        invariant
            n == input@.len(),
            j <= n,
            forall|k: int| j <= k < n ==> input@[k] != ' ',
        decreases j,
    {
        if input.get_char(j - 1) == ' ' {
            proof {
                lemma_last_space_at(input@, j as int, n as int);
            }
            return input.substring_char(0, j - 1).to_owned();
        }
        j = j - 1;
    }
    proof {
        lemma_last_space_at(input@, 0, n as int);
    }
    String::new()
}

/// One word-erase on the line-edit buffer.
pub fn word_erase(input: &str) -> (r: String)
    ensures
        r@ == word_erase_spec(input@),
{
    if input.is_empty() {
        return input.to_owned();
    }
    let mut r = remove_last_word(input);
    if r.as_str().unicode_len() > 1 {
        r.append(" ");
        proof {
            reveal_strlit(" ");
            assert((" ")@ =~= seq![' ']);
            assert(r@ =~= remove_last_word_spec(input@).push(' '));
        }
    }
    r
}

/// `c` with an ASCII lowercase letter mapped to its uppercase form; any
/// other character is left as it is.
pub open spec fn ascii_upper(c: char) -> char {
    if 97 <= c as u32 && c as u32 <= 122 {
        (((c as u32) - 32) as u8) as char
    } else {
        c
    }
}

/// The executable form of [`ascii_upper`].
pub fn to_upper_ascii(c: char) -> (r: char)
    ensures
        r == ascii_upper(c),
{
    let u = c as u32;
    if 97 <= u && u <= 122 {
        ((u - 32) as u8) as char
    } else {
        c
    }
}

/// Relies on String::push: appends the character to the end of the string.
#[verifier::external_body]
fn push_char(s: &mut String, c: char)
    ensures
        final(s)@ == old(s)@.push(c),
{
    s.push(c);
}

/// A key event, as the terminal collaborator reports it: a printable
/// character typed with no modifier or with shift held, or one of the
/// control keys the editor reacts to.
#[derive(PartialEq, Eq, Structural, Clone, Copy, Debug)]
pub enum Key {
    Char(char),
    ShiftChar(char),
    Backspace,
    CtrlBackspace,
    Enter,
    Esc,
    CycleTab,
}

/// What the shell must do after a step: stop the loop, persist the store, or
/// redraw one screen region.  Every drawing action names the smallest region
/// that can have changed.
#[derive(PartialEq, Eq, Structural, Clone, Copy, Debug)]
pub enum Action {
    /// Nothing changed.
    Idle,
    /// Leave the loop.
    Quit,
    /// Persist the store through the storage collaborator.
    Save,
    /// Redraw the list region.
    RedrawList,
    /// Redraw the list region and the tab bar.
    RedrawListAndTabs,
    /// Show the empty draft row below the list and the cursor on it.
    OpenDraft,
    /// Redraw the single draft row.
    RedrawDraft,
    /// Hide the cursor and erase the draft row.
    CloseDraft,
    /// Hide the cursor, erase the draft region and redraw the list.
    CommitDraft,
}

/// The mathematical model of a session: the store, the view state, the mode
/// flag and the line-edit buffer.
pub struct SessionView {
    pub store: TodoView,
    pub tab: Tabs,
    pub row: nat,
    pub editing: bool,
    pub buffer: Seq<char>,
}

/// The toggle step: resolves the selected row to a store coordinate by the
/// tab's addressing rule, moves that description to the other sequence, and
/// resets the selection; out-of-range rows (the empty list) change nothing.
pub open spec fn toggle_spec(s: SessionView) -> (SessionView, Action) {
    match s.tab {
        Tabs::Todo => if s.row < s.store.pending.len() {
            (
                SessionView {
                    store: TodoView {
                        pending: swap_removed(s.store.pending, s.row as int),
                        completed: s.store.completed.push(s.store.pending[s.row as int]),
                    },
                    row: 0,
                    ..s
                },
                Action::RedrawList,
            )
        } else {
            (s, Action::Idle)
        },
        Tabs::Done => if s.row < s.store.completed.len() {
            (
                SessionView {
                    store: TodoView {
                        pending: s.store.pending.push(s.store.completed[s.row as int]),
                        completed: swap_removed(s.store.completed, s.row as int),
                    },
                    row: 0,
                    ..s
                },
                Action::RedrawList,
            )
        } else {
            (s, Action::Idle)
        },
        Tabs::All => if s.row < s.store.pending.len() {
            (
                SessionView {
                    store: TodoView {
                        pending: swap_removed(s.store.pending, s.row as int),
                        completed: s.store.completed.push(s.store.pending[s.row as int]),
                    },
                    row: 0,
                    ..s
                },
                Action::RedrawList,
            )
        } else if s.row < s.store.pending.len() + s.store.completed.len() {
            (
                SessionView {
                    store: TodoView {
                        pending: s.store.pending.push(
                            s.store.completed[s.row - s.store.pending.len()],
                        ),
                        completed: swap_removed(
                            s.store.completed,
                            s.row - s.store.pending.len(),
                        ),
                    },
                    row: 0,
                    ..s
                },
                Action::RedrawList,
            )
        } else {
            (s, Action::Idle)
        },
    }
}

/// The commit step: a non-empty buffer becomes a new description of the
/// sequence the tab implies (`Done` appends to completed; `Todo` and `All`
/// append to pending); an empty buffer commits nothing and the draft is
/// simply closed.
pub open spec fn commit_spec(s: SessionView) -> (SessionView, Action) {
    if s.buffer.len() == 0 {
        (SessionView { editing: false, buffer: Seq::<char>::empty(), ..s }, Action::CloseDraft)
    } else {
        let store2 = match s.tab {
            Tabs::Done => TodoView {
                pending: s.store.pending,
                completed: s.store.completed.push(s.buffer),
            },
            _ => TodoView {
                pending: s.store.pending.push(s.buffer),
                completed: s.store.completed,
            },
        };
        (
            SessionView { store: store2, editing: false, buffer: Seq::<char>::empty(), ..s },
            Action::CommitDraft,
        )
    }
}

/// One step of the input state machine: the state after `key` and the action
/// the shell must perform.  In navigation mode `q` quits, `j`/`k` move the
/// selection with clamping, `s` saves, `a` opens the draft, `x` toggles the
/// selected task and the tab key cycles the tab and resets the selection; in
/// line-edit mode characters extend the buffer (uppercased under shift),
/// backspace erases one character, control-backspace erases a word, escape
/// discards the draft and enter commits it.
pub open spec fn step_spec(s: SessionView, key: Key) -> (SessionView, Action) {
    if s.editing {
        match key {
            Key::Esc => (
                SessionView { editing: false, buffer: Seq::<char>::empty(), ..s },
                Action::CloseDraft,
            ),
            Key::Enter => commit_spec(s),
            Key::Backspace => if s.buffer.len() > 0 {
                (SessionView { buffer: s.buffer.drop_last(), ..s }, Action::RedrawDraft)
            } else {
                (s, Action::Idle)
            },
            Key::CtrlBackspace => if s.buffer.len() > 0 {
                (SessionView { buffer: word_erase_spec(s.buffer), ..s }, Action::RedrawDraft)
            } else {
                (s, Action::Idle)
            },
            Key::Char(c) => (
                SessionView { buffer: s.buffer.push(c), ..s },
                Action::RedrawDraft,
            ),
            Key::ShiftChar(c) => (
                SessionView { buffer: s.buffer.push(ascii_upper(c)), ..s },
                Action::RedrawDraft,
            ),
            Key::CycleTab => (s, Action::Idle),
        }
    } else {
        match key {
            Key::Char(c) => if c == 'q' {
                (s, Action::Quit)
            } else if c == 'j' {
                (
                    SessionView { row: nav_down(s.row, visible_spec(s.store, s.tab).len()), ..s },
                    Action::RedrawList,
                )
            } else if c == 'k' {
                (SessionView { row: nav_up(s.row), ..s }, Action::RedrawList)
            } else if c == 's' {
                (s, Action::Save)
            } else if c == 'a' {
                (SessionView { editing: true, ..s }, Action::OpenDraft)
            } else if c == 'x' {
                toggle_spec(s)
            } else {
                (s, Action::Idle)
            },
            Key::CycleTab => (
                SessionView { tab: next_tab(s.tab), row: 0, ..s },
                Action::RedrawListAndTabs,
            ),
            _ => (s, Action::Idle),
        }
    }
}

/// Tab cycle closure at the session level: a cycle-tab step advances the tab
/// one place and resets the selected row to 0, and three such steps return
/// to the starting tab.
pub proof fn lemma_session_tab_cycle(s: SessionView)
    requires
        !s.editing,
    ensures
        step_spec(s, Key::CycleTab).0.tab == next_tab(s.tab),
        step_spec(s, Key::CycleTab).0.row == 0,
        step_spec(
            step_spec(step_spec(s, Key::CycleTab).0, Key::CycleTab).0,
            Key::CycleTab,
        ).0.tab == s.tab,
{
}

/// One editor session: the store, the view state, the visible list the
/// renderer draws, and the line-edit mode with its buffer.
pub struct Session {
    pub todo: Todo,
    pub ui: UI,
    pub current_list: Vec<String>,
    pub editing: bool,
    pub buffer: String,
}

impl View for Session {
    type V = SessionView;

    open spec fn view(&self) -> SessionView {
        SessionView {
            store: self.todo@,
            tab: self.ui.current_tab,
            row: self.ui.position as nat,
            editing: self.editing,
            buffer: self.buffer@,
        }
    }
}

impl Session {
    /// The session invariant: the cached visible list is exactly the
    /// projection of the store for the active tab, the selected row is in
    /// bounds (0 on an empty list), and outside line-edit mode the buffer is
    /// empty.
    pub open spec fn wf(&self) -> bool {
        &&& self.current_list.deep_view() == visible_spec(self.todo@, self.ui.current_tab)
        &&& pos_in_bounds(self.ui.position as nat, self.current_list@.len() as nat)
        &&& (!self.editing ==> self.buffer@.len() == 0)
    }

    /// A fresh session over `todo`: navigation mode, `Todo` tab, first row.
    pub fn new(todo: Todo) -> (s: Session)
        ensures
            s.wf(),
            s@.store == todo@,
            s@.tab == Tabs::Todo,
            s@.row == 0,
            s@.editing == false,
            s@.buffer == Seq::<char>::empty(),
    {
        let ui = UI::new();
        let current_list = todo.visible(Tabs::Todo);
        Session { todo, ui, current_list, editing: false, buffer: String::new() }
    }

    fn toggle_current(&mut self) -> (a: Action)
        requires
            old(self).wf(),
        ensures
            final(self).wf(),
            final(self)@ == toggle_spec(old(self)@).0,
            a == toggle_spec(old(self)@).1,
    {
        match self.ui.current_tab {
            Tabs::Todo => {
                match self.todo.mark_as_done(self.ui.position) {
                    Ok(_) => {
                        self.ui.set_position(0);
                        self.current_list = self.todo.visible(self.ui.current_tab);
                        Action::RedrawList
                    },
                    Err(_) => Action::Idle,
                }
            },
            Tabs::Done => {
                match self.todo.mark_as_todo(self.ui.position) {
                    Ok(_) => {
                        self.ui.set_position(0);
                        self.current_list = self.todo.visible(self.ui.current_tab);
                        Action::RedrawList
                    },
                    Err(_) => Action::Idle,
                }
            },
            Tabs::All => {
                match self.todo.all_to_single(self.ui.position) {
                    Ok((local, Tabs::Todo)) => {
                        match self.todo.mark_as_done(local) {
                            Ok(_) => {
                                self.ui.set_position(0);
                                self.current_list = self.todo.visible(self.ui.current_tab);
                                Action::RedrawList
                            },
                            Err(_) => {
                                proof {
                                    assert(false);
                                }
                                Action::Idle
                            },
                        }
                    },
                    Ok((local, Tabs::Done)) => {
                        match self.todo.mark_as_todo(local) {
                            Ok(_) => {
                                self.ui.set_position(0);
                                self.current_list = self.todo.visible(self.ui.current_tab);
                                Action::RedrawList
                            },
                            Err(_) => {
                                proof {
                                    assert(false);
                                }
                                Action::Idle
                            },
                        }
                    },
                    Ok((_, Tabs::All)) => {
                        proof {
                            assert(false);
                        }
                        Action::Idle
                    },
                    Err(_) => Action::Idle,
                }
            },
        }
    }

    /// Applies one key event to the session and reports the action the shell
    /// must perform.  The step follows [`step_spec`] exactly; in particular
    /// an out-of-range toggle is a no-op, and committing an empty buffer
    /// adds nothing and merely closes the draft.
    pub fn handle_event(&mut self, key: Key) -> (a: Action)
        requires
            old(self).wf(),
        ensures
            final(self).wf(),
            final(self)@ == step_spec(old(self)@, key).0,
            a == step_spec(old(self)@, key).1,
    {
        if self.editing {
            match key {
                Key::Esc => {
                    self.editing = false;
                    self.buffer = String::new();
                    Action::CloseDraft
                },
                Key::Enter => {
                    if self.buffer.as_str().is_empty() {
                        self.editing = false;
                        self.buffer = String::new();
                        Action::CloseDraft
                    } else {
                        let text = self.buffer.clone();
                        match self.ui.current_tab {
                            Tabs::Done => self.todo.add_to_done(text),
                            _ => self.todo.add_to_todo(text),
                        }
                        self.buffer = String::new();
                        self.editing = false;
                        self.current_list = self.todo.visible(self.ui.current_tab);
                        proof {
                            assert(self.current_list.deep_view().len() == old(
                                self,
                            ).current_list.deep_view().len() + 1);
                            assert(self.current_list@.len() == self.current_list.deep_view().len());
                            assert(old(self).current_list@.len() == old(
                                self,
                            ).current_list.deep_view().len());
                        }
                        Action::CommitDraft
                    }
                },
                Key::Backspace => {
                    if !self.buffer.as_str().is_empty() {
                        pop_char(&mut self.buffer);
                        Action::RedrawDraft
                    } else {
                        Action::Idle
                    }
                },
                Key::CtrlBackspace => {
                    if !self.buffer.as_str().is_empty() {
                        let nb = word_erase(self.buffer.as_str());
                        self.buffer = nb;
                        Action::RedrawDraft
                    } else {
                        Action::Idle
                    }
                },
                Key::Char(c) => {
                    push_char(&mut self.buffer, c);
                    Action::RedrawDraft
                },
                Key::ShiftChar(c) => {
                    push_char(&mut self.buffer, to_upper_ascii(c));
                    Action::RedrawDraft
                },
                Key::CycleTab => Action::Idle,
            }
        } else {
            match key {
                Key::Char(c) => {
                    if c == 'q' {
                        Action::Quit
                    } else if c == 'j' {
                        let len = self.current_list.len();
                        self.ui.handle_input(Input::Down, len);
                        Action::RedrawList
                    } else if c == 'k' {
                        let len = self.current_list.len();
                        self.ui.handle_input(Input::Up, len);
                        Action::RedrawList
                    } else if c == 's' {
                        Action::Save
                    } else if c == 'a' {
                        self.editing = true;
                        Action::OpenDraft
                    } else if c == 'x' {
                        self.toggle_current()
                    } else {
                        Action::Idle
                    }
                },
                Key::CycleTab => {
                    self.ui.cycle_tabs();
                    self.ui.set_position(0);
                    self.current_list = self.todo.visible(self.ui.current_tab);
                    Action::RedrawListAndTabs
                },
                _ => Action::Idle,
            }
        }
    }
}

/// The commands that realize `action` in the state `s` left by the step that
/// produced it.  The draft row sits at screen row `len(visible) + 2`,
/// directly below the last visible row; the draft text starts at column 5,
/// after its checkbox marker.
pub open spec fn draw_spec(s: SessionView, action: Action) -> Seq<DrawCmdV> {
    let items = visible_spec(s.store, s.tab);
    let draft_row = (items.len() + 2) as int;
    match action {
        Action::Idle => Seq::<DrawCmdV>::empty(),
        Action::Quit => Seq::<DrawCmdV>::empty(),
        Action::Save => Seq::<DrawCmdV>::empty(),
        Action::RedrawList => render_list_spec(items, s.row as int),
        Action::RedrawListAndTabs => render_list_spec(items, s.row as int) + render_tabs_spec(
            s.tab,
        ),
        Action::OpenDraft => seq![
            DrawCmdV::MoveTo(1, draft_row),
            DrawCmdV::Print(("[ ]")@),
            DrawCmdV::MoveTo(5, draft_row),
            DrawCmdV::ShowCursor,
            DrawCmdV::BarCursor,
        ],
        Action::RedrawDraft => seq![
            DrawCmdV::MoveTo(0, draft_row),
            DrawCmdV::ClearFromCursorDown,
            DrawCmdV::MoveTo(1, draft_row),
            DrawCmdV::Print(("[ ]")@),
            DrawCmdV::MoveTo(5, draft_row),
            DrawCmdV::Print(s.buffer),
        ],
        Action::CloseDraft => seq![
            DrawCmdV::HideCursor,
            DrawCmdV::MoveTo(0, draft_row),
            DrawCmdV::ClearFromCursorDown,
        ],
        Action::CommitDraft => seq![
            DrawCmdV::HideCursor,
            DrawCmdV::MoveTo(0, draft_row),
            DrawCmdV::ClearFromCursorDown,
        ] + render_list_spec(items, s.row as int),
    }
}

impl Session {
    /// The commands that realize `action` against the current state: what
    /// the shell executes after each step.
    pub fn draw_commands(&self, action: Action) -> (r: Vec<DrawCmd>)
        requires
            self.wf(),
            self.current_list@.len() + 2 <= usize::MAX,
        ensures
            r.deep_view() == draw_spec(self@, action),
    {
        let draft_row = self.current_list.len() + 2;
        proof {
            assert(self.current_list@.len() == self.current_list.deep_view().len());
        }
        match action {
            Action::Idle => {
                let out: Vec<DrawCmd> = Vec::new();
                proof {
                    assert(out.deep_view() =~= Seq::<DrawCmdV>::empty());
                }
                out
            },
            Action::Quit => {
                let out: Vec<DrawCmd> = Vec::new();
                proof {
                    assert(out.deep_view() =~= Seq::<DrawCmdV>::empty());
                }
                out
            },
            Action::Save => {
                let out: Vec<DrawCmd> = Vec::new();
                proof {
                    assert(out.deep_view() =~= Seq::<DrawCmdV>::empty());
                }
                out
            },
            Action::RedrawList => self.ui.render_list(&self.current_list),
            Action::RedrawListAndTabs => {
                let mut out = self.ui.render_list(&self.current_list);
                let mut tabs = self.ui.render_tabs();
                let ghost a = out.deep_view();
                let ghost b = tabs.deep_view();
                out.append(&mut tabs);
                proof {
                    assert(out.deep_view() =~= a + b);
                }
                out
            },
            Action::OpenDraft => {
                let mut out: Vec<DrawCmd> = Vec::new();
                out.push(DrawCmd::MoveTo(1, draft_row));
                out.push(DrawCmd::Print("[ ]".to_owned()));
                out.push(DrawCmd::MoveTo(5, draft_row));
                out.push(DrawCmd::ShowCursor);
                out.push(DrawCmd::BarCursor);
                proof {
                    assert(out.deep_view() =~= draw_spec(self@, action));
                }
                out
            },
            Action::RedrawDraft => {
                let mut out: Vec<DrawCmd> = Vec::new();
                out.push(DrawCmd::MoveTo(0, draft_row));
                out.push(DrawCmd::ClearFromCursorDown);
                out.push(DrawCmd::MoveTo(1, draft_row));
                out.push(DrawCmd::Print("[ ]".to_owned()));
                out.push(DrawCmd::MoveTo(5, draft_row));
                out.push(DrawCmd::Print(self.buffer.clone()));
                proof {
                    assert(out.deep_view() =~= draw_spec(self@, action));
                }
                out
            },
            Action::CloseDraft => {
                let mut out: Vec<DrawCmd> = Vec::new();
                out.push(DrawCmd::HideCursor);
                out.push(DrawCmd::MoveTo(0, draft_row));
                out.push(DrawCmd::ClearFromCursorDown);
                proof {
                    assert(out.deep_view() =~= draw_spec(self@, action));
                }
                out
            },
            Action::CommitDraft => {
                let mut out: Vec<DrawCmd> = Vec::new();
                out.push(DrawCmd::HideCursor);
                out.push(DrawCmd::MoveTo(0, draft_row));
                out.push(DrawCmd::ClearFromCursorDown);
                let ghost a = out.deep_view();
                let mut lst = self.ui.render_list(&self.current_list);
                let ghost b = lst.deep_view();
                out.append(&mut lst);
                proof {
                    assert(out.deep_view() =~= a + b);
                    assert(a =~= seq![
                        DrawCmdV::HideCursor,
                        DrawCmdV::MoveTo(0, draft_row as int),
                        DrawCmdV::ClearFromCursorDown,
                    ]);
                }
                out
            },
        }
    }
}

/// Relies on String::pop: removes and returns the last character, or returns
/// None and leaves the string unchanged when it is empty.
#[verifier::external_body]
fn pop_char(s: &mut String) -> (r: Option<char>)
    ensures
        old(s)@.len() == 0 ==> r is None && final(s)@ == old(s)@,
        old(s)@.len() > 0 ==> r == Some::<char>(old(s)@.last()) && final(s)@ == old(s)@.drop_last(),
{
    s.pop()
}

} // verus!

