//! View state: the active tab, the selected row, and the navigation rules
//! that keep the selection inside the visible list.

use vstd::prelude::*;

use crate::draw::{render_list_spec, render_tabs_spec, row_block, rows_cmds, DrawCmd, DrawCmdV};

verus! {

/// A navigation-mode command for the view state.
pub enum Input {
    Down,
    Up,
    Cycle,
    Edit,
    Insert,
    Append,
}

/// The filter applied to the task store for display.
#[derive(PartialEq, Eq, Structural, Clone, Copy, Debug)]
pub enum Tabs {
    All,
    Todo,
    Done,
}

impl Tabs {
    /// The tab at `index` in the tab bar's order: `All`, `Todo`, `Done`.
    pub fn from_index(index: usize) -> (t: Tabs)
        requires
            index < 3,
        ensures
            t == (if index == 0 {
                Tabs::All
            } else if index == 1 {
                Tabs::Todo
            } else {
                Tabs::Done
            }),
    {
        if index == 0 {
            Tabs::All
        } else if index == 1 {
            Tabs::Todo
        } else {
            Tabs::Done
        }
    }
}

/// The tab that follows `t` in the cycle `All -> Todo -> Done -> All`.
pub open spec fn next_tab(t: Tabs) -> Tabs {
    match t {
        Tabs::All => Tabs::Todo,
        Tabs::Todo => Tabs::Done,
        Tabs::Done => Tabs::All,
    }
}

/// The row selected after a move-down on a visible list of length `len`:
/// one past the current row, clamped to the last row (0 when the list is empty).
pub open spec fn nav_down(pos: nat, len: nat) -> nat {
    if pos + 1 < len {
        pos + 1
    } else if len > 0 {
        (len - 1) as nat
    } else {
        0
    }
}

/// The row selected after a move-up: one before the current row, clamped to 0.
pub open spec fn nav_up(pos: nat) -> nat {
    if pos > 0 {
        (pos - 1) as nat
    } else {
        0
    }
}

/// The selection invariant: the selected row is inside the visible list,
/// or 0 when the list is empty.
pub open spec fn pos_in_bounds(pos: nat, len: nat) -> bool {
    if len == 0 {
        pos == 0
    } else {
        pos < len
    }
}

/// Navigation clamp: from any in-bounds row, move-down never exceeds the last
/// row and move-up never goes below 0, so any number of repeated moves stays
/// in bounds.
pub proof fn lemma_navigation_clamp(pos: nat, len: nat)
    requires
        pos_in_bounds(pos, len),
    ensures
        pos_in_bounds(nav_down(pos, len), len),
        pos_in_bounds(nav_up(pos), len),
        len > 0 ==> nav_down(pos, len) <= len - 1,
        nav_up(pos) <= pos,
{
}

/// Tab cycle closure: three cycle-tab operations return to the starting tab.
pub proof fn lemma_tab_cycle_closure(t: Tabs)
    ensures
        next_tab(next_tab(next_tab(t))) == t,
{
}

/// The view state: active tab and selected row of the visible list.
pub struct UI {
    pub current_tab: Tabs,
    pub position: usize,
}

impl UI {
    /// A fresh view state: the `Todo` tab with the first row selected.
    pub fn new() -> (ui: UI)
        ensures
            ui.current_tab == Tabs::Todo,
            ui.position == 0,
    {
        UI { current_tab: Tabs::Todo, position: 0 }
    }

    /// Advances the tab along the cycle `All -> Todo -> Done -> All`.
    /// The selected row is left as it is; callers reset it separately.
    pub fn cycle_tabs(&mut self)
        ensures
            final(self).current_tab == next_tab(old(self).current_tab),
            final(self).position == old(self).position,
    {
        self.current_tab = match self.current_tab {
            Tabs::All => Tabs::Todo,
            Tabs::Todo => Tabs::Done,
            Tabs::Done => Tabs::All,
        }
    }

    /// Sets the active tab.
    pub fn change_tab(&mut self, tab: Tabs)
        ensures
            final(self).current_tab == tab,
            final(self).position == old(self).position,
    {
        self.current_tab = tab;
    }

    /// Sets the selected row.
    pub fn set_position(&mut self, pos: usize)
        ensures
            final(self).current_tab == old(self).current_tab,
            final(self).position == pos,
    {
        self.position = pos;
    }

    /// Applies a navigation command against a visible list of length
    /// `visible_len`: move-down clamps at the last row, move-up clamps at 0,
    /// and every other command leaves the selection unchanged.
    pub fn handle_input(&mut self, input: Input, visible_len: usize)
        ensures
            final(self).current_tab == old(self).current_tab,
            final(self).position == match input {
                Input::Down => nav_down(old(self).position as nat, visible_len as nat),
                Input::Up => nav_up(old(self).position as nat),
                _ => old(self).position as nat,
            },
    {
        match input {
            Input::Up => {
                if self.position > 0 {
                    self.position = self.position - 1;
                }
            },
            Input::Down => {
                if visible_len == 0 {
                    self.position = 0;
                } else if self.position < visible_len - 1 {
                    self.position = self.position + 1;
                } else {
                    self.position = visible_len - 1;
                }
            },
            _ => {},
        }
    }

    /// The commands of a full tab-bar redraw for the active tab.
    pub fn render_tabs(&self) -> (r: Vec<DrawCmd>)
        ensures
            r.deep_view() == render_tabs_spec(self.current_tab),
    {
        let mut out: Vec<DrawCmd> = Vec::new();
        out.push(DrawCmd::MoveTo(0, 1));
        out.push(DrawCmd::ClearFromCursorUp);
        if self.current_tab == Tabs::All {
            out.push(DrawCmd::SetHighlight);
        }
        out.push(DrawCmd::MoveTo(1, 0));
        out.push(DrawCmd::Print("All".to_owned()));
        if self.current_tab == Tabs::All {
            out.push(DrawCmd::ResetStyle);
        }
        if self.current_tab == Tabs::Todo {
            out.push(DrawCmd::SetHighlight);
        }
        out.push(DrawCmd::MoveTo(7, 0));
        out.push(DrawCmd::Print("Todo".to_owned()));
        if self.current_tab == Tabs::Todo {
            out.push(DrawCmd::ResetStyle);
        }
        if self.current_tab == Tabs::Done {
            out.push(DrawCmd::SetHighlight);
        }
        out.push(DrawCmd::MoveTo(13, 0));
        out.push(DrawCmd::Print(" Done".to_owned()));
        if self.current_tab == Tabs::Done {
            out.push(DrawCmd::ResetStyle);
        }
        proof {
            assert(out.deep_view() =~= render_tabs_spec(self.current_tab));
        }
        out
    }

    /// The commands of a full list-region redraw: clear from row 1 downward,
    /// then print each row, highlighting exactly the selected one.
    pub fn render_list(&self, list: &Vec<String>) -> (r: Vec<DrawCmd>)
        requires
            list@.len() + 2 <= usize::MAX,
        ensures
            r.deep_view() == render_list_spec(list.deep_view(), self.position as int),
    {
        let ghost items = list.deep_view();
        let ghost p = self.position as int;
        let mut out: Vec<DrawCmd> = Vec::new();
        out.push(DrawCmd::MoveTo(0, 1));
        out.push(DrawCmd::ClearFromCursorDown);
        proof {
            assert(out.deep_view() =~= seq![
                DrawCmdV::MoveTo(0, 1),
                DrawCmdV::ClearFromCursorDown,
            ]);
        }
        let mut i: usize = 0;
        while i < list.len()
            invariant
                list@.len() + 2 <= usize::MAX,
                i <= list.len(),
                items == list.deep_view(),
                p == self.position as int,
                out.deep_view() + rows_cmds(items, p, i as int) == render_list_spec(items, p),
            decreases list.len() - i,
        {
            let ghost pre = out.deep_view();
            let hl = self.position == i;
            if hl {
                out.push(DrawCmd::SetHighlight);
            }
            out.push(DrawCmd::MoveTo(1, i + 2));
            out.push(DrawCmd::Print(list[i].clone()));
            if hl {
                out.push(DrawCmd::ResetStyle);
            }
            proof {
                assert(out.deep_view() =~= pre + row_block(items[i as int], i as int, p == i));
                assert(pre + (row_block(items[i as int], i as int, p == i) + rows_cmds(
                    items,
                    p,
                    i as int + 1,
                )) =~= (pre + row_block(items[i as int], i as int, p == i)) + rows_cmds(
                    items,
                    p,
                    i as int + 1,
                ));
            }
            i = i + 1;
        }
        proof {
            assert(rows_cmds(items, p, list.len() as int) =~= Seq::<DrawCmdV>::empty());
            assert(out.deep_view() + Seq::<DrawCmdV>::empty() =~= out.deep_view());
        }
        out
    }
}

} // verus!
