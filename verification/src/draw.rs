//! The drawing command model.  Every visual artifact of the editor is
//! derived, in verified code, as a sequence of primitive drawing commands;
//! the shell only forwards them to the terminal.

use vstd::prelude::*;

use crate::ui::Tabs;

verus! {

/// A primitive drawing command for the terminal collaborator.  Coordinates
/// are (column, row), 0-based from the top-left corner.
#[derive(PartialEq, Eq, Clone, Debug)]
pub enum DrawCmd {
    /// Move the cursor to (column, row).
    MoveTo(usize, usize),
    /// Print text at the cursor.
    Print(String),
    /// Switch to inverse video (highlight) for what follows.
    SetHighlight,
    /// Reset colours to the default.
    ResetStyle,
    /// Clear everything from the cursor row downward.
    ClearFromCursorDown,
    /// Clear everything from the cursor row upward.
    ClearFromCursorUp,
    /// Make the cursor visible.
    ShowCursor,
    /// Hide the cursor.
    HideCursor,
    /// Give the cursor the blinking-bar shape.
    BarCursor,
}

/// The model of a drawing command: as [`DrawCmd`], with the printed text a
/// character sequence and coordinates unbounded.
pub enum DrawCmdV {
    MoveTo(int, int),
    Print(Seq<char>),
    SetHighlight,
    ResetStyle,
    ClearFromCursorDown,
    ClearFromCursorUp,
    ShowCursor,
    HideCursor,
    BarCursor,
}

impl View for DrawCmd {
    type V = DrawCmdV;

    open spec fn view(&self) -> DrawCmdV {
        match self {
            DrawCmd::MoveTo(x, y) => DrawCmdV::MoveTo(*x as int, *y as int),
            DrawCmd::Print(s) => DrawCmdV::Print(s@),
            DrawCmd::SetHighlight => DrawCmdV::SetHighlight,
            DrawCmd::ResetStyle => DrawCmdV::ResetStyle,
            DrawCmd::ClearFromCursorDown => DrawCmdV::ClearFromCursorDown,
            DrawCmd::ClearFromCursorUp => DrawCmdV::ClearFromCursorUp,
            DrawCmd::ShowCursor => DrawCmdV::ShowCursor,
            DrawCmd::HideCursor => DrawCmdV::HideCursor,
            DrawCmd::BarCursor => DrawCmdV::BarCursor,
        }
    }
}

impl DeepView for DrawCmd {
    type V = DrawCmdV;

    open spec fn deep_view(&self) -> DrawCmdV {
        self.view()
    }
}

/// The commands of one tab label: the active tab's label is drawn
/// highlighted, with the style reset directly afterwards so the highlight
/// cannot bleed into what is drawn next.
pub open spec fn tab_block(label: Seq<char>, col: int, selected: bool) -> Seq<DrawCmdV> {
    if selected {
        seq![
            DrawCmdV::SetHighlight,
            DrawCmdV::MoveTo(col, 0),
            DrawCmdV::Print(label),
            DrawCmdV::ResetStyle,
        ]
    } else {
        seq![DrawCmdV::MoveTo(col, 0), DrawCmdV::Print(label)]
    }
}

/// The full redraw of the tab bar on row 0: clear the header region, then
/// draw the three labels, highlighting exactly the active tab.
pub open spec fn render_tabs_spec(tab: Tabs) -> Seq<DrawCmdV> {
    seq![DrawCmdV::MoveTo(0, 1), DrawCmdV::ClearFromCursorUp] + tab_block(
        ("All")@,
        1,
        tab == Tabs::All,
    ) + tab_block(("Todo")@, 7, tab == Tabs::Todo) + tab_block((" Done")@, 13, tab == Tabs::Done)
}

/// The commands of one list row: the row at index `i` is printed at screen
/// row `i + 2` (rows 0 and 1 belong to the tab bar), highlighted exactly
/// when it is the selected row, with the style reset directly afterwards.
pub open spec fn row_block(item: Seq<char>, i: int, selected: bool) -> Seq<DrawCmdV> {
    if selected {
        seq![
            DrawCmdV::SetHighlight,
            DrawCmdV::MoveTo(1, i + 2),
            DrawCmdV::Print(item),
            DrawCmdV::ResetStyle,
        ]
    } else {
        seq![DrawCmdV::MoveTo(1, i + 2), DrawCmdV::Print(item)]
    }
}

/// The commands of the rows from index `i` onward.
pub open spec fn rows_cmds(items: Seq<Seq<char>>, pos: int, i: int) -> Seq<DrawCmdV>
    decreases items.len() - i,
{
    if i < 0 || i >= items.len() {
        Seq::<DrawCmdV>::empty()
    } else {
        row_block(items[i], i, pos == i) + rows_cmds(items, pos, i + 1)
    }
}

/// The full redraw of the list region: clear everything from row 1 downward,
/// then draw every visible row in order.
pub open spec fn render_list_spec(items: Seq<Seq<char>>, pos: int) -> Seq<DrawCmdV> {
    seq![DrawCmdV::MoveTo(0, 1), DrawCmdV::ClearFromCursorDown] + rows_cmds(items, pos, 0)
}

/// The number of highlight-on commands in `cmds`.
pub open spec fn count_highlights(cmds: Seq<DrawCmdV>) -> nat
    decreases cmds.len(),
{
    if cmds.len() == 0 {
        0
    } else {
        (if cmds[0] is SetHighlight {
            1nat
        } else {
            0nat
        }) + count_highlights(cmds.drop_first())
    }
}

/// The number of style-reset commands in `cmds`.
pub open spec fn count_resets(cmds: Seq<DrawCmdV>) -> nat
    decreases cmds.len(),
{
    if cmds.len() == 0 {
        0
    } else {
        (if cmds[0] is ResetStyle {
            1nat
        } else {
            0nat
        }) + count_resets(cmds.drop_first())
    }
}

proof fn lemma_counts_concat(a: Seq<DrawCmdV>, b: Seq<DrawCmdV>)
    ensures
        count_highlights(a + b) == count_highlights(a) + count_highlights(b),
        count_resets(a + b) == count_resets(a) + count_resets(b),
    decreases a.len(),
{
    if a.len() == 0 {
        assert(a + b =~= b);
    } else {
        lemma_counts_concat(a.drop_first(), b);
        assert((a + b).drop_first() =~= a.drop_first() + b);
        assert((a + b)[0] == a[0]);
    }
}

proof fn lemma_row_block_counts(item: Seq<char>, i: int, selected: bool)
    ensures
        count_highlights(row_block(item, i, selected)) == if selected {
            1nat
        } else {
            0nat
        },
        count_resets(row_block(item, i, selected)) == if selected {
            1nat
        } else {
            0nat
        },
{
    reveal_with_fuel(count_highlights, 6);
    reveal_with_fuel(count_resets, 6);
    let s = row_block(item, i, selected);
    if selected {
        assert(s.drop_first() =~= seq![
            DrawCmdV::MoveTo(1, i + 2),
            DrawCmdV::Print(item),
            DrawCmdV::ResetStyle,
        ]);
        assert(s.drop_first().drop_first() =~= seq![DrawCmdV::Print(item), DrawCmdV::ResetStyle]);
        assert(s.drop_first().drop_first().drop_first() =~= seq![DrawCmdV::ResetStyle]);
        assert(s.drop_first().drop_first().drop_first().drop_first() =~= Seq::<DrawCmdV>::empty());
    } else {
        assert(s.drop_first() =~= seq![DrawCmdV::Print(item)]);
        assert(s.drop_first().drop_first() =~= Seq::<DrawCmdV>::empty());
    }
}

proof fn lemma_rows_counts(items: Seq<Seq<char>>, pos: int, i: int)
    requires
        0 <= i,
    ensures
        count_highlights(rows_cmds(items, pos, i)) == if i <= pos < items.len() {
            1nat
        } else {
            0nat
        },
        count_resets(rows_cmds(items, pos, i)) == count_highlights(rows_cmds(items, pos, i)),
    decreases items.len() - i,
{
    if i < items.len() {
        lemma_rows_counts(items, pos, i + 1);
        lemma_row_block_counts(items[i], i, pos == i);
        lemma_counts_concat(row_block(items[i], i, pos == i), rows_cmds(items, pos, i + 1));
    }
}

/// Highlight discipline of a full list redraw: the highlight is switched on
/// at most once — exactly once when the selected row lies within the list —
/// and switched on exactly as often as the style is reset, so inverse video
/// cannot bleed into rows drawn after the selected one.
pub proof fn lemma_highlight_reset_discipline(items: Seq<Seq<char>>, pos: int)
    ensures
        count_resets(render_list_spec(items, pos)) == count_highlights(
            render_list_spec(items, pos),
        ),
        count_highlights(render_list_spec(items, pos)) <= 1,
        count_highlights(render_list_spec(items, pos)) == 1 <==> 0 <= pos < items.len(),
{
    reveal_with_fuel(count_highlights, 4);
    reveal_with_fuel(count_resets, 4);
    let head = seq![DrawCmdV::MoveTo(0, 1), DrawCmdV::ClearFromCursorDown];
    assert(head.drop_first() =~= seq![DrawCmdV::ClearFromCursorDown]);
    assert(head.drop_first().drop_first() =~= Seq::<DrawCmdV>::empty());
    assert(count_highlights(head) == 0);
    assert(count_resets(head) == 0);
    lemma_rows_counts(items, pos, 0);
    lemma_counts_concat(head, rows_cmds(items, pos, 0));
}

/// Highlight discipline of a tab-bar redraw: exactly one label — the active
/// tab's — is drawn highlighted, and the style is reset exactly once.
pub proof fn lemma_tab_highlight_discipline(tab: Tabs)
    ensures
        count_highlights(render_tabs_spec(tab)) == 1,
        count_resets(render_tabs_spec(tab)) == 1,
{
    reveal_with_fuel(count_highlights, 6);
    reveal_with_fuel(count_resets, 6);
    let head = seq![DrawCmdV::MoveTo(0, 1), DrawCmdV::ClearFromCursorUp];
    assert(head.drop_first() =~= seq![DrawCmdV::ClearFromCursorUp]);
    assert(head.drop_first().drop_first() =~= Seq::<DrawCmdV>::empty());
    assert(count_highlights(head) == 0);
    assert(count_resets(head) == 0);
    lemma_tab_block_counts(("All")@, 1, tab == Tabs::All);
    lemma_tab_block_counts(("Todo")@, 7, tab == Tabs::Todo);
    lemma_tab_block_counts((" Done")@, 13, tab == Tabs::Done);
    lemma_counts_concat(head, tab_block(("All")@, 1, tab == Tabs::All));
    lemma_counts_concat(
        head + tab_block(("All")@, 1, tab == Tabs::All),
        tab_block(("Todo")@, 7, tab == Tabs::Todo),
    );
    lemma_counts_concat(
        head + tab_block(("All")@, 1, tab == Tabs::All) + tab_block(
            ("Todo")@,
            7,
            tab == Tabs::Todo,
        ),
        tab_block((" Done")@, 13, tab == Tabs::Done),
    );
}

proof fn lemma_tab_block_counts(label: Seq<char>, col: int, selected: bool)
    ensures
        count_highlights(tab_block(label, col, selected)) == if selected {
            1nat
        } else {
            0nat
        },
        count_resets(tab_block(label, col, selected)) == if selected {
            1nat
        } else {
            0nat
        },
{
    reveal_with_fuel(count_highlights, 6);
    reveal_with_fuel(count_resets, 6);
    let s = tab_block(label, col, selected);
    if selected {
        assert(s.drop_first() =~= seq![
            DrawCmdV::MoveTo(col, 0),
            DrawCmdV::Print(label),
            DrawCmdV::ResetStyle,
        ]);
        assert(s.drop_first().drop_first() =~= seq![DrawCmdV::Print(label), DrawCmdV::ResetStyle]);
        assert(s.drop_first().drop_first().drop_first() =~= seq![DrawCmdV::ResetStyle]);
        assert(s.drop_first().drop_first().drop_first().drop_first() =~= Seq::<DrawCmdV>::empty());
    } else {
        assert(s.drop_first() =~= seq![DrawCmdV::Print(label)]);
        assert(s.drop_first().drop_first() =~= Seq::<DrawCmdV>::empty());
    }
}

} // verus!
