//! Laws about whole sequences of operations: vertical movement keeps the
//! cursor and the scroll window inside the buffer, and never disturbs the
//! column target (the "sticky column" behavior).

use vstd::prelude::*;

use crate::editor::EdView;
use crate::editor::inv;
use crate::editor::lemma_down_keeps_inv;
use crate::editor::lemma_up_keeps_inv;
use crate::editor::move_down_tr;
use crate::editor::move_up_tr;
use crate::editor::normalize_tr;
use crate::editor::scroll_bound;

verus! {

/// One vertical cursor move, by any distance.
pub enum RowMove {
    Up(nat),
    Down(nat),
}

/// The state after applying the moves in order.
pub open spec fn apply_moves(s: EdView, ms: Seq<RowMove>) -> EdView
    decreases ms.len(),
{
    if ms.len() == 0 {
        s
    } else {
        let s1 = match ms[0] {
            RowMove::Up(n) => move_up_tr(s, n),
            RowMove::Down(n) => move_down_tr(s, n),
        };
        apply_moves(s1, ms.drop_first())
    }
}

/// Vertical moves touch only the row coordinates: buffer, screen size and
/// both column coordinates come through any sequence of them unchanged.
pub proof fn lemma_moves_change_rows_only(s: EdView, ms: Seq<RowMove>)
    ensures
        apply_moves(s, ms).lines == s.lines,
        apply_moves(s, ms).screen_cols == s.screen_cols,
        apply_moves(s, ms).screen_rows == s.screen_rows,
        apply_moves(s, ms).cursor_col == s.cursor_col,
        apply_moves(s, ms).vis_col == s.vis_col,
    decreases ms.len(),
{
    if ms.len() > 0 {
        let s1 = match ms[0] {
            RowMove::Up(n) => move_up_tr(s, n),
            RowMove::Down(n) => move_down_tr(s, n),
        };
        lemma_moves_change_rows_only(s1, ms.drop_first());
    }
}

/// Law: under any sequence of vertical moves, a well-formed controller
/// stays well-formed — the cursor row stays inside the buffer — and,
/// whenever the buffer holds at least one screenful of lines, the window
/// never scrolls past the point where the last screen row would show
/// content beyond the last line.
pub proof fn lemma_moves_keep_bounds(s: EdView, ms: Seq<RowMove>)
    requires
        inv(s),
        scroll_bound(s),
    ensures
        inv(apply_moves(s, ms)),
        scroll_bound(apply_moves(s, ms)),
        apply_moves(s, ms).cur_row < s.lines.len(),
    decreases ms.len(),
{
    lemma_moves_change_rows_only(s, ms);
    if ms.len() > 0 {
        match ms[0] {
            RowMove::Up(n) => {
                lemma_up_keeps_inv(s, n);
                lemma_moves_keep_bounds(move_up_tr(s, n), ms.drop_first());
            },
            RowMove::Down(n) => {
                lemma_down_keeps_inv(s, n);
                lemma_moves_keep_bounds(move_down_tr(s, n), ms.drop_first());
            },
        }
    }
}

/// Law (sticky column): vertical movement never changes the column target,
/// so normalizing after any sequence of moves renders the original target
/// again, bounded only by the new line's own length.
pub proof fn lemma_sticky_column(s: EdView, ms: Seq<RowMove>)
    ensures
        apply_moves(s, ms).cursor_col == s.cursor_col,
        ({
            let t = apply_moves(s, ms);
            t.cur_row < t.lines.len() ==> normalize_tr(t).vis_col == (if s.cursor_col <= t.lines[
                t.cur_row as int
            ].len() {
                s.cursor_col
            } else {
                t.lines[t.cur_row as int].len()
            })
        }),
{
    lemma_moves_change_rows_only(s, ms);
}

} // verus!
