//! Viewport/cursor controller: keeps a screen-sized window, a logical cursor
//! and a vertical scroll offset consistent with the line buffer as the user
//! moves, edits and resizes. Every operation clamps instead of failing.
//!
//! Normalization is deliberately lazy: `resize` only records the new screen
//! size, and the visible column is re-clamped at render time by
//! `normalize_visible_cursor`, never eagerly on each mutation.

use vstd::prelude::*;

use crate::backend::Backend;
use crate::backend::insert_in_line;
use crate::backend::lines_of;

verus! {

/// A column/row pair. One type serves four roles: screen size, logical
/// cursor target, visible (clamped) cursor, and scroll offset.
#[derive(Clone, Copy)]
pub struct Coord {
    pub col: usize,
    pub row: usize,
}

/// Mathematical state of the controller: the buffer's lines plus every
/// coordinate the operations read or write.
pub struct EdView {
    /// The buffer, one sequence of characters per line.
    pub lines: Seq<Seq<char>>,
    /// Screen width in character cells.
    pub screen_cols: nat,
    /// Screen height in rows.
    pub screen_rows: nat,
    /// Unclamped column target the user is reaching for.
    pub cursor_col: nat,
    /// Column actually rendered: the target clamped to the current line.
    pub vis_col: nat,
    /// Screen-relative row of the rendered cursor.
    pub vis_row: nat,
    /// Buffer row shown on the first screen row (vertical scroll position).
    pub off_row: nat,
    /// Buffer row the cursor addresses (absolute index).
    pub cur_row: nat,
}

/// `a - b`, saturating at zero.
pub open spec fn sub0(a: nat, b: nat) -> nat {
    if a <= b {
        0nat
    } else {
        (a - b) as nat
    }
}

/// Controller well-formedness: the cursor row addresses a buffer line, the
/// rendered cursor row never sits below the addressed row, and the scroll
/// offset never leaves the buffer. Established by `new`, preserved by every
/// operation.
pub open spec fn inv(s: EdView) -> bool {
    &&& s.cur_row < s.lines.len()
    &&& s.vis_row <= s.cur_row
    &&& s.off_row <= s.lines.len()
}

/// The window never scrolls past the point where the last screen row would
/// show content beyond the last line — meaningful once the buffer has at
/// least one screenful of lines.
pub open spec fn scroll_bound(s: EdView) -> bool {
    s.screen_rows <= s.lines.len() ==> s.off_row + s.screen_rows <= s.lines.len()
}

/// Moving up by `n`: clamped at row zero; the screen-relative shortfall is
/// taken out of the scroll offset.
pub open spec fn move_up_tr(s: EdView, n: nat) -> EdView {
    let m = if n <= s.cur_row {
        n
    } else {
        s.cur_row
    };
    EdView {
        cur_row: sub0(s.cur_row, m),
        off_row: if s.vis_row < m {
            sub0(s.off_row, sub0(m, s.vis_row))
        } else {
            s.off_row
        },
        vis_row: sub0(s.vis_row, m),
        ..s
    }
}

/// Moving down by `n`: clamped at the last line; overflow past the last
/// screen row is transferred into the scroll offset, which is then clamped
/// so the window never scrolls past the last line.
pub open spec fn move_down_tr(s: EdView, n: nat) -> EdView {
    if s.lines.len() == 0 {
        s
    } else {
        let len = s.lines.len();
        let room = sub0((len - 1) as nat, s.cur_row);
        let m = if n <= room {
            n
        } else {
            room
        };
        let vis2 = (s.vis_row + m) as nat;
        let cap_row = sub0(s.screen_rows, 1);
        let off2 = (s.off_row + sub0(vis2, cap_row)) as nat;
        let off_cap = sub0(len, s.screen_rows);
        EdView {
            cur_row: (s.cur_row + m) as nat,
            vis_row: if vis2 <= cap_row {
                vis2
            } else {
                cap_row
            },
            off_row: if off2 <= off_cap {
                off2
            } else {
                off_cap
            },
            ..s
        }
    }
}

/// Moving left restarts from the rendered column, then saturates at zero.
pub open spec fn move_left_tr(s: EdView, n: nat) -> EdView {
    EdView { cursor_col: sub0(s.vis_col, n), ..s }
}

/// Moving right raises the column target, clamped to the current line's
/// length; a cursor row without a line means no movement.
pub open spec fn move_right_tr(s: EdView, n: nat) -> EdView {
    if s.cur_row < s.lines.len() {
        let line_len = s.lines[s.cur_row as int].len();
        let c2 = (s.cursor_col + n) as nat;
        EdView {
            cursor_col: if c2 <= line_len {
                c2
            } else {
                line_len
            },
            ..s
        }
    } else {
        s
    }
}

/// Render-time column normalization: the rendered column is the target
/// clamped to the current line's length (the "sticky column" snap-back).
pub open spec fn normalize_tr(s: EdView) -> EdView {
    if s.cur_row < s.lines.len() {
        let line_len = s.lines[s.cur_row as int].len();
        EdView {
            vis_col: if s.cursor_col <= line_len {
                s.cursor_col
            } else {
                line_len
            },
            ..s
        }
    } else {
        s
    }
}

/// Typing a character: insert it at the rendered column of the cursor row,
/// then move the column target right by one.
pub open spec fn insert_char_tr(s: EdView, c: char) -> EdView {
    let edited = if s.cur_row < s.lines.len() {
        EdView {
            lines: s.lines.update(
                s.cur_row as int,
                insert_in_line(s.lines[s.cur_row as int], s.vis_col as int, c),
            ),
            ..s
        }
    } else {
        s
    };
    move_right_tr(edited, 1)
}

/// A resize only records the new screen size; re-clamping is deferred to
/// the next render pass.
pub open spec fn resize_tr(s: EdView, cols: nat, rows: nat) -> EdView {
    EdView { screen_cols: cols, screen_rows: rows, ..s }
}

pub proof fn lemma_up_keeps_inv(s: EdView, n: nat)
    requires
        inv(s),
    ensures
        inv(move_up_tr(s, n)),
        scroll_bound(s) ==> scroll_bound(move_up_tr(s, n)),
{
}

pub proof fn lemma_down_keeps_inv(s: EdView, n: nat)
    requires
        inv(s),
    ensures
        inv(move_down_tr(s, n)),
        scroll_bound(move_down_tr(s, n)),
{
}

/// One input event the terminal driver hands to the controller. Exit and
/// unrecognized events never reach the controller.
pub enum EditorEvent {
    /// A printable character was typed.
    Character(char),
    MoveUp,
    MoveDown,
    MoveLeft,
    MoveRight,
    /// The terminal was resized to (columns, rows).
    Resize(usize, usize),
}

/// What one event does to the controller state.
pub open spec fn step(s: EdView, e: EditorEvent) -> EdView {
    match e {
        EditorEvent::Character(c) => insert_char_tr(s, c),
        EditorEvent::MoveUp => move_up_tr(s, 1),
        EditorEvent::MoveDown => move_down_tr(s, 1),
        EditorEvent::MoveLeft => move_left_tr(s, 1),
        EditorEvent::MoveRight => move_right_tr(s, 1),
        EditorEvent::Resize(cols, rows) => resize_tr(s, cols as nat, rows as nat),
    }
}

/// The draw instructions for one render pass: for each screen row either a
/// line's text (drawn, then cleared to end of line) or nothing (a bare
/// clear), followed by the cursor's screen position.
pub struct RenderPlan {
    /// One entry per screen row, top to bottom.
    pub rows: Vec<Option<Vec<char>>>,
    /// Screen column to place the cursor at.
    pub cursor_col: usize,
    /// Screen row to place the cursor at.
    pub cursor_row: usize,
}

/// The controller: owns the buffer, the screen geometry, the cursor in its
/// raw and rendered forms, and the scroll offset.
pub struct Editor {
    backend: Backend,
    screen_size: Coord,
    visible_cursor: Coord,
    cursor: Coord,
    offset: Coord,
    current_row: usize,
}

impl View for Editor {
    type V = EdView;

    closed spec fn view(&self) -> EdView {
        EdView {
            lines: self.backend@,
            screen_cols: self.screen_size.col as nat,
            screen_rows: self.screen_size.row as nat,
            cursor_col: self.cursor.col as nat,
            vis_col: self.visible_cursor.col as nat,
            vis_row: self.visible_cursor.row as nat,
            off_row: self.offset.row as nat,
            cur_row: self.current_row as nat,
        }
    }
}

impl Editor {
    /// Controller well-formedness; see [`inv`].
    pub open spec fn wf(&self) -> bool {
        inv(self@)
    }

    /// A fresh controller over `data`, cursor at the top-left corner, not
    /// scrolled.
    pub fn new(data: String, screen_size: Coord) -> (r: Editor)
        ensures
            r@.lines == lines_of(data@),
            r@.screen_cols == screen_size.col,
            r@.screen_rows == screen_size.row,
            r@.cursor_col == 0,
            r@.vis_col == 0,
            r@.vis_row == 0,
            r@.off_row == 0,
            r@.cur_row == 0,
            r.wf(),
    {
        Editor {
            backend: Backend::new(data),
            screen_size,
            visible_cursor: Coord { col: 0, row: 0 },
            cursor: Coord { col: 0, row: 0 },
            offset: Coord { col: 0, row: 0 },
            current_row: 0,
        }
    }

    /// Move the cursor up `n` rows, scrolling when the move passes the top
    /// of the window.
    pub fn action_up(&mut self, n: usize)
        ensures
            final(self)@ == move_up_tr(old(self)@, n as nat),
            old(self).wf() ==> final(self).wf(),
    {
        let m = if n <= self.current_row {
            n
        } else {
            self.current_row
        };
        self.current_row = self.current_row - m;
        if self.visible_cursor.row < m {
            let shortfall = m - self.visible_cursor.row;
            self.offset.row = if self.offset.row <= shortfall {
                0
            } else {
                self.offset.row - shortfall
            };
        }
        self.visible_cursor.row = if self.visible_cursor.row <= m {
            0
        } else {
            self.visible_cursor.row - m
        };
        proof {
            if inv(old(self)@) {
                lemma_up_keeps_inv(old(self)@, n as nat);
            }
        }
    }

    /// Move the cursor down `n` rows, scrolling once the move passes the
    /// bottom of the window and never past the last line.
    pub fn action_down(&mut self, n: usize)
        requires
            old(self).wf(),
        ensures
            final(self)@ == move_down_tr(old(self)@, n as nat),
            final(self).wf(),
    {
        let content_row = self.backend.row_length();
        let room = content_row - 1 - self.current_row;
        let m = if n <= room {
            n
        } else {
            room
        };
        self.current_row = self.current_row + m;
        self.visible_cursor.row = self.visible_cursor.row + m;
        let cap_row = if self.screen_size.row == 0 {
            0
        } else {
            self.screen_size.row - 1
        };
        let transfer = if self.visible_cursor.row <= cap_row {
            0
        } else {
            self.visible_cursor.row - cap_row
        };
        let off2 = if self.offset.row > usize::MAX - transfer {
            usize::MAX
        } else {
            self.offset.row + transfer
        };
        let off_cap = if content_row <= self.screen_size.row {
            0
        } else {
            content_row - self.screen_size.row
        };
        self.offset.row = if off2 <= off_cap {
            off2
        } else {
            off_cap
        };
        self.visible_cursor.row = if self.visible_cursor.row <= cap_row {
            self.visible_cursor.row
        } else {
            cap_row
        };
        proof {
            lemma_down_keeps_inv(old(self)@, n as nat);
        }
    }

    /// Move the column target left by `n`, restarting from the rendered
    /// column and saturating at zero.
    pub fn action_left(&mut self, n: usize)
        ensures
            final(self)@ == move_left_tr(old(self)@, n as nat),
            old(self).wf() ==> final(self).wf(),
    {
        self.cursor.col = if self.visible_cursor.col <= n {
            0
        } else {
            self.visible_cursor.col - n
        };
    }

    /// Move the column target right by `n`, clamped to the current line.
    pub fn action_right(&mut self, n: usize)
        ensures
            final(self)@ == move_right_tr(old(self)@, n as nat),
            old(self).wf() ==> final(self).wf(),
    {
        match self.backend.get_row(self.current_row) {
            Some(line) => {
                let line_len = line.len();
                let c2 = if self.cursor.col > usize::MAX - n {
                    usize::MAX
                } else {
                    self.cursor.col + n
                };
                self.cursor.col = if c2 <= line_len {
                    c2
                } else {
                    line_len
                };
            },
            None => {},
        }
    }

    /// Re-clamp the rendered column to the current line; run before every
    /// render. The column target itself is kept, so a longer line later
    /// restores it.
    pub fn normalize_visible_cursor(&mut self)
        ensures
            final(self)@ == normalize_tr(old(self)@),
            old(self).wf() ==> final(self).wf(),
    {
        match self.backend.get_row(self.current_row) {
            Some(line) => {
                let line_len = line.len();
                self.visible_cursor.col = if self.cursor.col <= line_len {
                    self.cursor.col
                } else {
                    line_len
                };
            },
            None => {},
        }
    }

    /// Type `c`: insert it at the rendered column of the cursor row, then
    /// advance the cursor past it.
    pub fn insert_character(&mut self, c: char)
        ensures
            final(self)@ == insert_char_tr(old(self)@, c),
            old(self).wf() ==> final(self).wf(),
    {
        self.backend.insert(self.current_row, self.visible_cursor.col, c);
        self.action_right(1);
    }

    /// Record a new screen size. Deliberately lazy: nothing else is
    /// re-clamped until the next render pass.
    pub fn resize(&mut self, cols: usize, rows: usize)
        ensures
            final(self)@ == resize_tr(old(self)@, cols as nat, rows as nat),
            old(self).wf() ==> final(self).wf(),
    {
        self.screen_size.col = cols;
        self.screen_size.row = rows;
    }

    /// Apply one input event.
    pub fn handle_event(&mut self, e: EditorEvent)
        requires
            old(self).wf(),
        ensures
            final(self)@ == step(old(self)@, e),
            final(self).wf(),
    {
        match e {
            EditorEvent::Character(c) => {
                self.insert_character(c);
            },
            EditorEvent::MoveUp => {
                self.action_up(1);
            },
            EditorEvent::MoveDown => {
                self.action_down(1);
            },
            EditorEvent::MoveLeft => {
                self.action_left(1);
            },
            EditorEvent::MoveRight => {
                self.action_right(1);
            },
            EditorEvent::Resize(cols, rows) => {
                self.resize(cols, rows);
            },
        }
    }

    /// Normalize the rendered column, then emit one draw instruction per
    /// screen row — the line at `offset + row`, or nothing past the buffer's
    /// end — and the cursor's screen position.
    pub fn render_plan(&mut self) -> (p: RenderPlan)
        requires
            old(self).wf(),
        ensures
            final(self)@ == normalize_tr(old(self)@),
            final(self).wf(),
            p.rows@.len() == final(self)@.screen_rows,
            forall|i: int|
                0 <= i < p.rows@.len() ==> {
                    if final(self)@.off_row + i < final(self)@.lines.len() {
                        (#[trigger] p.rows@[i] matches Some(line) && line@ == final(self)@.lines[
                            final(self)@.off_row + i
                        ])
                    } else {
                        p.rows@[i] is None
                    }
                },
            p.cursor_col == final(self)@.vis_col,
            p.cursor_row == final(self)@.vis_row,
    {
        self.normalize_visible_cursor();
        let content_row = self.backend.row_length();
        let mut rows: Vec<Option<Vec<char>>> = Vec::new();
        let mut i: usize = 0;
        while i < self.screen_size.row
            invariant
                i <= self.screen_size.row,
                self.wf(),
                content_row == self@.lines.len(),
                rows@.len() == i,
                forall|k: int|
                    0 <= k < i ==> {
                        if self@.off_row + k < self@.lines.len() {
                            #[trigger] rows@[k] matches Some(line) && line@ == self@.lines[self@.off_row
                                + k]
                        } else {
                            rows@[k] is None
                        }
                    },
            decreases self.screen_size.row - i,
        {
            let r = if self.offset.row > usize::MAX - i {
                usize::MAX
            } else {
                self.offset.row + i
            };
            proof {
                if self@.off_row + i > usize::MAX {
                    assert(r == usize::MAX);
                    assert(self@.off_row + i > self@.lines.len());
                    assert(r >= self@.lines.len());
                } else {
                    assert(r == self@.off_row + i);
                }
            }
            match self.backend.get_row(r) {
                Some(line) => {
                    let copy = copy_line(line);
                    rows.push(Some(copy));
                },
                None => {
                    rows.push(None);
                },
            }
            i = i + 1;
        }
        RenderPlan { rows, cursor_col: self.visible_cursor.col, cursor_row: self.visible_cursor.row }
    }

    /// The underlying line buffer.
    pub fn buffer(&self) -> (r: &Backend)
        ensures
            r@ == self@.lines,
    {
        &self.backend
    }

    /// The buffer row the cursor addresses.
    pub fn current_row(&self) -> (r: usize)
        ensures
            r == self@.cur_row,
    {
        self.current_row
    }

    /// The buffer row shown on the first screen row.
    pub fn offset_row(&self) -> (r: usize)
        ensures
            r == self@.off_row,
    {
        self.offset.row
    }

    /// The unclamped column target.
    pub fn cursor_col(&self) -> (r: usize)
        ensures
            r == self@.cursor_col,
    {
        self.cursor.col
    }

    /// The rendered cursor column.
    pub fn visible_col(&self) -> (r: usize)
        ensures
            r == self@.vis_col,
    {
        self.visible_cursor.col
    }

    /// The rendered cursor row, relative to the screen.
    pub fn visible_row(&self) -> (r: usize)
        ensures
            r == self@.vis_row,
    {
        self.visible_cursor.row
    }
}

/// A copy of one line's characters.
fn copy_line(line: &Vec<char>) -> (r: Vec<char>)
    ensures
        r@ == line@,
{
    let mut r: Vec<char> = Vec::new();
    let mut i: usize = 0;
    while i < line.len()
        invariant
            i <= line@.len(),
            r@ == line@.take(i as int),
        decreases line@.len() - i,
    {
        r.push(line[i]);
        proof {
            assert(line@.take(i + 1) =~= line@.take(i as int).push(line@[i as int]));
        }
        i = i + 1;
    }
    proof {
        assert(line@.take(line@.len() as int) =~= line@);
    }
    r
}

} // verus!
