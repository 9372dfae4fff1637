use vstd::prelude::*;
use crate::buffer::{Index2, EditorMode, Selection, doc, lemma_doc, row_len, last_row, last_col};
use crate::motion::{
    valid_pos, first_non_ws_from, word_forward_n, word_back_n, word_end_n, inner_word,
    word_forward_from, word_back_from, word_end_from, inner_word_bounds,
};
use crate::chars::whitespace;

verus! {

/// The text buffer the editor works on: rows of characters, a cursor, a mode
/// and an optional selection.
pub struct EditorState {
    pub lines: Vec<Vec<char>>,
    pub cursor: Index2,
    pub mode: EditorMode,
    pub selection: Option<Selection>,
}

/// The last column the cursor may take on row `r` in mode `m`: the last
/// character in Normal mode, one past it otherwise.
pub open spec fn max_col(d: Seq<Seq<char>>, r: int, m: EditorMode) -> int {
    if m == EditorMode::Normal {
        last_col(d, r)
    } else {
        row_len(d, r)
    }
}

/// The column of the first non-blank character of a row, or 0 when the row
/// holds only whitespace.
pub open spec fn first_non_blank(d: Seq<Seq<char>>, r: int) -> int {
    let f = first_non_ws_from(d[r], 0);
    if f < d[r].len() {
        f
    } else {
        0
    }
}

/// In Visual mode, the selection's end follows the cursor.
pub open spec fn track(sel: Option<Selection>, m: EditorMode, cur: Index2) -> Option<Selection> {
    if m == EditorMode::Visual && sel is Some {
        Some(Selection { start: sel.unwrap().start, end: cur })
    } else {
        sel
    }
}

pub open spec fn min_int(a: int, b: int) -> int {
    if a < b {
        a
    } else {
        b
    }
}

impl EditorState {
    pub open spec fn d(&self) -> Seq<Seq<char>> {
        doc(self.lines)
    }

    /// The document has a row, and the cursor stands on a row at most one
    /// past its last character.
    pub open spec fn wf(&self) -> bool {
        valid_pos(self.d(), self.cursor.pos())
    }

    /// The cursor with its column clamped for the current mode.
    pub open spec fn clamped(&self) -> (int, int) {
        (self.cursor.row as int, min_int(self.cursor.col as int, max_col(self.d(), self.cursor.row as int, self.mode)))
    }

    /// A buffer holding `lines` (one empty row if there is none), in Normal
    /// mode with the cursor at the start.
    pub fn new(lines: Vec<Vec<char>>) -> (r: Self)
        ensures
            r.wf(),
            lines.len() > 0 ==> r.d() == doc(lines),
            lines.len() == 0 ==> r.d() == seq![Seq::<char>::empty()],
            r.cursor == (Index2 { row: 0, col: 0 }),
            r.mode == EditorMode::Normal,
            r.selection is None,
    {
        let mut lines = lines;
        if lines.len() == 0 {
            lines.push(Vec::new());
            proof {
                assert(doc(lines) =~= seq![Seq::<char>::empty()]);
            }
        }
        proof {
            lemma_doc(lines);
        }
        EditorState { lines, cursor: Index2::new(0, 0), mode: EditorMode::Normal, selection: None }
    }

    /// The last column the cursor may take on its row in the current mode.
    pub fn max_col_for_mode(&self) -> (r: usize)
        requires
            self.cursor.row < self.lines.len(),
        ensures
            r as int == max_col(self.d(), self.cursor.row as int, self.mode),
    {
        proof {
            lemma_doc(self.lines);
        }
        let len = self.lines[self.cursor.row].len();
        if self.mode == EditorMode::Normal {
            if len == 0 {
                0
            } else {
                len - 1
            }
        } else {
            len
        }
    }

    /// Brings the cursor's column back within its row for the current mode.
    pub fn clamp_column(&mut self)
        requires
            old(self).lines.len() > 0,
            old(self).cursor.row < old(self).lines.len(),
        ensures
            final(self).wf(),
            final(self).lines == old(self).lines,
            final(self).mode == old(self).mode,
            final(self).selection == old(self).selection,
            final(self).cursor.pos() == old(self).clamped(),
    {
        let max = self.max_col_for_mode();
        if self.cursor.col > max {
            self.cursor.col = max;
        }
    }

    /// Makes the selection's end follow the cursor in Visual mode.
    pub fn update_visual_selection(&mut self)
        ensures
            final(self).lines == old(self).lines,
            final(self).cursor == old(self).cursor,
            final(self).mode == old(self).mode,
            final(self).selection == track(old(self).selection, old(self).mode, old(self).cursor),
    {
        if self.mode == EditorMode::Visual {
            if let Some(sel) = self.selection {
                self.selection = Some(Selection { start: sel.start, end: self.cursor });
            }
        }
    }

    /// `w`, `n` times, from the clamped cursor.
    pub fn move_word_forward(&mut self, n: usize)
        requires
            old(self).wf(),
        ensures
            final(self).wf(),
            final(self).lines == old(self).lines,
            final(self).mode == old(self).mode,
            final(self).cursor.pos() == word_forward_n(old(self).d(), old(self).clamped(), n as nat),
            final(self).selection == track(old(self).selection, old(self).mode, final(self).cursor),
    {
        self.clamp_column();
        word_forward_from(&self.lines, &mut self.cursor, n);
        self.update_visual_selection();
    }

    /// `b`, `n` times, from the clamped cursor.
    pub fn move_word_backward(&mut self, n: usize)
        requires
            old(self).wf(),
        ensures
            final(self).wf(),
            final(self).lines == old(self).lines,
            final(self).mode == old(self).mode,
            final(self).cursor.pos() == word_back_n(old(self).d(), old(self).clamped(), n as nat),
            final(self).selection == track(old(self).selection, old(self).mode, final(self).cursor),
    {
        self.clamp_column();
        word_back_from(&self.lines, &mut self.cursor, n);
        self.update_visual_selection();
    }

    /// `e`, `n` times, from the clamped cursor.
    pub fn move_word_forward_to_end(&mut self, n: usize)
        requires
            old(self).wf(),
        ensures
            final(self).wf(),
            final(self).lines == old(self).lines,
            final(self).mode == old(self).mode,
            final(self).cursor.pos() == word_end_n(old(self).d(), old(self).clamped(), n as nat),
            final(self).selection == track(old(self).selection, old(self).mode, final(self).cursor),
    {
        self.clamp_column();
        word_end_from(&self.lines, &mut self.cursor, n);
        self.update_visual_selection();
    }

    /// Selects from `start` to `end`, both included.
    pub fn set_selection(&mut self, start: Index2, end: Index2)
        ensures
            final(self).lines == old(self).lines,
            final(self).cursor == old(self).cursor,
            final(self).mode == old(self).mode,
            final(self).selection == Some(Selection { start, end }),
    {
        self.selection = Some(Selection { start, end });
    }

    /// Selects the run of one class under the cursor, on its row only.
    pub fn select_inner_word(&mut self)
        requires
            old(self).wf(),
        ensures
            final(self).lines == old(self).lines,
            final(self).cursor == old(self).cursor,
            final(self).mode == old(self).mode,
            ({
                let d = old(self).d();
                let (r, c) = old(self).cursor.pos();
                if c < d[r].len() {
                    &&& final(self).selection is Some
                    &&& final(self).selection.unwrap().start.pos() == (r, inner_word(d[r], c).0)
                    &&& final(self).selection.unwrap().end.pos() == (r, inner_word(d[r], c).1)
                } else {
                    final(self).selection == old(self).selection
                }
            }),
    {
        proof {
            lemma_doc(self.lines);
        }
        let row = self.cursor.row;
        let col = self.cursor.col;
        match inner_word_bounds(&self.lines[row], col) {
            Some((a, b)) => self.set_selection(Index2::new(row, a), Index2::new(row, b)),
            None => {},
        }
    }
}


impl EditorState {
    /// Sets the cursor to `(row, col)` with the column clamped for the mode,
    /// and lets a Visual selection follow.
    pub fn place_cursor(&mut self, row: usize, col: usize)
        requires
            old(self).wf(),
            row < old(self).lines.len(),
        ensures
            final(self).wf(),
            final(self).lines == old(self).lines,
            final(self).mode == old(self).mode,
            final(self).cursor.pos() == (row as int, min_int(col as int, max_col(old(self).d(), row as int, old(self).mode))),
            final(self).selection == track(old(self).selection, old(self).mode, final(self).cursor),
    {
        proof {
            lemma_doc(self.lines);
        }
        self.cursor = Index2::new(row, col);
        self.clamp_column();
        self.update_visual_selection();
    }

    /// Moves down `n` rows, stopping at the last row.
    pub fn move_down(&mut self, n: usize)
        requires
            old(self).wf(),
        ensures
            final(self).wf(),
            final(self).lines == old(self).lines,
            final(self).mode == old(self).mode,
            final(self).cursor.row == min_int(old(self).cursor.row + n, last_row(old(self).d())),
            final(self).cursor.col == min_int(old(self).cursor.col as int, max_col(old(self).d(), final(self).cursor.row as int, old(self).mode)),
            final(self).selection == track(old(self).selection, old(self).mode, final(self).cursor),
    {
        proof {
            lemma_doc(self.lines);
        }
        let last = self.lines.len() - 1;
        let row = if n >= last - self.cursor.row { last } else { self.cursor.row + n };
        let col = self.cursor.col;
        self.place_cursor(row, col);
    }

    /// Moves up `n` rows, stopping at the first row.
    pub fn move_up(&mut self, n: usize)
        requires
            old(self).wf(),
        ensures
            final(self).wf(),
            final(self).lines == old(self).lines,
            final(self).mode == old(self).mode,
            final(self).cursor.row == (if n >= old(self).cursor.row { 0 } else { old(self).cursor.row - n }),
            final(self).cursor.col == min_int(old(self).cursor.col as int, max_col(old(self).d(), final(self).cursor.row as int, old(self).mode)),
            final(self).selection == track(old(self).selection, old(self).mode, final(self).cursor),
    {
        let row = if n >= self.cursor.row { 0 } else { self.cursor.row - n };
        let col = self.cursor.col;
        self.place_cursor(row, col);
    }

    /// Moves right `n` columns, stopping at the last column for the mode.
    pub fn move_forward(&mut self, n: usize)
        requires
            old(self).wf(),
        ensures
            final(self).wf(),
            final(self).lines == old(self).lines,
            final(self).mode == old(self).mode,
            final(self).cursor.row == old(self).cursor.row,
            final(self).cursor.col == (if old(self).cursor.col >= max_col(old(self).d(), old(self).cursor.row as int, old(self).mode) {
                old(self).cursor.col as int
            } else {
                min_int(old(self).cursor.col + n, max_col(old(self).d(), old(self).cursor.row as int, old(self).mode))
            }),
            final(self).selection == track(old(self).selection, old(self).mode, final(self).cursor),
    {
        let max = self.max_col_for_mode();
        if self.cursor.col < max {
            self.cursor.col = if n >= max - self.cursor.col { max } else { self.cursor.col + n };
        }
        self.update_visual_selection();
    }

    /// Moves left `n` columns from the clamped cursor, stopping at column 0.
    pub fn move_backward(&mut self, n: usize)
        requires
            old(self).wf(),
        ensures
            final(self).wf(),
            final(self).lines == old(self).lines,
            final(self).mode == old(self).mode,
            final(self).cursor.row == old(self).cursor.row,
            final(self).cursor.col == (if n >= old(self).clamped().1 { 0 } else { old(self).clamped().1 - n }),
            final(self).selection == track(old(self).selection, old(self).mode, final(self).cursor),
    {
        self.clamp_column();
        self.cursor.col = if n >= self.cursor.col { 0 } else { self.cursor.col - n };
        self.update_visual_selection();
    }

    /// The first non-blank column of a row.
    pub fn first_non_blank_col(&self, row: usize) -> (r: usize)
        requires
            self.wf(),
            row < self.lines.len(),
        ensures
            r as int == first_non_blank(self.d(), row as int),
    {
        proof {
            lemma_doc(self.lines);
        }
        let line = &self.lines[row];
        let mut i: usize = 0;
        while i < line.len()
            invariant
                i <= line.len(),
                first_non_ws_from(line@, 0) == first_non_ws_from(line@, i as int),
            ensures
                i < line.len() ==> first_non_ws_from(line@, 0) == i,
                i >= line.len() ==> first_non_ws_from(line@, 0) == line.len(),
            decreases line.len() - i,
        {
            if !whitespace(line[i]) {
                break;
            }
            i += 1;
        }
        if i < line.len() {
            i
        } else {
            0
        }
    }

    /// Moves to row `row` (clamped to the document) at its first non-blank column.
    pub fn move_to_row_first_non_blank(&mut self, row: usize)
        requires
            old(self).wf(),
        ensures
            final(self).wf(),
            final(self).lines == old(self).lines,
            final(self).mode == old(self).mode,
            final(self).cursor.row == min_int(row as int, last_row(old(self).d())),
            final(self).cursor.col == first_non_blank(old(self).d(), final(self).cursor.row as int),
            final(self).selection == track(old(self).selection, old(self).mode, final(self).cursor),
    {
        proof {
            lemma_doc(self.lines);
        }
        let last = self.lines.len() - 1;
        let r = if row < last { row } else { last };
        let c = self.first_non_blank_col(r);
        self.cursor = Index2::new(r, c);
        self.update_visual_selection();
    }

    /// Switches mode as the buffer does: the column is clamped for the old
    /// mode; Normal drops the selection and, coming from Insert, steps one
    /// column back; Visual starts a selection at the cursor.
    pub fn switch_mode(&mut self, m: EditorMode)
        requires
            old(self).wf(),
        ensures
            final(self).wf(),
            final(self).lines == old(self).lines,
            final(self).mode == m,
            final(self).cursor.row == old(self).cursor.row,
            final(self).cursor.col == (if m == EditorMode::Normal && old(self).mode == EditorMode::Insert && old(self).clamped().1 > 0 {
                old(self).clamped().1 - 1
            } else {
                old(self).clamped().1
            }),
            m == EditorMode::Normal ==> final(self).selection is None,
            m == EditorMode::Visual ==> final(self).selection == Some(Selection { start: final(self).cursor, end: final(self).cursor }),
            m == EditorMode::Insert ==> final(self).selection == old(self).selection,
    {
        let from_insert = self.mode == EditorMode::Insert;
        self.clamp_column();
        match m {
            EditorMode::Normal => {
                self.selection = None;
            },
            EditorMode::Visual => {
                self.selection = Some(Selection { start: self.cursor, end: self.cursor });
            },
            EditorMode::Insert => {},
        }
        self.mode = m;
        if m == EditorMode::Normal && from_insert && self.cursor.col > 0 {
            self.cursor.col -= 1;
        }
    }
}

} // verus!
