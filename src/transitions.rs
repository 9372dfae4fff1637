use vstd::prelude::*;
use crate::buffer::{EditorMode, last_row};
use crate::chars::CaseChange;
use crate::edit::delete_range_doc;
use crate::editor::{first_non_blank, min_int};
use crate::motion::{word_forward_n, word_back_n, word_end_n};
use crate::notebook::{Notebook, ScrollRequest, restore_post, delete_rows_doc, line_clip, paste_doc, diw_n, case_doc, ordered, sel_range};

verus! {

/// A decoded Normal-mode command.
#[derive(Clone, Debug, PartialEq, Eq)]
pub enum NormalModeTransition {
    IdleMode,
    ToggleMode,
    ToggleTabCloseMode,
    NumberingMode,
    GatewayMode,
    YankMode,
    DeleteMode,
    DeleteInsideMode,
    ChangeMode,
    ChangeInsideMode,
    ScrollMode,
    NextTab(String),
    PrevTab(String),
    MoveTabNext(usize),
    MoveTabPrev(usize),
    CloseRightTabs(usize),
    CloseLeftTabs(usize),
    CloseTab(String),
    ToggleLineNumbers,
    ToggleBrowser,
    ToggleSyntaxHighlight,
    MoveCursorDown(usize),
    MoveCursorUp(usize),
    MoveCursorBack(usize),
    MoveCursorForward(usize),
    MoveCursorWordForward(usize),
    MoveCursorWordEnd(usize),
    MoveCursorWordBack(usize),
    MoveCursorLineStart,
    MoveCursorLineEnd,
    MoveCursorLineNonEmptyStart,
    MoveCursorTop,
    MoveCursorBottom,
    MoveCursorToLine(usize),
    InsertNewLineBelow,
    InsertNewLineAbove,
    InsertAtCursor,
    InsertAtLineStart,
    InsertAfterCursor,
    InsertAtLineEnd,
    DeleteChars(usize),
    DeleteCharsBack(usize),
    Paste,
    Undo,
    Redo,
    YankLines(usize),
    DeleteLines(usize),
    DeleteLinesUp(usize),
    DeleteLinesAndInsert(usize),
    DeleteInsideWord(usize),
    DeleteWordEnd(usize),
    DeleteWordBack(usize),
    DeleteLineStart,
    DeleteLineEnd(usize),
    SwitchCase,
    ScrollCenter,
    ScrollTop,
    ScrollBottom,
}

/// A decoded Visual-mode command.
#[derive(Clone, Copy, Debug, PartialEq, Eq)]
pub enum VisualModeTransition {
    IdleMode,
    NumberingMode,
    GatewayMode,
    MoveCursorDown(usize),
    MoveCursorUp(usize),
    MoveCursorBack(usize),
    MoveCursorForward(usize),
    MoveCursorWordForward(usize),
    MoveCursorWordEnd(usize),
    MoveCursorWordBack(usize),
    MoveCursorLineStart,
    MoveCursorLineEnd,
    MoveCursorLineNonEmptyStart,
    MoveCursorBottom,
    MoveCursorTop,
    MoveCursorToLine(usize),
    YankSelection,
    DeleteSelection,
    DeleteSelectionAndInsertMode,
    SwitchCase,
    ToLowercase,
    ToUppercase,
}

/// What the host has to do with the tabs after a command.
#[derive(Clone, Debug, PartialEq, Eq)]
pub enum TabEffect {
    /// Nothing to do with the tabs.
    Unchanged,
    /// Take the tab list and order from the note store.
    SyncTabs,
    /// Show the note with this id.
    SelectNote(String),
    /// Save the open note, then drop the closed note's buffer.
    CloseNote(String),
}


/// Counts that the commands need to be at least 1 (the count is subtracted
/// from to find the last row).
pub open spec fn normal_counts_ok(t: NormalModeTransition) -> bool {
    match t {
        NormalModeTransition::YankLines(n) => n >= 1,
        NormalModeTransition::DeleteLinesUp(n) => n >= 1,
        NormalModeTransition::DeleteLinesAndInsert(n) => n >= 1,
        NormalModeTransition::DeleteLineEnd(n) => n >= 1,
        _ => true,
    }
}

/// What a Normal-mode command does to the notebook `o`, giving `f` and the
/// tab effect `r`.
pub open spec fn normal_post(o: Notebook, f: Notebook, t: NormalModeTransition, r: TabEffect) -> bool {
    let d = o.d();
    let (row, col) = o.editor.cursor.pos();
    let ed = f.editor;
    let same_doc = f.d() == d;
    &&& f.wf()
    &&& (r != TabEffect::Unchanged ==> same_doc)
    &&& match t {
        NormalModeTransition::IdleMode => same_doc && ed.selection is None && ed.mode == EditorMode::Normal,
        NormalModeTransition::ToggleMode | NormalModeTransition::ToggleTabCloseMode | NormalModeTransition::NumberingMode
        | NormalModeTransition::GatewayMode | NormalModeTransition::YankMode | NormalModeTransition::DeleteMode
        | NormalModeTransition::DeleteInsideMode | NormalModeTransition::ChangeMode
        | NormalModeTransition::ChangeInsideMode | NormalModeTransition::ScrollMode => f == o && r == TabEffect::Unchanged,
        NormalModeTransition::NextTab(id) | NormalModeTransition::PrevTab(id) => r == TabEffect::SelectNote(id),
        NormalModeTransition::MoveTabNext(_) | NormalModeTransition::MoveTabPrev(_)
        | NormalModeTransition::CloseRightTabs(_) | NormalModeTransition::CloseLeftTabs(_) => r == TabEffect::SyncTabs,
        NormalModeTransition::CloseTab(id) => r == TabEffect::CloseNote(id),
        NormalModeTransition::ToggleLineNumbers => same_doc && f.show_line_number == !o.show_line_number,
        NormalModeTransition::ToggleBrowser => same_doc && f.show_browser == !o.show_browser,
        NormalModeTransition::ToggleSyntaxHighlight => same_doc && f.show_syntax_highlight == !o.show_syntax_highlight,
        NormalModeTransition::MoveCursorDown(n) => same_doc && ed.cursor.row == min_int(row + n, last_row(d))
            && ed.cursor.col == min_int(col, crate::editor::max_col(d, ed.cursor.row as int, o.editor.mode)),
        NormalModeTransition::MoveCursorUp(n) => same_doc && ed.cursor.row == (if n >= row { 0 } else { row - n })
            && ed.cursor.col == min_int(col, crate::editor::max_col(d, ed.cursor.row as int, o.editor.mode)),
        NormalModeTransition::MoveCursorBack(n) => same_doc && ed.cursor.row == row
            && ed.cursor.col == (if n >= o.editor.clamped().1 { 0 } else { o.editor.clamped().1 - n }),
        NormalModeTransition::MoveCursorForward(n) => same_doc && ed.cursor.row == row
            && ed.cursor.col == (if col >= crate::editor::max_col(d, row, o.editor.mode) { col } else {
                min_int(col + n, crate::editor::max_col(d, row, o.editor.mode)) }),
        NormalModeTransition::MoveCursorWordForward(n) => same_doc && ed.cursor.pos() == word_forward_n(d, o.editor.clamped(), n as nat),
        NormalModeTransition::MoveCursorWordEnd(n) => same_doc && ed.cursor.pos() == word_end_n(d, o.editor.clamped(), n as nat),
        NormalModeTransition::MoveCursorWordBack(n) => same_doc && ed.cursor.pos() == word_back_n(d, o.editor.clamped(), n as nat),
        NormalModeTransition::MoveCursorLineStart => same_doc && ed.cursor.pos() == (row, 0int),
        NormalModeTransition::MoveCursorLineEnd => same_doc && ed.cursor.pos() == (row, crate::editor::max_col(d, row, o.editor.mode)),
        NormalModeTransition::MoveCursorLineNonEmptyStart => same_doc && ed.cursor.pos() == (row, first_non_blank(d, row)),
        NormalModeTransition::MoveCursorTop => same_doc
            && ed.cursor.pos() == (0int, min_int(col, crate::editor::max_col(d, 0, o.editor.mode))),
        NormalModeTransition::MoveCursorBottom => same_doc
            && ed.cursor.pos() == (last_row(d), min_int(col, crate::editor::max_col(d, last_row(d), o.editor.mode))),
        NormalModeTransition::MoveCursorToLine(n) => same_doc
            && ed.cursor.row == min_int(if n == 0 { 0 } else { n - 1 }, last_row(d))
            && ed.cursor.col == first_non_blank(d, ed.cursor.row as int),
        NormalModeTransition::InsertNewLineBelow => f.d() == d.insert(row + 1, Seq::<char>::empty())
            && ed.cursor.pos() == (row + 1, 0int) && ed.mode == EditorMode::Insert && f.dirty,
        NormalModeTransition::InsertNewLineAbove => f.d() == d.insert(row, Seq::<char>::empty())
            && ed.cursor.pos() == (row, 0int) && ed.mode == EditorMode::Insert && f.dirty,
        NormalModeTransition::InsertAtCursor => same_doc && ed.mode == EditorMode::Insert
            && ed.cursor.pos() == o.editor.clamped(),
        NormalModeTransition::InsertAtLineStart => same_doc && ed.mode == EditorMode::Insert && ed.cursor.pos() == (row, 0int),
        NormalModeTransition::InsertAfterCursor => same_doc && ed.mode == EditorMode::Insert
            && ed.cursor.pos() == (row, min_int(o.editor.clamped().1 + 1, d[row].len() as int)),
        NormalModeTransition::InsertAtLineEnd => same_doc && ed.mode == EditorMode::Insert
            && ed.cursor.pos() == (row, d[row].len() as int),
        NormalModeTransition::DeleteChars(n) => f.dirty && f.clipboard == o.clipboard
            && f.d() == delete_range_doc(d, (row, col), (row, col + min_int(n as int, d[row].len() - col))),
        NormalModeTransition::DeleteCharsBack(n) => f.dirty && f.clipboard == o.clipboard
            && ed.cursor.pos() == (row, col - min_int(n as int, col))
            && f.d() == delete_range_doc(d, (row, col - min_int(n as int, col)), (row, col)),
        NormalModeTransition::Paste => f.d() == paste_doc(d, (row, col), o.clipboard.content())
            && f.clipboard == o.clipboard && f.dirty
            && (o.clipboard.content().len() > 0 && o.clipboard.content()[0] == '\n' ==> ed.cursor.pos() == (row + 1, 0int)),
        NormalModeTransition::Undo => restore_post(o, f, o.undo_stack),
        NormalModeTransition::Redo => restore_post(o, f, o.redo_stack),
        NormalModeTransition::YankLines(n) => same_doc && ed.cursor == o.editor.cursor && f.line_yanked
            && f.clipboard.content() == line_clip(d, row, min_int(row + n - 1, last_row(d))),
        NormalModeTransition::DeleteLines(n) => f.dirty && f.line_yanked && (if n == 0 {
            same_doc && f.clipboard == o.clipboard && ed.cursor.pos() == (row, first_non_blank(d, row))
        } else {
            &&& f.d() == delete_rows_doc(d, row, n as int)
            &&& f.clipboard.content() == line_clip(d, row, min_int(row + n - 1, last_row(d)))
            &&& ed.cursor.pos() == (min_int(row, last_row(f.d())), first_non_blank(f.d(), min_int(row, last_row(f.d()))))
        }),
        NormalModeTransition::DeleteLinesUp(n) => f.dirty && f.line_yanked && ({
            let start = if n - 1 >= row { 0 } else { row - (n - 1) };
            &&& f.d() == delete_rows_doc(d, start, n as int)
            &&& f.clipboard.content() == line_clip(d, start, min_int(start + n - 1, last_row(d)))
            &&& ed.cursor.pos() == (min_int(start, last_row(f.d())), first_non_blank(f.d(), min_int(start, last_row(f.d()))))
        }),
        NormalModeTransition::DeleteLinesAndInsert(n) => f.dirty && f.line_yanked && ed.mode == EditorMode::Insert
            && f.d() == delete_range_doc(d, (row, 0int), (min_int(row + n - 1, last_row(d)),
                d[min_int(row + n - 1, last_row(d))].len() as int))
            && f.clipboard.content() == line_clip(d, row, min_int(row + n - 1, last_row(d))),
        NormalModeTransition::DeleteInsideWord(n) => f.dirty && ed.mode == EditorMode::Normal && !f.line_yanked
            && (o.editor.mode == EditorMode::Normal ==> (f.d(), ed.cursor.pos()) == diw_n(d, (row, col), n as nat)),
        NormalModeTransition::DeleteWordEnd(n) => f.dirty && !f.line_yanked && ({
            let s = o.editor.clamped();
            let t = word_end_n(d, s, n as nat);
            let b = (t.0, min_int(t.1 + 1, d[t.0].len() as int));
            &&& !crate::buffer::before(b, s) ==> f.d() == delete_range_doc(d, s, b)
            &&& crate::buffer::before(b, s) ==> same_doc
        }),
        NormalModeTransition::DeleteWordBack(n) => f.dirty && !f.line_yanked && ({
            let e = o.editor.clamped();
            let t = word_back_n(d, e, n as nat);
            &&& !crate::buffer::before(e, t) ==> f.d() == delete_range_doc(d, t, e)
            &&& crate::buffer::before(e, t) ==> same_doc
        }),
        NormalModeTransition::DeleteLineStart => f.dirty && !f.line_yanked && ({
            let fb = first_non_blank(d, row);
            &&& col > fb ==> f.d() == delete_range_doc(d, (row, fb), (row, col))
            &&& col < fb ==> f.d() == delete_range_doc(d, (row, col), (row, fb))
            &&& col == fb ==> same_doc
        }),
        NormalModeTransition::DeleteLineEnd(n) => f.dirty && !f.line_yanked && ({
            let e = min_int(row + n - 1, last_row(d));
            f.d() == delete_range_doc(d, (row, col), (e, d[e].len() as int))
        }),
        NormalModeTransition::SwitchCase => f.dirty && ed.cursor == o.editor.cursor
            && (col < d[row].len() ==> f.d() == d.update(row, d[row].update(col, crate::chars::change_case(CaseChange::Toggle, d[row][col]))))
            && (col >= d[row].len() ==> same_doc),
        NormalModeTransition::ScrollCenter => f == Notebook { pending_scroll: Some(ScrollRequest::Center), ..o },
        NormalModeTransition::ScrollTop => f == Notebook { pending_scroll: Some(ScrollRequest::Top), ..o },
        NormalModeTransition::ScrollBottom => f == Notebook { pending_scroll: Some(ScrollRequest::Bottom), ..o },
    }
}

impl Notebook {
    /// Applies a Normal-mode command to the buffer.
    pub fn handle_normal_mode_transition(&mut self, transition: NormalModeTransition) -> (r: TabEffect)
        requires
            old(self).wf(),
            normal_counts_ok(transition),
        ensures
            normal_post(*old(self), *final(self), transition, r),
    {
        match transition {
            NormalModeTransition::IdleMode => {
                self.editor.selection = None;
                self.editor.switch_mode(EditorMode::Normal);
            },
            NormalModeTransition::ToggleMode | NormalModeTransition::ToggleTabCloseMode
            | NormalModeTransition::NumberingMode | NormalModeTransition::GatewayMode
            | NormalModeTransition::YankMode | NormalModeTransition::DeleteMode
            | NormalModeTransition::DeleteInsideMode | NormalModeTransition::ChangeMode
            | NormalModeTransition::ChangeInsideMode | NormalModeTransition::ScrollMode => {},
            NormalModeTransition::NextTab(id) | NormalModeTransition::PrevTab(id) => {
                return TabEffect::SelectNote(id);
            },
            NormalModeTransition::MoveTabNext(_) | NormalModeTransition::MoveTabPrev(_)
            | NormalModeTransition::CloseRightTabs(_) | NormalModeTransition::CloseLeftTabs(_) => {
                return TabEffect::SyncTabs;
            },
            NormalModeTransition::CloseTab(id) => {
                return TabEffect::CloseNote(id);
            },
            NormalModeTransition::ToggleLineNumbers => {
                self.show_line_number = !self.show_line_number;
            },
            NormalModeTransition::ToggleBrowser => {
                self.show_browser = !self.show_browser;
            },
            NormalModeTransition::ToggleSyntaxHighlight => {
                self.show_syntax_highlight = !self.show_syntax_highlight;
            },
            NormalModeTransition::MoveCursorDown(n) => self.editor.move_down(n),
            NormalModeTransition::MoveCursorUp(n) => self.editor.move_up(n),
            NormalModeTransition::MoveCursorBack(n) => self.editor.move_backward(n),
            NormalModeTransition::MoveCursorForward(n) => self.editor.move_forward(n),
            NormalModeTransition::MoveCursorWordForward(n) => self.editor.move_word_forward(n),
            NormalModeTransition::MoveCursorWordEnd(n) => self.editor.move_word_forward_to_end(n),
            NormalModeTransition::MoveCursorWordBack(n) => self.editor.move_word_backward(n),
            NormalModeTransition::MoveCursorLineStart => {
                let row = self.editor.cursor.row;
                self.editor.place_cursor(row, 0);
            },
            NormalModeTransition::MoveCursorLineEnd => {
                let row = self.editor.cursor.row;
                let max = self.editor.max_col_for_mode();
                self.editor.place_cursor(row, max);
            },
            NormalModeTransition::MoveCursorLineNonEmptyStart => {
                let row = self.editor.cursor.row;
                self.editor.move_to_row_first_non_blank(row);
            },
            NormalModeTransition::MoveCursorTop => {
                let col = self.editor.cursor.col;
                self.editor.place_cursor(0, col);
            },
            NormalModeTransition::MoveCursorBottom => {
                let col = self.editor.cursor.col;
                let last = self.editor.lines.len() - 1;
                self.editor.place_cursor(last, col);
            },
            NormalModeTransition::MoveCursorToLine(n) => {
                let target = if n == 0 { 0 } else { n - 1 };
                self.editor.move_to_row_first_non_blank(target);
            },
            NormalModeTransition::InsertNewLineBelow => self.open_line(true),
            NormalModeTransition::InsertNewLineAbove => self.open_line(false),
            NormalModeTransition::InsertAtCursor => self.editor.switch_mode(EditorMode::Insert),
            NormalModeTransition::InsertAtLineStart => {
                self.editor.switch_mode(EditorMode::Insert);
                let row = self.editor.cursor.row;
                self.editor.place_cursor(row, 0);
            },
            NormalModeTransition::InsertAfterCursor => {
                self.editor.switch_mode(EditorMode::Insert);
                self.editor.move_forward(1);
            },
            NormalModeTransition::InsertAtLineEnd => {
                self.editor.switch_mode(EditorMode::Insert);
                let row = self.editor.cursor.row;
                let max = self.editor.max_col_for_mode();
                self.editor.place_cursor(row, max);
            },
            NormalModeTransition::DeleteChars(n) => self.remove_chars(n),
            NormalModeTransition::DeleteCharsBack(n) => self.remove_chars_back(n),
            NormalModeTransition::Paste => self.paste(),
            NormalModeTransition::Undo => self.undo(),
            NormalModeTransition::Redo => self.redo(),
            NormalModeTransition::YankLines(n) => self.yank_lines(n),
            NormalModeTransition::DeleteLines(n) => {
                let row = self.editor.cursor.row;
                if n == 0 {
                    self.editor.move_to_row_first_non_blank(row);
                    self.line_yanked = true;
                    self.dirty = true;
                } else {
                    self.delete_lines_from(row, n);
                }
            },
            NormalModeTransition::DeleteLinesUp(n) => {
                let row = self.editor.cursor.row;
                let start = if n - 1 >= row { 0 } else { row - (n - 1) };
                self.delete_lines_from(start, n);
            },
            NormalModeTransition::DeleteLinesAndInsert(n) => self.delete_lines_and_insert(n),
            NormalModeTransition::DeleteInsideWord(n) => {
                if self.editor.mode != EditorMode::Normal {
                    self.editor.switch_mode(EditorMode::Normal);
                }
                self.delete_inside_word(n);
            },
            NormalModeTransition::DeleteWordEnd(n) => self.delete_word_end(n),
            NormalModeTransition::DeleteWordBack(n) => self.delete_word_back(n),
            NormalModeTransition::DeleteLineStart => self.delete_line_start(),
            NormalModeTransition::DeleteLineEnd(n) => self.delete_line_end(n),
            NormalModeTransition::SwitchCase => self.switch_case(),
            NormalModeTransition::ScrollCenter => {
                self.pending_scroll = Some(ScrollRequest::Center);
            },
            NormalModeTransition::ScrollTop => {
                self.pending_scroll = Some(ScrollRequest::Top);
            },
            NormalModeTransition::ScrollBottom => {
                self.pending_scroll = Some(ScrollRequest::Bottom);
            },
        }
        TabEffect::Unchanged
    }

    /// `cc` with a count: empties rows `cursor.row ..= cursor.row + n - 1`
    /// into one empty row, copies them line-wise, and enters Insert mode.
    pub fn delete_lines_and_insert(&mut self, n: usize)
        requires
            old(self).wf(),
            n >= 1,
        ensures
            final(self).wf(),
            ({
                let d = old(self).d();
                let row = old(self).editor.cursor.row as int;
                let e = min_int(row + n - 1, last_row(d));
                &&& final(self).d() == delete_range_doc(d, (row, 0int), (e, d[e].len() as int))
                &&& final(self).clipboard.content() == line_clip(d, row, e)
            }),
            final(self).line_yanked,
            final(self).dirty,
            final(self).editor.mode == EditorMode::Insert,
    {
        proof {
            crate::buffer::lemma_doc(self.editor.lines);
        }
        self.capture();
        let row = self.editor.cursor.row;
        let last = self.editor.lines.len() - 1;
        let e = if n - 1 >= last - row { last } else { row + n - 1 };
        let len = self.editor.lines[e].len();
        self.yank_lines(n);
        self.editor.delete_between(crate::buffer::Index2::new(row, 0), crate::buffer::Index2::new(e, len));
        self.editor.switch_mode(EditorMode::Insert);
        self.dirty = true;
    }
}


/// What a Visual-mode command does to the notebook `o`, giving `f`.
pub open spec fn visual_post(o: Notebook, f: Notebook, t: VisualModeTransition) -> bool {
    let d = o.d();
    let (row, col) = o.editor.cursor.pos();
    let ed = f.editor;
    let same_doc = f.d() == d;
    let tracks = ed.selection == crate::editor::track(o.editor.selection, o.editor.mode, ed.cursor);
    let sr = sel_range(d, o.editor.selection);
    &&& f.wf()
    &&& match t {
        VisualModeTransition::IdleMode => same_doc && ed.mode == EditorMode::Visual
            && ed.selection == Some(crate::buffer::Selection { start: ed.cursor, end: ed.cursor }),
        VisualModeTransition::NumberingMode | VisualModeTransition::GatewayMode => f == o,
        VisualModeTransition::MoveCursorDown(n) => same_doc && tracks && ed.cursor.row == min_int(row + n, last_row(d))
            && ed.cursor.col == min_int(col, crate::editor::max_col(d, ed.cursor.row as int, o.editor.mode)),
        VisualModeTransition::MoveCursorUp(n) => same_doc && tracks && ed.cursor.row == (if n >= row { 0 } else { row - n })
            && ed.cursor.col == min_int(col, crate::editor::max_col(d, ed.cursor.row as int, o.editor.mode)),
        VisualModeTransition::MoveCursorBack(n) => same_doc && tracks && ed.cursor.row == row
            && ed.cursor.col == (if n >= o.editor.clamped().1 { 0 } else { o.editor.clamped().1 - n }),
        VisualModeTransition::MoveCursorForward(n) => same_doc && tracks && ed.cursor.row == row
            && ed.cursor.col == (if col >= crate::editor::max_col(d, row, o.editor.mode) { col } else {
                min_int(col + n, crate::editor::max_col(d, row, o.editor.mode)) }),
        VisualModeTransition::MoveCursorWordForward(n) => same_doc && tracks && ed.cursor.pos() == word_forward_n(d, o.editor.clamped(), n as nat),
        VisualModeTransition::MoveCursorWordEnd(n) => same_doc && tracks && ed.cursor.pos() == word_end_n(d, o.editor.clamped(), n as nat),
        VisualModeTransition::MoveCursorWordBack(n) => same_doc && tracks && ed.cursor.pos() == word_back_n(d, o.editor.clamped(), n as nat),
        VisualModeTransition::MoveCursorLineStart => same_doc && tracks && ed.cursor.pos() == (row, 0int),
        VisualModeTransition::MoveCursorLineEnd => same_doc && tracks && ed.cursor.pos() == (row, crate::editor::max_col(d, row, o.editor.mode)),
        VisualModeTransition::MoveCursorLineNonEmptyStart => same_doc && tracks && ed.cursor.pos() == (row, first_non_blank(d, row)),
        VisualModeTransition::MoveCursorBottom => same_doc && tracks
            && ed.cursor.pos() == (last_row(d), min_int(col, crate::editor::max_col(d, last_row(d), o.editor.mode))),
        VisualModeTransition::MoveCursorTop => same_doc && tracks
            && ed.cursor.pos() == (0int, min_int(col, crate::editor::max_col(d, 0, o.editor.mode))),
        VisualModeTransition::MoveCursorToLine(n) => same_doc && tracks
            && ed.cursor.row == min_int(if n == 0 { 0 } else { n - 1 }, last_row(d))
            && ed.cursor.col == first_non_blank(d, ed.cursor.row as int),
        VisualModeTransition::YankSelection => same_doc && ed.selection is None && !f.line_yanked
            && (sr is Some ==> f.clipboard.content() == crate::edit::range_text(d, sr.unwrap().0, sr.unwrap().1)),
        VisualModeTransition::DeleteSelection => f.dirty && ed.selection is None && ed.mode == EditorMode::Normal && !f.line_yanked
            && (sr is Some ==> f.d() == delete_range_doc(d, sr.unwrap().0, sr.unwrap().1)
                && f.clipboard.content() == crate::edit::range_text(d, sr.unwrap().0, sr.unwrap().1))
            && (sr is None ==> same_doc),
        VisualModeTransition::DeleteSelectionAndInsertMode => f.dirty && ed.selection is None && ed.mode == EditorMode::Insert && !f.line_yanked
            && (sr is Some ==> f.d() == delete_range_doc(d, sr.unwrap().0, sr.unwrap().1)
                && f.clipboard.content() == crate::edit::range_text(d, sr.unwrap().0, sr.unwrap().1))
            && (sr is None ==> same_doc),
        VisualModeTransition::SwitchCase => visual_case_post(o, f, CaseChange::Toggle),
        VisualModeTransition::ToLowercase => visual_case_post(o, f, CaseChange::Lower),
        VisualModeTransition::ToUppercase => visual_case_post(o, f, CaseChange::Upper),
    }
}

/// A case change over the selection (both ends included), which is then dropped.
pub open spec fn visual_case_post(o: Notebook, f: Notebook, k: CaseChange) -> bool {
    &&& f.dirty
    &&& f.editor.selection is None
    &&& f.editor.cursor == o.editor.cursor
    &&& o.editor.selection is None ==> f.d() == o.d()
    &&& o.editor.selection is Some ==> f.d() == case_doc(o.d(), ordered(o.editor.selection.unwrap()).0.pos(),
        ordered(o.editor.selection.unwrap()).1.pos(), k)
}

impl Notebook {
    /// Applies a Visual-mode command to the buffer; motions carry the
    /// selection's end along with the cursor.
    pub fn handle_visual_mode_transition(&mut self, transition: VisualModeTransition)
        requires
            old(self).wf(),
        ensures
            visual_post(*old(self), *final(self), transition),
    {
        match transition {
            VisualModeTransition::IdleMode => self.editor.switch_mode(EditorMode::Visual),
            VisualModeTransition::NumberingMode | VisualModeTransition::GatewayMode => {},
            VisualModeTransition::MoveCursorDown(n) => self.editor.move_down(n),
            VisualModeTransition::MoveCursorUp(n) => self.editor.move_up(n),
            VisualModeTransition::MoveCursorBack(n) => self.editor.move_backward(n),
            VisualModeTransition::MoveCursorForward(n) => self.editor.move_forward(n),
            VisualModeTransition::MoveCursorWordForward(n) => self.editor.move_word_forward(n),
            VisualModeTransition::MoveCursorWordEnd(n) => self.editor.move_word_forward_to_end(n),
            VisualModeTransition::MoveCursorWordBack(n) => self.editor.move_word_backward(n),
            VisualModeTransition::MoveCursorLineStart => {
                let row = self.editor.cursor.row;
                self.editor.place_cursor(row, 0);
            },
            VisualModeTransition::MoveCursorLineEnd => {
                let row = self.editor.cursor.row;
                let max = self.editor.max_col_for_mode();
                self.editor.place_cursor(row, max);
            },
            VisualModeTransition::MoveCursorLineNonEmptyStart => {
                let row = self.editor.cursor.row;
                self.editor.move_to_row_first_non_blank(row);
            },
            VisualModeTransition::MoveCursorBottom => {
                let col = self.editor.cursor.col;
                let last = self.editor.lines.len() - 1;
                self.editor.place_cursor(last, col);
            },
            VisualModeTransition::MoveCursorTop => {
                let col = self.editor.cursor.col;
                self.editor.place_cursor(0, col);
            },
            VisualModeTransition::MoveCursorToLine(n) => {
                let target = if n == 0 { 0 } else { n - 1 };
                self.editor.move_to_row_first_non_blank(target);
            },
            VisualModeTransition::YankSelection => self.yank_selection(),
            VisualModeTransition::DeleteSelection => self.delete_selection(EditorMode::Normal),
            VisualModeTransition::DeleteSelectionAndInsertMode => self.delete_selection(EditorMode::Insert),
            VisualModeTransition::SwitchCase => self.transform_selection(CaseChange::Toggle),
            VisualModeTransition::ToLowercase => self.transform_selection(CaseChange::Lower),
            VisualModeTransition::ToUppercase => self.transform_selection(CaseChange::Upper),
        }
    }
}

} // verus!
