use vstd::prelude::*;
use crate::buffer::{Index2, EditorMode, Selection, doc, lemma_doc, row_len, last_row, before};
use crate::chars::{CaseChange, change_case, apply_case};
use crate::clipboard::{ClipboardHandle, string_of, chars_of};
use crate::edit::{range_text, delete_range_doc, split_lines, insert_text_doc, valid_range, copy_lines, split_text};
use crate::editor::{EditorState, first_non_blank, min_int};
use crate::motion::{word_end_n, word_back_n, inner_word};

verus! {

/// A scroll command waiting for the next layout.
#[derive(Clone, Copy, Debug, PartialEq, Eq, Structural)]
pub enum ScrollRequest {
    Top,
    Center,
    Bottom,
}

/// The viewport a scroll command asked for, kept while the document is too
/// short to show it.
#[derive(Clone, Copy, Debug, PartialEq, Eq, Structural)]
pub struct ScrollAnchor {
    pub desired_top: usize,
    pub actual_viewport_y: usize,
}

/// The rows and cursor to return to on undo or redo.
pub struct Snapshot {
    pub lines: Vec<Vec<char>>,
    pub cursor: Index2,
}

/// The open note's editing state.
pub struct Notebook {
    pub editor: EditorState,
    pub clipboard: ClipboardHandle,
    pub line_yanked: bool,
    pub dirty: bool,
    pub show_line_number: bool,
    pub show_browser: bool,
    pub show_syntax_highlight: bool,
    pub pending_scroll: Option<ScrollRequest>,
    pub scroll_anchor: Option<ScrollAnchor>,
    pub undo_stack: Vec<Snapshot>,
    pub redo_stack: Vec<Snapshot>,
}

/// The line-wise clipboard text for rows `r0 ..= r1`: a leading `'\n'`, then
/// the rows joined by `'\n'`.
pub open spec fn line_clip(d: Seq<Seq<char>>, r0: int, r1: int) -> Seq<char> {
    seq!['\n'] + range_text(d, (r0, 0), (r1, d[r1].len() as int))
}

/// The document without rows `start .. start + k` (cut at its end); an empty
/// document keeps one empty row.
pub open spec fn delete_rows_doc(d: Seq<Seq<char>>, start: int, k: int) -> Seq<Seq<char>> {
    let end = min_int(start + k, d.len() as int);
    let rest = d.subrange(0, start) + d.subrange(end, d.len() as int);
    if rest.len() == 0 {
        seq![Seq::<char>::empty()]
    } else {
        rest
    }
}

/// What pasting clipboard text `clip` does to the document with the cursor at `p`.
pub open spec fn paste_doc(d: Seq<Seq<char>>, p: (int, int), clip: Seq<char>) -> Seq<Seq<char>> {
    if clip.len() == 0 {
        d
    } else if clip[0] == '\n' {
        d.subrange(0, p.0 + 1) + split_lines(clip.drop_first()) + d.subrange(p.0 + 1, d.len() as int)
    } else {
        insert_text_doc(d, (p.0, if d[p.0].len() == 0 { 0 } else { min_int(p.1 + 1, d[p.0].len() as int) }), clip)
    }
}

/// Whether `(i, j)` lies between `lo` and `hi`, both included.
pub open spec fn within(lo: (int, int), hi: (int, int), i: int, j: int) -> bool {
    !before((i, j), lo) && !before(hi, (i, j))
}

/// The document with the case of each character between `lo` and `hi`
/// (both included) changed.
pub open spec fn case_doc(d: Seq<Seq<char>>, lo: (int, int), hi: (int, int), k: CaseChange) -> Seq<Seq<char>> {
    Seq::new(d.len(), |i: int| Seq::new(d[i].len(), |j: int|
        if within(lo, hi, i, j) { change_case(k, d[i][j]) } else { d[i][j] }))
}

/// The ends of a selection, first one first.
pub open spec fn ordered(s: Selection) -> (Index2, Index2) {
    if before(s.end.pos(), s.start.pos()) {
        (s.end, s.start)
    } else {
        (s.start, s.end)
    }
}

/// The range a selection covers: from its first end to just past its last,
/// when both stand in the document.
pub open spec fn sel_range(d: Seq<Seq<char>>, s: Option<Selection>) -> Option<((int, int), (int, int))> {
    match s {
        Some(x) => if valid_range(d, ordered(x).0.pos(), after(d, ordered(x).1)) {
            Some((ordered(x).0.pos(), after(d, ordered(x).1)))
        } else {
            None
        },
        None => None,
    }
}

/// One past a selection's last position on its row.
pub open spec fn after(d: Seq<Seq<char>>, p: Index2) -> (int, int) {
    (p.row as int, min_int(p.col + 1, row_len(d, p.row as int)))
}

impl Notebook {
    pub open spec fn wf(&self) -> bool {
        self.editor.wf()
    }

    pub open spec fn d(&self) -> Seq<Seq<char>> {
        self.editor.d()
    }

    /// A notebook over `editor`, with an empty clipboard and no history.
    pub fn new(editor: EditorState) -> (r: Self)
        ensures
            r.editor == editor,
            r.clipboard.content() == Seq::<char>::empty(),
            !r.line_yanked && !r.dirty,
            r.show_line_number && r.show_browser && r.show_syntax_highlight,
            r.pending_scroll is None,
            r.scroll_anchor is None,
            r.undo_stack.len() == 0 && r.redo_stack.len() == 0,
    {
        Notebook {
            editor,
            clipboard: ClipboardHandle::default(),
            line_yanked: false,
            dirty: false,
            show_line_number: true,
            show_browser: true,
            show_syntax_highlight: true,
            pending_scroll: None,
            scroll_anchor: None,
            undo_stack: Vec::new(),
            redo_stack: Vec::new(),
        }
    }

    /// Records the rows and cursor for undo and forgets what could be redone.
    pub fn capture(&mut self)
        ensures
            final(self).editor == old(self).editor,
            final(self).clipboard == old(self).clipboard,
            final(self).line_yanked == old(self).line_yanked,
            final(self).dirty == old(self).dirty,
            final(self).undo_stack.len() == old(self).undo_stack.len() + 1,
            doc(final(self).undo_stack@.last().lines) == old(self).d(),
            final(self).undo_stack@.last().cursor == old(self).editor.cursor,
            final(self).redo_stack.len() == 0,
    {
        let lines = copy_lines(&self.editor.lines);
        self.undo_stack.push(Snapshot { lines, cursor: self.editor.cursor });
        self.redo_stack = Vec::new();
    }

    /// Copies rows `cursor.row ..= cursor.row + n - 1` (cut at the last row)
    /// to the clipboard, marked as line-wise.
    pub fn yank_lines(&mut self, n: usize)
        requires
            old(self).wf(),
            n >= 1,
        ensures
            final(self).editor == old(self).editor,
            final(self).clipboard.content() == line_clip(old(self).d(), old(self).editor.cursor.row as int,
                min_int(old(self).editor.cursor.row + n - 1, last_row(old(self).d()))),
            final(self).line_yanked,
            final(self).dirty == old(self).dirty,
    {
        proof {
            lemma_doc(self.editor.lines);
        }
        let row = self.editor.cursor.row;
        let last = self.editor.lines.len() - 1;
        let end_row = if n - 1 >= last - row { last } else { row + n - 1 };
        let end_col = self.editor.lines[end_row].len();
        let text = self.editor.text_between(Index2::new(row, 0), Index2::new(end_row, end_col));
        let mut clip: Vec<char> = Vec::new();
        clip.push('\n');
        let mut i: usize = 0;
        while i < text.len()
            invariant
                i <= text.len(),
                clip@ == seq!['\n'] + text@.subrange(0, i as int),
            decreases text.len() - i,
        {
            clip.push(text[i]);
            i += 1;
            assert(clip@ =~= seq!['\n'] + text@.subrange(0, i as int));
        }
        assert(text@.subrange(0, text@.len() as int) =~= text@);
        self.clipboard.set_text(string_of(&clip));
        self.line_yanked = true;
    }

    /// Deletes `k` rows from row `start` into the clipboard, line-wise, and puts
    /// the cursor on the first non-blank of the row that takes their place.
    pub fn delete_lines_from(&mut self, start: usize, k: usize)
        requires
            old(self).wf(),
            start < old(self).editor.lines.len(),
            k >= 1,
        ensures
            final(self).wf(),
            final(self).d() == delete_rows_doc(old(self).d(), start as int, k as int),
            final(self).editor.cursor.row == min_int(start as int, last_row(final(self).d())),
            final(self).editor.cursor.col == first_non_blank(final(self).d(), final(self).editor.cursor.row as int),
            final(self).clipboard.content() == line_clip(old(self).d(), start as int,
                min_int(start + k - 1, last_row(old(self).d()))),
            final(self).line_yanked,
            final(self).dirty,
            final(self).editor.mode == old(self).editor.mode,
    {
        self.capture();
        proof {
            lemma_doc(self.editor.lines);
        }
        let ghost d = self.d();
        let len = self.editor.lines.len();
        let count = if k >= len - start { len - start } else { k };
        let saved = self.editor.cursor;
        self.editor.cursor = Index2::new(start, 0);
        self.yank_lines(count);
        self.editor.cursor = saved;
        let none: Vec<Vec<char>> = Vec::new();
        proof {
            lemma_doc(none);
            assert(doc(none) =~= Seq::<Seq<char>>::empty());
        }
        self.editor.splice_rows(start, count, none);
        if self.editor.lines.len() == 0 {
            self.editor.lines.push(Vec::new());
        }
        proof {
            lemma_doc(self.editor.lines);
            assert(self.d() =~= delete_rows_doc(d, start as int, k as int));
        }
        self.editor.cursor = Index2::new(0, 0);
        self.editor.move_to_row_first_non_blank(start);
        self.dirty = true;
    }

    /// Puts the text from `a` up to `b` (not included) in the clipboard,
    /// char-wise, and deletes it.
    pub fn cut_between(&mut self, a: Index2, b: Index2)
        requires
            valid_range(old(self).d(), a.pos(), b.pos()),
        ensures
            final(self).wf(),
            final(self).d() == delete_range_doc(old(self).d(), a.pos(), b.pos()),
            final(self).editor.cursor == a,
            final(self).editor.mode == old(self).editor.mode,
            final(self).editor.selection == old(self).editor.selection,
            final(self).clipboard.content() == range_text(old(self).d(), a.pos(), b.pos()),
            final(self).dirty,
            final(self).line_yanked == old(self).line_yanked,
    {
        self.capture();
        let text = self.editor.text_between(a, b);
        self.clipboard.set_text(string_of(&text));
        self.editor.delete_between(a, b);
        self.dirty = true;
    }

    /// Pastes the clipboard after the cursor: a line-wise text as rows below
    /// the cursor's row, any other text after the cursor's character.
    pub fn paste(&mut self)
        requires
            old(self).wf(),
        ensures
            final(self).wf(),
            final(self).d() == paste_doc(old(self).d(), old(self).editor.cursor.pos(), old(self).clipboard.content()),
            final(self).clipboard == old(self).clipboard,
            final(self).editor.mode == old(self).editor.mode,
            ({
                let clip = old(self).clipboard.content();
                let (r, c) = old(self).editor.cursor.pos();
                &&& clip.len() > 0 && clip[0] == '\n' ==> final(self).editor.cursor.pos() == (r + 1, 0int)
                &&& !(clip.len() > 0 && clip[0] == '\n') ==> final(self).editor.cursor.row == r
            }),
            final(self).dirty,
    {
        self.dirty = true;
        proof {
            lemma_doc(self.editor.lines);
        }
        let clip = chars_of(&self.clipboard.text);
        if clip.len() == 0 {
            return;
        }
        self.capture();
        let ghost d = self.d();
        let row = self.editor.cursor.row;
        if clip[0] == '\n' {
            let mut rest: Vec<char> = Vec::new();
            let mut i: usize = 1;
            while i < clip.len()
                invariant
                    1 <= i <= clip.len(),
                    rest@ == clip@.subrange(1, i as int),
                decreases clip.len() - i,
            {
                rest.push(clip[i]);
                i += 1;
                assert(rest@ =~= clip@.subrange(1, i as int));
            }
            assert(rest@ =~= clip@.drop_first());
            let rows = split_text(&rest);
            self.editor.splice_rows(row + 1, 0, rows);
            proof {
                assert(d.subrange(row + 1, row + 1) + d.subrange(row + 1, d.len() as int) =~= d.subrange(row + 1, d.len() as int));
                assert(self.d() =~= paste_doc(d, old(self).editor.cursor.pos(), old(self).clipboard.content()));
                crate::edit::lemma_split_lines_nonempty(rest@);
                lemma_doc(self.editor.lines);
            }
            self.editor.cursor = Index2::new(row + 1, 0);
        } else {
            let len = self.editor.lines[row].len();
            let col = if len == 0 { 0 } else if self.editor.cursor.col >= len - 1 { len } else { self.editor.cursor.col + 1 };
            self.editor.insert_text(Index2::new(row, col), &clip);
            proof {
                lemma_doc(self.editor.lines);
                crate::edit::lemma_split_lines_nonempty(clip@);
            }
            self.editor.clamp_column();
        }
        self.dirty = true;
    }
}


/// One `diw`: the document and the cursor after deleting the run under `p`
/// and returning to Normal mode.
pub open spec fn diw_step(d: Seq<Seq<char>>, p: (int, int)) -> (Seq<Seq<char>>, (int, int)) {
    if p.1 < d[p.0].len() {
        let w = inner_word(d[p.0], p.1);
        let d2 = delete_range_doc(d, (p.0, w.0), (p.0, w.1 + 1));
        (d2, (p.0, min_int(w.0, crate::buffer::last_col(d2, p.0))))
    } else {
        (d, (p.0, min_int(p.1, crate::buffer::last_col(d, p.0))))
    }
}

/// `n` repetitions of `diw_step`.
pub open spec fn diw_n(d: Seq<Seq<char>>, p: (int, int), n: nat) -> (Seq<Seq<char>>, (int, int))
    decreases n,
{
    if n == 0 {
        (d, p)
    } else {
        let q = diw_n(d, p, (n - 1) as nat);
        diw_step(q.0, q.1)
    }
}

impl Notebook {
    /// `diw` repeated `n` times, in Normal mode.
    pub fn delete_inside_word(&mut self, n: usize)
        requires
            old(self).wf(),
            old(self).editor.mode == EditorMode::Normal,
        ensures
            final(self).wf(),
            final(self).editor.mode == EditorMode::Normal,
            final(self).editor.selection is None,
            (final(self).d(), final(self).editor.cursor.pos()) == diw_n(old(self).d(), old(self).editor.cursor.pos(), n as nat),
            !final(self).line_yanked,
            final(self).dirty,
    {
        self.dirty = true;
        let ghost d0 = self.d();
        let ghost origin = self.editor.cursor.pos();
        let mut i: usize = 0;
        self.line_yanked = false;
        self.editor.selection = None;
        while i < n
            invariant
                i <= n,
                self.wf(),
                self.editor.mode == EditorMode::Normal,
                self.editor.selection is None,
                !self.line_yanked,
                (self.d(), self.editor.cursor.pos()) == diw_n(d0, origin, i as nat),
            decreases n - i,
        {
            proof {
                lemma_doc(self.editor.lines);
            }
            let ghost d = self.d();
            let row = self.editor.cursor.row;
            let col = self.editor.cursor.col;
            assert(self.editor.lines@[row as int]@ == d[row as int]);
            match crate::motion::inner_word_bounds(&self.editor.lines[row], col) {
                Some((a, b)) => {
                    self.cut_between(Index2::new(row, a), Index2::new(row, b + 1));
                },
                None => {},
            }
            self.editor.switch_mode(EditorMode::Normal);
            i += 1;
        }
        self.dirty = true;
    }

    /// Deletes `n` characters from the cursor on its row.
    pub fn remove_chars(&mut self, n: usize)
        requires
            old(self).wf(),
        ensures
            final(self).wf(),
            ({
                let (r, c) = old(self).editor.cursor.pos();
                let k = min_int(n as int, old(self).d()[r].len() - c);
                final(self).d() == delete_range_doc(old(self).d(), (r, c), (r, c + k))
            }),
            final(self).editor.mode == old(self).editor.mode,
            final(self).editor.cursor.row == old(self).editor.cursor.row,
            final(self).dirty,
            final(self).clipboard == old(self).clipboard,
            final(self).line_yanked == old(self).line_yanked,
    {
        proof {
            lemma_doc(self.editor.lines);
        }
        let r = self.editor.cursor.row;
        let c = self.editor.cursor.col;
        let len = self.editor.lines[r].len();
        let k = if n >= len - c { len - c } else { n };
        self.capture();
        self.editor.delete_between(Index2::new(r, c), Index2::new(r, c + k));
        self.editor.clamp_column();
        self.dirty = true;
    }

    /// Deletes up to `n` characters before the cursor on its row.
    pub fn remove_chars_back(&mut self, n: usize)
        requires
            old(self).wf(),
        ensures
            final(self).wf(),
            ({
                let (r, c) = old(self).editor.cursor.pos();
                let k = min_int(n as int, c);
                &&& final(self).d() == delete_range_doc(old(self).d(), (r, c - k), (r, c))
                &&& final(self).editor.cursor.pos() == (r, c - k)
            }),
            final(self).editor.mode == old(self).editor.mode,
            final(self).dirty,
            final(self).clipboard == old(self).clipboard,
            final(self).line_yanked == old(self).line_yanked,
    {
        let r = self.editor.cursor.row;
        let c = self.editor.cursor.col;
        let k = if n >= c { c } else { n };
        self.capture();
        self.editor.delete_between(Index2::new(r, c - k), Index2::new(r, c));
        self.dirty = true;
    }

    /// `de`, `n` times: deletes from the cursor through the character the
    /// motion lands on.
    pub fn delete_word_end(&mut self, n: usize)
        requires
            old(self).wf(),
        ensures
            final(self).wf(),
            ({
                let s = old(self).editor.clamped();
                let t = word_end_n(old(self).d(), s, n as nat);
                let b = (t.0, min_int(t.1 + 1, old(self).d()[t.0].len() as int));
                &&& !before(b, s) ==> final(self).d() == delete_range_doc(old(self).d(), s, b)
                &&& before(b, s) ==> final(self).d() == old(self).d()
            }),
            final(self).editor.mode == old(self).editor.mode,
            !final(self).line_yanked,
            final(self).dirty,
    {
        self.dirty = true;
        proof {
            lemma_doc(self.editor.lines);
        }
        self.editor.clamp_column();
        let start = self.editor.cursor;
        let mut t = start;
        crate::motion::word_end_from(&self.editor.lines, &mut t, n);
        let len = self.editor.lines[t.row].len();
        let end = Index2::new(t.row, if t.col >= len { len } else { t.col + 1 });
        if !(end.row < start.row || (end.row == start.row && end.col < start.col)) {
            self.cut_between(start, end);
        }
        self.line_yanked = false;
    }

    /// `db`, `n` times: deletes from the motion's landing character up to the
    /// cursor, the cursor's character excluded.
    pub fn delete_word_back(&mut self, n: usize)
        requires
            old(self).wf(),
        ensures
            final(self).wf(),
            ({
                let e = old(self).editor.clamped();
                let t = word_back_n(old(self).d(), e, n as nat);
                &&& !before(e, t) ==> final(self).d() == delete_range_doc(old(self).d(), t, e)
                &&& before(e, t) ==> final(self).d() == old(self).d()
            }),
            final(self).editor.mode == old(self).editor.mode,
            !final(self).line_yanked,
            final(self).dirty,
    {
        self.dirty = true;
        self.editor.clamp_column();
        let end = self.editor.cursor;
        let mut t = end;
        crate::motion::word_back_from(&self.editor.lines, &mut t, n);
        if !(end.row < t.row || (end.row == t.row && end.col < t.col)) {
            self.cut_between(t, end);
        }
        self.line_yanked = false;
    }

    /// `d^`: deletes between the cursor and the first non-blank of its row.
    pub fn delete_line_start(&mut self)
        requires
            old(self).wf(),
        ensures
            final(self).wf(),
            ({
                let (r, c) = old(self).editor.cursor.pos();
                let f = first_non_blank(old(self).d(), r);
                &&& c > f ==> final(self).d() == delete_range_doc(old(self).d(), (r, f), (r, c))
                &&& c < f ==> final(self).d() == delete_range_doc(old(self).d(), (r, c), (r, f))
                &&& c == f ==> final(self).d() == old(self).d()
            }),
            final(self).editor.mode == old(self).editor.mode,
            !final(self).line_yanked,
            final(self).dirty,
    {
        self.dirty = true;
        let r = self.editor.cursor.row;
        let c = self.editor.cursor.col;
        let f = self.editor.first_non_blank_col(r);
        if c > f {
            self.cut_between(Index2::new(r, f), Index2::new(r, c));
        } else if c < f {
            self.cut_between(Index2::new(r, c), Index2::new(r, f));
        }
        self.line_yanked = false;
    }

    /// `d$` with a count: deletes from the cursor to the end of row
    /// `cursor.row + n - 1` (cut at the last row).
    pub fn delete_line_end(&mut self, n: usize)
        requires
            old(self).wf(),
            n >= 1,
        ensures
            final(self).wf(),
            ({
                let (r, c) = old(self).editor.cursor.pos();
                let e = min_int(r + n - 1, last_row(old(self).d()));
                final(self).d() == delete_range_doc(old(self).d(), (r, c), (e, old(self).d()[e].len() as int))
            }),
            final(self).editor.mode == old(self).editor.mode,
            !final(self).line_yanked,
            final(self).dirty,
    {
        self.dirty = true;
        proof {
            lemma_doc(self.editor.lines);
        }
        let r = self.editor.cursor.row;
        let c = self.editor.cursor.col;
        let last = self.editor.lines.len() - 1;
        let e = if n - 1 >= last - r { last } else { r + n - 1 };
        let len = self.editor.lines[e].len();
        self.cut_between(Index2::new(r, c), Index2::new(e, len));
        self.editor.clamp_column();
        self.line_yanked = false;
    }

    /// Opens an empty row below (`below`) or above the cursor's row, puts the
    /// cursor on it and enters Insert mode.
    pub fn open_line(&mut self, below: bool)
        requires
            old(self).wf(),
        ensures
            final(self).wf(),
            ({
                let r = old(self).editor.cursor.row as int;
                let at = if below { r + 1 } else { r };
                &&& final(self).d() == old(self).d().insert(at, Seq::<char>::empty())
                &&& final(self).editor.cursor.pos() == (at, 0int)
            }),
            final(self).editor.mode == EditorMode::Insert,
            final(self).dirty,
    {
        self.capture();
        proof {
            lemma_doc(self.editor.lines);
        }
        let r = self.editor.cursor.row;
        let at = if below { r + 1 } else { r };
        let mut rows: Vec<Vec<char>> = Vec::new();
        rows.push(Vec::new());
        proof {
            lemma_doc(rows);
            assert(doc(rows) =~= seq![Seq::<char>::empty()]);
        }
        let ghost d = self.d();
        self.editor.splice_rows(at, 0, rows);
        proof {
            assert(self.d() =~= d.insert(at as int, Seq::<char>::empty()));
            lemma_doc(self.editor.lines);
        }
        self.editor.cursor = Index2::new(at, 0);
        self.editor.switch_mode(EditorMode::Insert);
        self.dirty = true;
    }

    /// Toggles the case of the character under the cursor.
    pub fn switch_case(&mut self)
        requires
            old(self).wf(),
        ensures
            final(self).wf(),
            ({
                let (r, c) = old(self).editor.cursor.pos();
                let d = old(self).d();
                &&& c < d[r].len() ==> final(self).d() == d.update(r, d[r].update(c, change_case(CaseChange::Toggle, d[r][c])))
                &&& c >= d[r].len() ==> final(self).d() == d
            }),
            final(self).editor.cursor == old(self).editor.cursor,
            final(self).editor.mode == old(self).editor.mode,
            final(self).dirty,
    {
        self.dirty = true;
        proof {
            lemma_doc(self.editor.lines);
        }
        let r = self.editor.cursor.row;
        let c = self.editor.cursor.col;
        if c >= self.editor.lines[r].len() {
            return;
        }
        self.capture();
        let ghost d = self.d();
        let mut line = self.editor.lines.remove(r);
        let ch = apply_case(CaseChange::Toggle, line[c]);
        line.set(c, ch);
        self.editor.lines.insert(r, line);
        proof {
            lemma_doc(self.editor.lines);
            assert(self.d() =~= d.update(r as int, d[r as int].update(c as int, ch)));
        }
        self.dirty = true;
    }
}


/// What putting back the last snapshot of `st` does: its rows (one empty
/// row if it has none), its cursor brought within them for the mode; an
/// empty `st` changes nothing.
pub open spec fn restore_post(o: Notebook, f: Notebook, st: Vec<Snapshot>) -> bool {
    &&& st.len() == 0 ==> f.editor == o.editor
    &&& st.len() > 0 ==> {
        &&& f.d() == restored(st@.last().lines)
        &&& f.editor.cursor.row == min_int(st@.last().cursor.row as int, last_row(f.d()))
        &&& f.editor.cursor.col == min_int(st@.last().cursor.col as int,
            crate::editor::max_col(f.d(), f.editor.cursor.row as int, o.editor.mode))
        &&& f.editor.selection is None
    }
    &&& f.editor.mode == o.editor.mode
    &&& f.dirty == (o.dirty || f.d() != o.d())
}

/// The document a snapshot restores: its rows, or one empty row if it has none.
pub open spec fn restored(lines: Vec<Vec<char>>) -> Seq<Seq<char>> {
    if lines.len() == 0 {
        seq![Seq::<char>::empty()]
    } else {
        doc(lines)
    }
}

/// Whether two documents hold the same rows.
pub fn same_lines(a: &Vec<Vec<char>>, b: &Vec<Vec<char>>) -> (r: bool)
    ensures
        r == (doc(*a) == doc(*b)),
{
    proof {
        lemma_doc(*a);
        lemma_doc(*b);
    }
    if a.len() != b.len() {
        return false;
    }
    let mut i: usize = 0;
    while i < a.len()
        invariant
            i <= a.len() == b.len(),
            forall|q: int| 0 <= q < i ==> doc(*a)[q] == doc(*b)[q],
        decreases a.len() - i,
    {
        let ra = &a[i];
        let rb = &b[i];
        assert(ra@ == doc(*a)[i as int]);
        assert(rb@ == doc(*b)[i as int]);
        if ra.len() != rb.len() {
            assert(doc(*a)[i as int].len() != doc(*b)[i as int].len());
            return false;
        }
        let mut j: usize = 0;
        while j < ra.len()
            invariant
                j <= ra.len() == rb.len(),
                i < a.len() == b.len(),
                doc(*a).len() == a.len() && doc(*b).len() == b.len(),
                ra@ == doc(*a)[i as int],
                rb@ == doc(*b)[i as int],
                forall|q: int| 0 <= q < j ==> ra@[q] == rb@[q],
            decreases ra.len() - j,
        {
            if ra[j] != rb[j] {
                assert(doc(*a)[i as int][j as int] != doc(*b)[i as int][j as int]);
                return false;
            }
            j += 1;
        }
        assert(ra@ =~= rb@);
        i += 1;
    }
    assert(doc(*a) =~= doc(*b));
    true
}

impl Notebook {
    /// Changes the case of every character of the selection (both ends
    /// included) and drops the selection.
    pub fn transform_selection(&mut self, k: CaseChange)
        requires
            old(self).wf(),
        ensures
            final(self).wf(),
            final(self).editor.selection is None,
            final(self).editor.cursor == old(self).editor.cursor,
            final(self).editor.mode == old(self).editor.mode,
            old(self).editor.selection is None ==> final(self).d() == old(self).d(),
            old(self).editor.selection matches Some(sel) ==> final(self).d()
                == case_doc(old(self).d(), ordered(sel).0.pos(), ordered(sel).1.pos(), k),
            final(self).dirty,
    {
        self.dirty = true;
        let sel = match self.editor.selection {
            Some(s) => s,
            None => return,
        };
        self.capture();
        proof {
            lemma_doc(self.editor.lines);
        }
        let ghost d = self.d();
        let (lo, hi) = if sel.end.row < sel.start.row || (sel.end.row == sel.start.row && sel.end.col < sel.start.col) {
            (sel.end, sel.start)
        } else {
            (sel.start, sel.end)
        };
        let ghost target = case_doc(d, lo.pos(), hi.pos(), k);
        let mut i: usize = 0;
        let n = self.editor.lines.len();
        while i < n
            invariant
                i <= n == d.len() == self.editor.lines.len(),
                self.editor.cursor == old(self).editor.cursor,
                self.editor.mode == old(self).editor.mode,
                target == case_doc(d, lo.pos(), hi.pos(), k),
                forall|q: int| 0 <= q < i ==> #[trigger] doc(self.editor.lines)[q] == target[q],
                forall|q: int| i <= q < n ==> #[trigger] doc(self.editor.lines)[q] == d[q],
            decreases n - i,
        {
            proof {
                lemma_doc(self.editor.lines);
            }
            let ghost before_rows = doc(self.editor.lines);
            assert(doc(self.editor.lines)[i as int] == d[i as int]);
            let mut line = self.editor.lines.remove(i);
            assert(line@ == d[i as int]);
            let mut j: usize = 0;
            while j < line.len()
                invariant
                    j <= line.len() == d[i as int].len(),
                    target == case_doc(d, lo.pos(), hi.pos(), k),
                    i < d.len(),
                    forall|q: int| 0 <= q < j ==> #[trigger] line@[q] == target[i as int][q],
                    forall|q: int| j <= q < line.len() ==> #[trigger] line@[q] == d[i as int][q],
                decreases line.len() - j,
            {
                let inside = !(i < lo.row || (i == lo.row && j < lo.col)) && !(hi.row < i || (hi.row == i && hi.col < j));
                if inside {
                    let c = apply_case(k, line[j]);
                    line.set(j, c);
                }
                j += 1;
            }
            assert(line@ =~= target[i as int]);
            self.editor.lines.insert(i, line);
            proof {
                lemma_doc(self.editor.lines);
                assert forall|q: int| 0 <= q < i + 1 implies #[trigger] doc(self.editor.lines)[q] == target[q] by {
                    if q < i {
                        assert(doc(self.editor.lines)[q] == before_rows[q]);
                    }
                }
                assert forall|q: int| i + 1 <= q < n implies #[trigger] doc(self.editor.lines)[q] == d[q] by {
                    assert(doc(self.editor.lines)[q] == before_rows[q]);
                }
            }
            i += 1;
        }
        proof {
            lemma_doc(self.editor.lines);
            assert(self.d() =~= target);
        }
        self.editor.selection = None;
        self.dirty = true;
    }

    /// Puts back the rows and cursor recorded last, keeping the present ones
    /// for redo; marks the note changed only when the rows differ.
    pub fn undo(&mut self)
        requires
            old(self).wf(),
        ensures
            final(self).wf(),
            restore_post(*old(self), *final(self), old(self).undo_stack),
    {
        self.restore(true);
    }

    /// Puts back the rows and cursor that the last undo replaced.
    pub fn redo(&mut self)
        requires
            old(self).wf(),
        ensures
            final(self).wf(),
            restore_post(*old(self), *final(self), old(self).redo_stack),
    {
        self.restore(false);
    }

    fn restore(&mut self, from_undo: bool)
        requires
            old(self).wf(),
        ensures
            final(self).wf(),
            restore_post(*old(self), *final(self), if from_undo { old(self).undo_stack } else { old(self).redo_stack }),
    {
        let popped = if from_undo { self.undo_stack.pop() } else { self.redo_stack.pop() };
        let snap = match popped {
            Some(s) => s,
            None => return,
        };
        let current = Snapshot { lines: copy_lines(&self.editor.lines), cursor: self.editor.cursor };
        if from_undo {
            self.redo_stack.push(current);
        } else {
            self.undo_stack.push(current);
        }
        let mut lines = snap.lines;
        if lines.len() == 0 {
            lines.push(Vec::new());
            proof {
                lemma_doc(lines);
                assert(doc(lines) =~= seq![Seq::<char>::empty()]);
            }
        }
        let changed = !same_lines(&lines, &self.editor.lines);
        self.editor.lines = lines;
        proof {
            lemma_doc(self.editor.lines);
        }
        let last = self.editor.lines.len() - 1;
        let row = if snap.cursor.row < last { snap.cursor.row } else { last };
        self.editor.cursor = Index2::new(row, snap.cursor.col);
        self.editor.clamp_column();
        self.editor.selection = None;
        if changed {
            self.dirty = true;
        }
    }

    /// The ordered ends of the selection, when both stand in the document;
    /// the range runs from the first end to just past the last.
    pub fn selection_range(&self) -> (r: Option<(Index2, Index2)>)
        requires
            self.wf(),
        ensures
            r is Some == sel_range(self.d(), self.editor.selection) is Some,
            r is Some ==> (r.unwrap().0.pos(), r.unwrap().1.pos()) == sel_range(self.d(), self.editor.selection).unwrap(),
    {
        proof {
            lemma_doc(self.editor.lines);
        }
        let sel = match self.editor.selection {
            Some(s) => s,
            None => return None,
        };
        let (lo, hi) = if sel.end.row < sel.start.row || (sel.end.row == sel.start.row && sel.end.col < sel.start.col) {
            (sel.end, sel.start)
        } else {
            (sel.start, sel.end)
        };
        let n = self.editor.lines.len();
        if lo.row >= n || hi.row >= n {
            return None;
        }
        let lo_len = self.editor.lines[lo.row].len();
        let hi_len = self.editor.lines[hi.row].len();
        if lo.col > lo_len {
            return None;
        }
        let end = Index2::new(hi.row, if hi.col >= hi_len { hi_len } else { hi.col + 1 });
        if end.row == lo.row && end.col < lo.col {
            return None;
        }
        Some((lo, end))
    }

    /// Copies the selection (both ends included) to the clipboard, char-wise,
    /// and drops the selection.
    pub fn yank_selection(&mut self)
        requires
            old(self).wf(),
        ensures
            final(self).wf(),
            final(self).d() == old(self).d(),
            final(self).editor.selection is None,
            !final(self).line_yanked,
            sel_range(old(self).d(), old(self).editor.selection) is Some ==> final(self).clipboard.content() == range_text(
                old(self).d(), sel_range(old(self).d(), old(self).editor.selection).unwrap().0,
                sel_range(old(self).d(), old(self).editor.selection).unwrap().1),
    {
        match self.selection_range() {
            Some((a, b)) => {
                let text = self.editor.text_between(a, b);
                self.clipboard.set_text(string_of(&text));
            },
            None => {},
        }
        self.editor.selection = None;
        self.line_yanked = false;
    }

    /// Cuts the selection (both ends included) into the clipboard and leaves
    /// Visual mode for `m`.
    pub fn delete_selection(&mut self, m: EditorMode)
        requires
            old(self).wf(),
            m != EditorMode::Visual,
        ensures
            final(self).wf(),
            final(self).editor.selection is None,
            final(self).editor.mode == m,
            !final(self).line_yanked,
            sel_range(old(self).d(), old(self).editor.selection) is Some ==> final(self).d() == delete_range_doc(
                old(self).d(), sel_range(old(self).d(), old(self).editor.selection).unwrap().0,
                sel_range(old(self).d(), old(self).editor.selection).unwrap().1),
            sel_range(old(self).d(), old(self).editor.selection) is Some ==> final(self).clipboard.content() == range_text(
                old(self).d(), sel_range(old(self).d(), old(self).editor.selection).unwrap().0,
                sel_range(old(self).d(), old(self).editor.selection).unwrap().1),
            sel_range(old(self).d(), old(self).editor.selection) is None ==> final(self).d() == old(self).d(),
            final(self).dirty,
    {
        self.dirty = true;
        match self.selection_range() {
            Some((a, b)) => {
                self.cut_between(a, b);
            },
            None => {},
        }
        self.editor.selection = None;
        self.editor.switch_mode(m);
        self.line_yanked = false;
    }
}


proof fn lemma_split_single_row(s: Seq<char>)
    requires
        forall|i: int| 0 <= i < s.len() ==> s[i] != '\n',
    ensures
        split_lines(s) == seq![s],
    decreases s.len(),
{
    if s.len() > 0 {
        lemma_split_single_row(s.drop_last());
        assert(s.drop_last().push(s.last()) =~= s);
    } else {
        assert(s =~= Seq::<char>::empty());
    }
}

/// Yanking a row with `yy` and pasting with `p` puts a copy of the row just
/// below it and leaves every other row, the yanked one included, as it was;
/// as the paste leaves the clipboard alone, each further paste adds one more
/// copy.
pub proof fn lemma_yank_line_then_paste(d: Seq<Seq<char>>, r: int, c: int)
    requires
        0 <= r < d.len(),
        forall|i: int| 0 <= i < d[r].len() ==> d[r][i] != '\n',
    ensures
        paste_doc(d, (r, c), line_clip(d, r, r)) == d.insert(r + 1, d[r]),
{
    let clip = line_clip(d, r, r);
    assert(range_text(d, (r, 0), (r, d[r].len() as int)) =~= d[r]);
    assert(clip.drop_first() =~= d[r]);
    lemma_split_single_row(d[r]);
    assert(d.subrange(0, r + 1) + seq![d[r]] + d.subrange(r + 1, d.len() as int) =~= d.insert(r + 1, d[r]));
}

} // verus!
