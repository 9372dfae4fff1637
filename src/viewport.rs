use vstd::prelude::*;
use crate::notebook::{Notebook, ScrollAnchor, ScrollRequest};

verus! {

pub open spec fn sat_sub(a: int, b: int) -> int {
    if a > b {
        a - b
    } else {
        0
    }
}

/// The row a scroll command wants at the top of a viewport of `h` rows.
pub open spec fn desired_top_spec(req: ScrollRequest, row: int, h: int) -> int {
    match req {
        ScrollRequest::Top => row,
        ScrollRequest::Center => sat_sub(row, h / 2),
        ScrollRequest::Bottom => sat_sub(row, sat_sub(h, 1)),
    }
}

/// For a scroll command: the wanted top, the lowest row the widget can bring
/// to the bottom, and the top it can actually reach.
pub open spec fn scroll_geometry(req: ScrollRequest, row: int, h: int, total: int) -> (int, int, int) {
    let top = desired_top_spec(req, row, h);
    let bottom = top + sat_sub(h, 1);
    let clamped_bottom = if bottom < sat_sub(total, 1) { bottom } else { sat_sub(total, 1) };
    (top, clamped_bottom, sat_sub(clamped_bottom, sat_sub(h, 1)))
}

/// On a frame with no new scroll command, the anchor follows the cursor up:
/// the shift to apply and the anchor to keep.
pub open spec fn anchor_step(a: ScrollAnchor, row: int) -> (int, Option<ScrollAnchor>) {
    let top = if (a.desired_top as int) < row { a.desired_top as int } else { row };
    let shift = sat_sub(top, a.actual_viewport_y as int);
    if shift == 0 {
        (0, None)
    } else {
        (shift, Some(ScrollAnchor { desired_top: top as usize, actual_viewport_y: a.actual_viewport_y }))
    }
}

/// What a frame's layout has to do before drawing.
#[derive(Clone, Copy, Debug, PartialEq, Eq, Structural)]
pub struct ScrollShift {
    /// Rows to shift the drawn text up by.
    pub shift: usize,
    /// For a new scroll command: the row to lay the widget out at, after a
    /// first layout at row 0, so that its viewport ends on that row.
    pub prerender_row: Option<usize>,
}

/// The row a scroll command wants at the top of a viewport of `h` rows.
pub fn desired_top(req: ScrollRequest, row: usize, h: usize) -> (r: usize)
    ensures
        r as int == desired_top_spec(req, row as int, h as int),
{
    match req {
        ScrollRequest::Top => row,
        ScrollRequest::Center => row.saturating_sub(h / 2),
        ScrollRequest::Bottom => row.saturating_sub(h.saturating_sub(1)),
    }
}

impl Notebook {
    /// Consumes a pending scroll command, or lets a kept anchor follow the
    /// cursor; `area_height` is the editor's height, borders included.
    pub fn prepare_scroll_viewport(&mut self, area_height: u16) -> (r: ScrollShift)
        requires
            old(self).wf(),
        ensures
            final(self).editor == old(self).editor,
            final(self).pending_scroll is None,
            *final(self) == (Notebook { pending_scroll: None, scroll_anchor: final(self).scroll_anchor, ..*old(self) }),
            ({
                let row = old(self).editor.cursor.row as int;
                let h = sat_sub(area_height as int, 2);
                match old(self).pending_scroll {
                    Some(req) => {
                        let (top, cb, start) = scroll_geometry(req, row, h, old(self).editor.lines.len() as int);
                        let shift = sat_sub(top, start);
                        &&& r.shift == shift
                        &&& r.prerender_row == Some(cb as usize)
                        &&& final(self).scroll_anchor == (if shift > 0 {
                            Some(ScrollAnchor { desired_top: top as usize, actual_viewport_y: start as usize })
                        } else {
                            None
                        })
                    },
                    None => {
                        &&& r.prerender_row is None
                        &&& match old(self).scroll_anchor {
                            Some(a) => r.shift == anchor_step(a, row).0 && final(self).scroll_anchor == anchor_step(a, row).1,
                            None => r.shift == 0 && final(self).scroll_anchor is None,
                        }
                    },
                }
            }),
    {
        let row = self.editor.cursor.row;
        if let Some(req) = self.pending_scroll {
            self.pending_scroll = None;
            let h: usize = (area_height as usize).saturating_sub(2);
            let total = self.editor.lines.len();
            let top = desired_top(req, row, h);
            let h1 = h.saturating_sub(1);
            let last = total.saturating_sub(1);
            let clamped_bottom = if top >= last || h1 >= last - top { last } else { top + h1 };
            let start = clamped_bottom.saturating_sub(h1);
            let shift = top.saturating_sub(start);
            self.scroll_anchor = if shift > 0 {
                Some(ScrollAnchor { desired_top: top, actual_viewport_y: start })
            } else {
                None
            };
            return ScrollShift { shift, prerender_row: Some(clamped_bottom) };
        }
        if let Some(a) = self.scroll_anchor {
            let top = if a.desired_top < row { a.desired_top } else { row };
            let shift = top.saturating_sub(a.actual_viewport_y);
            if shift == 0 {
                self.scroll_anchor = None;
            } else {
                self.scroll_anchor = Some(ScrollAnchor { desired_top: top, actual_viewport_y: a.actual_viewport_y });
            }
            return ScrollShift { shift, prerender_row: None };
        }
        ScrollShift { shift: 0, prerender_row: None }
    }
}

/// With an anchor kept, the first row shown is the wanted top, or the
/// cursor's row once the cursor has moved above it: moving up by a row moves
/// the view by that row and no more, moving down leaves it where it is, and
/// once the cursor reaches the row the widget shows by itself the anchor is
/// released.
pub proof fn lemma_anchor_tracks_cursor(a: ScrollAnchor, row: int)
    requires
        a.actual_viewport_y < a.desired_top,
        0 <= row,
    ensures
        ({
            let (shift, next) = anchor_step(a, row);
            let shown = a.actual_viewport_y + shift;
            &&& row >= a.desired_top ==> shown == a.desired_top && next == Some(a)
            &&& a.actual_viewport_y < row < a.desired_top ==> shown == row
                && next == Some(ScrollAnchor { desired_top: row as usize, actual_viewport_y: a.actual_viewport_y })
            &&& row <= a.actual_viewport_y ==> shift == 0 && next is None
        }),
{
}

/// After `zt` on a document too short to scroll that far, moving the cursor
/// up one row shows the view starting at the cursor's new row: one row up,
/// with no jump back to where the widget would scroll by itself.
pub proof fn lemma_scroll_top_then_up(row: int, h: int, total: int)
    requires
        0 < row < total <= usize::MAX,
        h >= 1,
        sat_sub(row, scroll_geometry(ScrollRequest::Top, row, h, total).2) > 0,
    ensures
        ({
            let (top, cb, start) = scroll_geometry(ScrollRequest::Top, row, h, total);
            let a = ScrollAnchor { desired_top: top as usize, actual_viewport_y: start as usize };
            let (shift, next) = anchor_step(a, row - 1);
            &&& top == row
            &&& start + shift == if row - 1 > start { row - 1 } else { start }
            &&& row - 1 <= start ==> next is None
        }),
{
}

} // verus!
