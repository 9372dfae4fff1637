use glues_tui::editor::EditorState;
use glues_tui::notebook::{Notebook, ScrollAnchor};
use glues_tui::transitions::NormalModeTransition as N;
use glues_tui::viewport::{desired_top, ScrollShift};
use glues_tui::notebook::ScrollRequest;

fn numbered(n: usize) -> Notebook {
    let rows: Vec<Vec<char>> = (1..=n).map(|i| format!("line {i}").chars().collect()).collect();
    Notebook::new(EditorState::new(rows))
}

#[test]
fn desired_top_formulas() {
    assert_eq!(desired_top(ScrollRequest::Top, 10, 8), 10);
    assert_eq!(desired_top(ScrollRequest::Center, 10, 8), 6);
    assert_eq!(desired_top(ScrollRequest::Bottom, 10, 8), 3);
    assert_eq!(desired_top(ScrollRequest::Center, 2, 8), 0);
    assert_eq!(desired_top(ScrollRequest::Bottom, 2, 8), 0);
}

#[test]
fn scroll_top_midfile_needs_no_shift() {
    let mut nb = numbered(100);
    nb.handle_normal_mode_transition(N::MoveCursorDown(10));
    nb.handle_normal_mode_transition(N::ScrollTop);
    let r = nb.prepare_scroll_viewport(20);
    assert_eq!(r, ScrollShift { shift: 0, prerender_row: Some(27) });
    assert!(nb.scroll_anchor.is_none());
    assert!(nb.pending_scroll.is_none());
}

#[test]
fn scroll_zt_then_jk_stable_viewport() {
    // 20 rows, viewport of 10 visible rows, zt on row 18
    let mut nb = numbered(20);
    nb.handle_normal_mode_transition(N::MoveCursorDown(18));
    nb.handle_normal_mode_transition(N::ScrollTop);
    let r = nb.prepare_scroll_viewport(12);
    assert_eq!(r, ScrollShift { shift: 8, prerender_row: Some(19) });
    assert_eq!(nb.scroll_anchor, Some(ScrollAnchor { desired_top: 18, actual_viewport_y: 10 }));
    nb.handle_normal_mode_transition(N::MoveCursorDown(1));
    assert_eq!(nb.prepare_scroll_viewport(12).shift, 8);
    nb.handle_normal_mode_transition(N::MoveCursorUp(1));
    assert_eq!(nb.prepare_scroll_viewport(12).shift, 8);
    nb.handle_normal_mode_transition(N::MoveCursorUp(1));
    assert_eq!(nb.prepare_scroll_viewport(12).shift, 7);
    nb.handle_normal_mode_transition(N::MoveCursorUp(5));
    assert_eq!(nb.prepare_scroll_viewport(12).shift, 2);
    assert_eq!(nb.scroll_anchor, Some(ScrollAnchor { desired_top: 12, actual_viewport_y: 10 }));
}

#[test]
fn scroll_zt_then_k_releases_anchor() {
    let mut nb = numbered(20);
    nb.handle_normal_mode_transition(N::MoveCursorDown(18));
    nb.handle_normal_mode_transition(N::ScrollTop);
    nb.prepare_scroll_viewport(12);
    nb.handle_normal_mode_transition(N::MoveCursorUp(20));
    assert_eq!(nb.prepare_scroll_viewport(12).shift, 0);
    assert!(nb.scroll_anchor.is_none());
    nb.handle_normal_mode_transition(N::MoveCursorDown(1));
    assert_eq!(nb.prepare_scroll_viewport(12), ScrollShift { shift: 0, prerender_row: None });
}

#[test]
fn scroll_zz_midfile_jk_no_shift() {
    let mut nb = numbered(100);
    nb.handle_normal_mode_transition(N::MoveCursorDown(50));
    nb.handle_normal_mode_transition(N::ScrollCenter);
    let r = nb.prepare_scroll_viewport(20);
    assert_eq!(r, ScrollShift { shift: 0, prerender_row: Some(58) });
    nb.handle_normal_mode_transition(N::MoveCursorDown(3));
    assert_eq!(nb.prepare_scroll_viewport(20).shift, 0);
    nb.handle_normal_mode_transition(N::MoveCursorUp(3));
    assert_eq!(nb.prepare_scroll_viewport(20).shift, 0);
}

#[test]
fn scroll_bottom_on_short_document() {
    let mut nb = numbered(5);
    nb.handle_normal_mode_transition(N::MoveCursorDown(4));
    nb.handle_normal_mode_transition(N::ScrollBottom);
    assert_eq!(nb.prepare_scroll_viewport(12), ScrollShift { shift: 0, prerender_row: Some(4) });
}
