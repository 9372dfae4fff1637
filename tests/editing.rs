use glues_tui::buffer::{EditorMode, Index2};
use glues_tui::clipboard::ClipboardHandle;
use glues_tui::editor::EditorState;
use glues_tui::notebook::{Notebook, ScrollRequest};
use glues_tui::transitions::{NormalModeTransition as N, TabEffect, VisualModeTransition as V};

fn notebook(lines: &[&str]) -> Notebook {
    let rows: Vec<Vec<char>> = lines.iter().map(|l| l.chars().collect()).collect();
    Notebook::new(EditorState::new(rows))
}

fn cursor(nb: &Notebook) -> (usize, usize) {
    (nb.editor.cursor.row, nb.editor.cursor.col)
}

fn text(nb: &Notebook) -> String {
    let rows: Vec<String> = nb.editor.lines.iter().map(|r| r.iter().collect()).collect();
    rows.join("\n")
}

fn run(nb: &mut Notebook, t: N) -> TabEffect {
    nb.handle_normal_mode_transition(t)
}

#[test]
fn yank_line_then_paste() {
    let mut nb = notebook(&["first", "second"]);
    run(&mut nb, N::YankLines(1));
    assert_eq!(nb.clipboard.get_text(), "\nfirst");
    assert!(nb.line_yanked);
    run(&mut nb, N::Paste);
    assert_eq!(text(&nb), "first\nfirst\nsecond");
    run(&mut nb, N::Paste);
    assert_eq!(text(&nb), "first\nfirst\nfirst\nsecond");
    assert!(nb.dirty);
}

#[test]
fn yank_several_lines_then_paste() {
    let mut nb = notebook(&["a", "b", "c"]);
    run(&mut nb, N::YankLines(2));
    assert_eq!(nb.clipboard.get_text(), "\na\nb");
    assert_eq!(cursor(&nb), (0, 0));
    run(&mut nb, N::MoveCursorBottom);
    run(&mut nb, N::Paste);
    assert_eq!(text(&nb), "a\nb\nc\na\nb");
}

#[test]
fn yank_lines_past_the_end_stops_at_last_row() {
    let mut nb = notebook(&["a", "b"]);
    run(&mut nb, N::MoveCursorDown(1));
    run(&mut nb, N::YankLines(5));
    assert_eq!(nb.clipboard.get_text(), "\nb");
}

#[test]
fn paste_charwise_after_cursor() {
    let mut nb = notebook(&["abc"]);
    nb.clipboard.set_text("XY".to_string());
    run(&mut nb, N::Paste);
    assert_eq!(text(&nb), "aXYbc");
    let mut nb = notebook(&["abc"]);
    nb.clipboard.set_text("1\n2".to_string());
    run(&mut nb, N::Paste);
    assert_eq!(text(&nb), "a1\n2bc");
}

#[test]
fn paste_with_empty_clipboard_does_nothing() {
    let mut nb = notebook(&["abc"]);
    run(&mut nb, N::Paste);
    assert_eq!(text(&nb), "abc");
    assert!(nb.dirty);
}

#[test]
fn jump_to_blank_row_lands_on_column_zero() {
    let mut nb = notebook(&["abc", "    ", "  x"]);
    run(&mut nb, N::MoveCursorToLine(2));
    assert_eq!(cursor(&nb), (1, 0));
    run(&mut nb, N::MoveCursorLineNonEmptyStart);
    assert_eq!(cursor(&nb), (1, 0));
    run(&mut nb, N::MoveCursorToLine(3));
    assert_eq!(cursor(&nb), (2, 2));
}

#[test]
fn deleting_chars_leaves_the_clipboard_alone() {
    let mut nb = notebook(&["abcdef"]);
    nb.clipboard.set_text("keep".to_string());
    run(&mut nb, N::DeleteChars(2));
    run(&mut nb, N::MoveCursorForward(2));
    run(&mut nb, N::DeleteCharsBack(1));
    assert_eq!(text(&nb), "cef");
    assert_eq!(nb.clipboard.get_text(), "keep");
    assert!(nb.dirty);
}

#[test]
fn delete_zero_lines_only_moves_to_first_non_blank() {
    let mut nb = notebook(&["  abc"]);
    run(&mut nb, N::MoveCursorLineEnd);
    run(&mut nb, N::DeleteLines(0));
    assert_eq!(text(&nb), "  abc");
    assert_eq!(cursor(&nb), (0, 2));
    assert!(nb.line_yanked && nb.dirty);
}

#[test]
fn mutating_commands_mark_the_note_dirty() {
    let mut nb = notebook(&["안녕 세계 테스트"]);
    run(&mut nb, N::MoveCursorWordForward(1));
    run(&mut nb, N::DeleteInsideWord(1));
    assert!(nb.dirty);
    let mut nb = notebook(&["abc"]);
    run(&mut nb, N::SwitchCase);
    assert!(nb.dirty);
    let mut nb = notebook(&["abc"]);
    run(&mut nb, N::ScrollTop);
    assert!(!nb.dirty);
}

#[test]
fn delete_line_with_dd() {
    let mut nb = notebook(&["one", "  two", "three"]);
    run(&mut nb, N::DeleteLines(1));
    assert_eq!(text(&nb), "  two\nthree");
    assert_eq!(cursor(&nb), (0, 2));
    assert_eq!(nb.clipboard.get_text(), "\none");
    assert!(nb.line_yanked && nb.dirty);
}

#[test]
fn delete_all_lines_keeps_one_empty_row() {
    let mut nb = notebook(&["one", "two"]);
    run(&mut nb, N::DeleteLines(5));
    assert_eq!(nb.editor.lines.len(), 1);
    assert_eq!(text(&nb), "");
    assert_eq!(nb.clipboard.get_text(), "\none\ntwo");
}

#[test]
fn delete_lines_up() {
    let mut nb = notebook(&["a", "b", "c", "d"]);
    run(&mut nb, N::MoveCursorDown(2));
    run(&mut nb, N::DeleteLinesUp(2));
    assert_eq!(text(&nb), "a\nd");
    assert_eq!(cursor(&nb), (1, 0));
}

#[test]
fn delete_lines_and_insert() {
    let mut nb = notebook(&["a", "bb", "cc", "d"]);
    run(&mut nb, N::MoveCursorDown(1));
    run(&mut nb, N::DeleteLinesAndInsert(2));
    assert_eq!(text(&nb), "a\n\nd");
    assert_eq!(nb.editor.mode, EditorMode::Insert);
    assert_eq!(nb.clipboard.get_text(), "\nbb\ncc");
}

#[test]
fn delete_inside_word() {
    let mut nb = notebook(&["hello world foo bar"]);
    run(&mut nb, N::MoveCursorWordForward(1));
    run(&mut nb, N::DeleteInsideWord(1));
    assert_eq!(text(&nb), "hello  foo bar");
    assert_eq!(nb.clipboard.get_text(), "world");
    run(&mut nb, N::DeleteInsideWord(2));
    assert_eq!(text(&nb), " bar");
    assert!(!nb.line_yanked);
}

#[test]
fn delete_chars_forward_and_back() {
    let mut nb = notebook(&["abcdef"]);
    run(&mut nb, N::MoveCursorForward(2));
    run(&mut nb, N::DeleteChars(2));
    assert_eq!(text(&nb), "abef");
    run(&mut nb, N::DeleteCharsBack(5));
    assert_eq!(text(&nb), "ef");
    assert_eq!(cursor(&nb), (0, 0));
    run(&mut nb, N::DeleteChars(10));
    assert_eq!(text(&nb), "");
}

#[test]
fn delete_line_start_and_end() {
    let mut nb = notebook(&["  hello world"]);
    run(&mut nb, N::MoveCursorForward(8));
    run(&mut nb, N::DeleteLineStart);
    assert_eq!(text(&nb), "  world");
    let mut nb = notebook(&["abc", "def", "ghi"]);
    run(&mut nb, N::MoveCursorForward(1));
    run(&mut nb, N::DeleteLineEnd(2));
    assert_eq!(text(&nb), "a\nghi");
    assert_eq!(cursor(&nb), (0, 0));
}

#[test]
fn switch_case_under_cursor() {
    let mut nb = notebook(&["hello"]);
    run(&mut nb, N::SwitchCase);
    assert_eq!(text(&nb), "Hello");
    run(&mut nb, N::SwitchCase);
    assert_eq!(text(&nb), "hello");
    assert_eq!(cursor(&nb), (0, 0));
}

#[test]
fn undo_then_redo_after_edit() {
    let mut nb = notebook(&["Hello"]);
    run(&mut nb, N::DeleteChars(1));
    assert_eq!(text(&nb), "ello");
    run(&mut nb, N::Undo);
    assert_eq!(text(&nb), "Hello");
    run(&mut nb, N::Redo);
    assert_eq!(text(&nb), "ello");
    run(&mut nb, N::Redo);
    assert_eq!(text(&nb), "ello");
}

#[test]
fn undo_with_no_history_is_clean() {
    let mut nb = notebook(&["x"]);
    run(&mut nb, N::Undo);
    assert!(!nb.dirty);
    assert_eq!(text(&nb), "x");
}

#[test]
fn insert_commands() {
    let mut nb = notebook(&["abc", "def"]);
    run(&mut nb, N::InsertNewLineBelow);
    assert_eq!(text(&nb), "abc\n\ndef");
    assert_eq!(cursor(&nb), (1, 0));
    assert_eq!(nb.editor.mode, EditorMode::Insert);
    let mut nb = notebook(&["abc"]);
    run(&mut nb, N::InsertNewLineAbove);
    assert_eq!(text(&nb), "\nabc");
    let mut nb = notebook(&["abc"]);
    run(&mut nb, N::InsertAtLineEnd);
    assert_eq!(cursor(&nb), (0, 3));
    let mut nb = notebook(&["abc"]);
    run(&mut nb, N::InsertAfterCursor);
    assert_eq!(cursor(&nb), (0, 1));
    run(&mut nb, N::IdleMode);
    assert_eq!(nb.editor.mode, EditorMode::Normal);
    assert_eq!(cursor(&nb), (0, 0));
}

#[test]
fn cursor_moves_are_clamped() {
    let mut nb = notebook(&["long line", "ab", "  xyz"]);
    run(&mut nb, N::MoveCursorLineEnd);
    assert_eq!(cursor(&nb), (0, 8));
    run(&mut nb, N::MoveCursorDown(1));
    assert_eq!(cursor(&nb), (1, 1));
    run(&mut nb, N::MoveCursorDown(10));
    assert_eq!(cursor(&nb), (2, 1));
    run(&mut nb, N::MoveCursorUp(10));
    assert_eq!(cursor(&nb), (0, 1));
    run(&mut nb, N::MoveCursorBack(5));
    assert_eq!(cursor(&nb), (0, 0));
    run(&mut nb, N::MoveCursorToLine(3));
    assert_eq!(cursor(&nb), (2, 2));
    run(&mut nb, N::MoveCursorToLine(99));
    assert_eq!(cursor(&nb), (2, 2));
    run(&mut nb, N::MoveCursorTop);
    assert_eq!(cursor(&nb).0, 0);
}

#[test]
fn gateway_moves_cursor_to_top() {
    let mut nb = notebook(&["a", "b", "c"]);
    run(&mut nb, N::MoveCursorBottom);
    assert_eq!(cursor(&nb), (2, 0));
    run(&mut nb, N::GatewayMode);
    assert_eq!(cursor(&nb), (2, 0));
    run(&mut nb, N::MoveCursorTop);
    assert_eq!(cursor(&nb), (0, 0));
}

#[test]
fn toggle_flags_and_scroll_requests() {
    let mut nb = notebook(&["a"]);
    run(&mut nb, N::ToggleSyntaxHighlight);
    assert!(!nb.show_syntax_highlight);
    run(&mut nb, N::ToggleLineNumbers);
    assert!(!nb.show_line_number);
    run(&mut nb, N::ToggleBrowser);
    assert!(!nb.show_browser);
    run(&mut nb, N::ScrollTop);
    assert_eq!(nb.pending_scroll, Some(ScrollRequest::Top));
    run(&mut nb, N::ScrollCenter);
    assert_eq!(nb.pending_scroll, Some(ScrollRequest::Center));
    run(&mut nb, N::ScrollBottom);
    assert_eq!(nb.pending_scroll, Some(ScrollRequest::Bottom));
}

#[test]
fn tab_commands_report_effects() {
    let mut nb = notebook(&["a"]);
    assert_eq!(run(&mut nb, N::NextTab("n1".to_string())), TabEffect::SelectNote("n1".to_string()));
    assert_eq!(run(&mut nb, N::CloseTab("n2".to_string())), TabEffect::CloseNote("n2".to_string()));
    assert_eq!(run(&mut nb, N::MoveTabNext(0)), TabEffect::SyncTabs);
    assert_eq!(run(&mut nb, N::ToggleMode), TabEffect::Unchanged);
}

#[test]
fn visual_yank_and_delete() {
    let mut nb = notebook(&["hello world"]);
    nb.handle_visual_mode_transition(V::IdleMode);
    nb.handle_visual_mode_transition(V::MoveCursorForward(4));
    assert_eq!(nb.editor.selection.unwrap().end, Index2::new(0, 4));
    nb.handle_visual_mode_transition(V::YankSelection);
    assert_eq!(nb.clipboard.get_text(), "hello");
    assert!(nb.editor.selection.is_none());
    nb.handle_visual_mode_transition(V::IdleMode);
    nb.handle_visual_mode_transition(V::MoveCursorWordEnd(1));
    nb.handle_visual_mode_transition(V::DeleteSelection);
    assert_eq!(text(&nb), "hell");
    assert_eq!(nb.clipboard.get_text(), "o world");
    assert_eq!(nb.editor.mode, EditorMode::Normal);
}

#[test]
fn visual_selection_across_rows_and_case() {
    let mut nb = notebook(&["abc", "def", "ghi"]);
    nb.handle_visual_mode_transition(V::MoveCursorForward(1));
    nb.handle_visual_mode_transition(V::IdleMode);
    nb.handle_visual_mode_transition(V::MoveCursorDown(1));
    nb.handle_visual_mode_transition(V::ToUppercase);
    assert_eq!(text(&nb), "aBC\nDEf\nghi");
    assert!(nb.editor.selection.is_none());
    nb.handle_visual_mode_transition(V::IdleMode);
    nb.handle_visual_mode_transition(V::MoveCursorUp(1));
    nb.handle_visual_mode_transition(V::ToLowercase);
    assert_eq!(text(&nb), "abc\ndef\nghi");
    nb.handle_visual_mode_transition(V::IdleMode);
    nb.handle_visual_mode_transition(V::MoveCursorLineEnd);
    nb.handle_visual_mode_transition(V::SwitchCase);
    assert_eq!(text(&nb), "aBC\ndef\nghi");
}

#[test]
fn visual_delete_across_rows_and_insert() {
    let mut nb = notebook(&["abc", "def"]);
    nb.handle_visual_mode_transition(V::MoveCursorForward(1));
    nb.handle_visual_mode_transition(V::IdleMode);
    nb.handle_visual_mode_transition(V::MoveCursorDown(1));
    nb.handle_visual_mode_transition(V::DeleteSelectionAndInsertMode);
    assert_eq!(text(&nb), "af");
    assert_eq!(nb.clipboard.get_text(), "bc\nde");
    assert_eq!(nb.editor.mode, EditorMode::Insert);
}

#[test]
fn clipboard_get_and_set() {
    let mut c = ClipboardHandle::default();
    assert_eq!(c.get_text(), "");
    c.set_text("세계".to_string());
    assert_eq!(c.get_text(), "세계");
}
