use glues_tui::buffer::{EditorMode, Index2};
use glues_tui::editor::EditorState;
use glues_tui::notebook::Notebook;
use glues_tui::transitions::NormalModeTransition as N;

fn notebook(lines: &[&str]) -> Notebook {
    let rows: Vec<Vec<char>> = lines.iter().map(|l| l.chars().collect()).collect();
    Notebook::new(EditorState::new(rows))
}

fn cursor(nb: &Notebook) -> (usize, usize) {
    (nb.editor.cursor.row, nb.editor.cursor.col)
}

fn text(nb: &Notebook) -> String {
    let rows: Vec<String> = nb.editor.lines.iter().map(|r| r.iter().collect()).collect();
    rows.join("\n")
}

fn run(nb: &mut Notebook, t: N) {
    nb.handle_normal_mode_transition(t);
}

#[test]
fn word_forward_skips_next_line_whitespace() {
    let mut nb = notebook(&["hello", "  world"]);
    assert_eq!(cursor(&nb), (0, 0));
    run(&mut nb, N::MoveCursorWordForward(1));
    assert_eq!(cursor(&nb), (1, 2));
}

#[test]
fn word_forward_trailing_whitespace_crosses_line() {
    let mut nb = notebook(&["hi   ", "world"]);
    assert_eq!(cursor(&nb), (0, 0));
    run(&mut nb, N::MoveCursorWordForward(1));
    assert_eq!(cursor(&nb), (1, 0));
}

#[test]
fn word_back_cross_line() {
    let mut nb = notebook(&["hello world", "foo"]);
    run(&mut nb, N::MoveCursorDown(1));
    run(&mut nb, N::MoveCursorLineStart);
    assert_eq!(cursor(&nb), (1, 0));
    run(&mut nb, N::MoveCursorWordBack(1));
    assert_eq!(cursor(&nb), (0, 6));
    run(&mut nb, N::MoveCursorWordBack(1));
    assert_eq!(cursor(&nb), (0, 0));
}

#[test]
fn delete_word_back_exclusive() {
    let mut nb = notebook(&["hello world"]);
    run(&mut nb, N::MoveCursorWordForward(1));
    assert_eq!(cursor(&nb), (0, 6));
    run(&mut nb, N::DeleteWordBack(1));
    assert_eq!(text(&nb), "world");
}

#[test]
fn word_forward_from_whitespace() {
    let mut nb = notebook(&["hello   world"]);
    run(&mut nb, N::MoveCursorWordForward(1));
    assert_eq!(cursor(&nb), (0, 8));
}

#[test]
fn word_forward_from_punctuation() {
    let mut nb = notebook(&["foo!!! bar"]);
    run(&mut nb, N::MoveCursorWordForward(1));
    assert_eq!(cursor(&nb), (0, 3));
    run(&mut nb, N::MoveCursorWordForward(1));
    assert_eq!(cursor(&nb), (0, 7));
}

#[test]
fn word_end_cross_line() {
    let mut nb = notebook(&["hello", "world"]);
    run(&mut nb, N::MoveCursorWordEnd(1));
    assert_eq!(cursor(&nb), (0, 4));
    run(&mut nb, N::MoveCursorWordEnd(1));
    assert_eq!(cursor(&nb), (1, 4));
}

#[test]
fn word_end_skips_whitespace() {
    let mut nb = notebook(&["hi   world"]);
    run(&mut nb, N::MoveCursorWordEnd(1));
    assert_eq!(cursor(&nb), (0, 1));
    run(&mut nb, N::MoveCursorWordEnd(1));
    assert_eq!(cursor(&nb), (0, 9));
}

#[test]
fn word_back_from_leading_whitespace() {
    let mut nb = notebook(&["hello", "   world"]);
    run(&mut nb, N::MoveCursorDown(1));
    run(&mut nb, N::MoveCursorLineStart);
    assert_eq!(cursor(&nb), (1, 0));
    run(&mut nb, N::MoveCursorWordBack(1));
    assert_eq!(cursor(&nb), (0, 0));
}

#[test]
fn delete_inner_word_on_whitespace() {
    let mut nb = notebook(&["hello   world"]);
    run(&mut nb, N::MoveCursorWordForward(1));
    run(&mut nb, N::MoveCursorWordBack(1));
    for _ in 0..5 {
        run(&mut nb, N::MoveCursorForward(1));
    }
    assert_eq!(cursor(&nb), (0, 5));
    run(&mut nb, N::DeleteInsideWord(1));
    assert_eq!(text(&nb), "helloworld");
}

#[test]
fn delete_inner_word_on_punctuation() {
    let mut nb = notebook(&["hello...world"]);
    for _ in 0..5 {
        run(&mut nb, N::MoveCursorForward(1));
    }
    assert_eq!(cursor(&nb), (0, 5));
    run(&mut nb, N::DeleteInsideWord(1));
    assert_eq!(text(&nb), "helloworld");
}

#[test]
fn word_forward_at_document_end_stays() {
    let mut nb = notebook(&["ab", "cd"]);
    run(&mut nb, N::MoveCursorDown(1));
    run(&mut nb, N::MoveCursorLineEnd);
    assert_eq!(cursor(&nb), (1, 1));
    run(&mut nb, N::MoveCursorWordForward(3));
    assert_eq!(cursor(&nb), (1, 1));
}

#[test]
fn word_back_undoes_word_forward() {
    let mut nb = notebook(&["one two three four"]);
    run(&mut nb, N::MoveCursorWordForward(1));
    assert_eq!(cursor(&nb), (0, 4));
    run(&mut nb, N::MoveCursorWordForward(2));
    assert_eq!(cursor(&nb), (0, 14));
    run(&mut nb, N::MoveCursorWordBack(2));
    assert_eq!(cursor(&nb), (0, 4));
    run(&mut nb, N::MoveCursorWordBack(1));
    assert_eq!(cursor(&nb), (0, 0));
}

#[test]
fn word_back_at_document_start_stays() {
    let mut nb = notebook(&["hello"]);
    run(&mut nb, N::MoveCursorWordBack(2));
    assert_eq!(cursor(&nb), (0, 0));
}

#[test]
fn word_motions_on_empty_rows() {
    let mut nb = notebook(&["a", "", "", "b"]);
    run(&mut nb, N::MoveCursorWordForward(1));
    assert_eq!(cursor(&nb), (3, 0));
    let mut empty = notebook(&[]);
    run(&mut empty, N::MoveCursorWordForward(1));
    assert_eq!(cursor(&empty), (0, 0));
    assert_eq!(text(&empty), "");
}

#[test]
fn visual_word_motion_moves_selection_end() {
    let mut nb = notebook(&["alpha beta"]);
    nb.editor.switch_mode(EditorMode::Visual);
    nb.editor.move_word_forward(1);
    let sel = nb.editor.selection.unwrap();
    assert_eq!(sel.start, Index2::new(0, 0));
    assert_eq!(sel.end, Index2::new(0, 6));
}
