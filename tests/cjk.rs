use glues_tui::chars::char_class;
use glues_tui::editor::EditorState;
use glues_tui::notebook::Notebook;
use glues_tui::transitions::NormalModeTransition as N;

fn notebook(lines: &[&str]) -> Notebook {
    let rows: Vec<Vec<char>> = lines.iter().map(|l| l.chars().collect()).collect();
    Notebook::new(EditorState::new(rows))
}

fn cursor(nb: &Notebook) -> (usize, usize) {
    (nb.editor.cursor.row, nb.editor.cursor.col)
}

fn text(nb: &Notebook) -> String {
    let rows: Vec<String> = nb.editor.lines.iter().map(|r| r.iter().collect()).collect();
    rows.join("\n")
}

fn run(nb: &mut Notebook, t: N) {
    nb.handle_normal_mode_transition(t);
}

#[test]
fn cjk_characters_are_word_characters() {
    for c in ['안', '녕', '세', '계', '中', '文', '世', '㐀', '힣', 'ひ', 'カ'] {
        assert_eq!(char_class(&c), 0);
    }
    assert_eq!(char_class(&' '), 1);
    assert_eq!(char_class(&'!'), 2);
    assert_eq!(char_class(&'_'), 0);
}

#[test]
fn word_forward_korean() {
    let mut nb = notebook(&["안녕 세계 테스트"]);
    assert_eq!(cursor(&nb), (0, 0));
    run(&mut nb, N::MoveCursorWordForward(1));
    assert_eq!(cursor(&nb), (0, 3));
    run(&mut nb, N::MoveCursorWordForward(1));
    assert_eq!(cursor(&nb), (0, 6));
}

#[test]
fn word_end_korean() {
    let mut nb = notebook(&["안녕 세계 테스트"]);
    run(&mut nb, N::MoveCursorWordEnd(1));
    assert_eq!(cursor(&nb), (0, 1));
    run(&mut nb, N::MoveCursorWordEnd(1));
    assert_eq!(cursor(&nb), (0, 4));
    run(&mut nb, N::MoveCursorWordEnd(1));
    assert_eq!(cursor(&nb), (0, 8));
}

#[test]
fn word_back_korean() {
    let mut nb = notebook(&["안녕 세계 테스트"]);
    run(&mut nb, N::MoveCursorLineEnd);
    let end_col = cursor(&nb).1;
    run(&mut nb, N::MoveCursorWordBack(1));
    assert_eq!(cursor(&nb), (0, 6));
    run(&mut nb, N::MoveCursorWordBack(1));
    assert_eq!(cursor(&nb), (0, 3));
    run(&mut nb, N::MoveCursorWordBack(1));
    assert_eq!(cursor(&nb), (0, 0));
    assert!(end_col >= 8, "$ should go to end of line, got {end_col}");
}

#[test]
fn word_motion_mixed() {
    let mut nb = notebook(&["hello 세계! foo"]);
    assert_eq!(cursor(&nb), (0, 0));
    run(&mut nb, N::MoveCursorWordForward(1));
    assert_eq!(cursor(&nb), (0, 6));
    run(&mut nb, N::MoveCursorWordForward(1));
    assert_eq!(cursor(&nb), (0, 8));
    run(&mut nb, N::MoveCursorWordForward(1));
    assert_eq!(cursor(&nb), (0, 10));
    run(&mut nb, N::MoveCursorWordBack(1));
    assert_eq!(cursor(&nb), (0, 8));
    run(&mut nb, N::MoveCursorWordBack(1));
    assert_eq!(cursor(&nb), (0, 6));
    run(&mut nb, N::MoveCursorWordBack(1));
    assert_eq!(cursor(&nb), (0, 0));
    run(&mut nb, N::MoveCursorWordEnd(1));
    assert_eq!(cursor(&nb), (0, 4));
    run(&mut nb, N::MoveCursorWordEnd(1));
    assert_eq!(cursor(&nb), (0, 7));
}

#[test]
fn delete_inner_word_korean() {
    let mut nb = notebook(&["안녕 세계 테스트"]);
    run(&mut nb, N::MoveCursorWordForward(1));
    assert_eq!(cursor(&nb), (0, 3));
    run(&mut nb, N::DeleteInsideWord(1));
    assert_eq!(text(&nb), "안녕  테스트");
}

#[test]
fn change_inner_word_korean() {
    let mut nb = notebook(&["안녕 세계 테스트"]);
    run(&mut nb, N::MoveCursorWordForward(1));
    run(&mut nb, N::DeleteInsideWord(1));
    run(&mut nb, N::InsertAtCursor);
    let at = nb.editor.cursor;
    nb.editor.insert_text(at, &"지구".chars().collect());
    assert_eq!(text(&nb), "안녕 지구 테스트");
}

#[test]
fn word_forward_multiline_korean() {
    let mut nb = notebook(&["가나다", "라마바"]);
    assert_eq!(cursor(&nb), (0, 0));
    run(&mut nb, N::MoveCursorWordForward(1));
    assert_eq!(cursor(&nb), (1, 0));
}

#[test]
fn delete_word_end_korean() {
    let mut nb = notebook(&["안녕 세계 테스트"]);
    assert_eq!(cursor(&nb), (0, 0));
    run(&mut nb, N::DeleteWordEnd(1));
    assert_eq!(text(&nb), " 세계 테스트");
}
