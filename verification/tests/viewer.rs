use termview::document::Document;
use termview::document::RenderLine;
use termview::viewer::Viewer;

fn doc_with_lines(n: usize) -> Document {
    let mut doc = Document::new();
    for _ in 0..n {
        doc.lines.push(RenderLine::new());
    }
    doc
}

#[test]
fn jump_to_last_line_scrolls_window() {
    // A 100-line document with 10 visible rows: the last-line command puts
    // the cursor on line 99 and the window top on line 90.
    let mut v = Viewer::new(doc_with_lines(100), "f".to_string());
    v.handle_key('G', 10);
    assert_eq!(v.cursor_line, 99);
    assert_eq!(v.top_line, 90);
}

#[test]
fn cursor_moves_stay_inside_window() {
    let mut v = Viewer::new(doc_with_lines(100), "f".to_string());
    let cmds = ['j', 'j', 'd', 'd', 'u', 'k', 'G', 'u', 'g', 'd', 'j'];
    for c in cmds {
        v.handle_key(c, 10);
        assert!(v.cursor_line < 100);
        assert!(v.top_line <= v.cursor_line);
        assert!(v.cursor_line < v.top_line + 10);
    }
}

#[test]
fn single_steps_clamp_at_edges() {
    let mut v = Viewer::new(doc_with_lines(3), "f".to_string());
    v.handle_key('k', 5);
    assert_eq!(v.cursor_line, 0);
    v.handle_key('j', 5);
    assert_eq!(v.cursor_line, 1);
    v.handle_key('j', 5);
    v.handle_key('j', 5);
    v.handle_key('j', 5);
    assert_eq!(v.cursor_line, 2);
}

#[test]
fn half_page_moves() {
    let mut v = Viewer::new(doc_with_lines(100), "f".to_string());
    v.handle_key('d', 10);
    assert_eq!(v.cursor_line, 5);
    v.handle_key('d', 10);
    assert_eq!(v.cursor_line, 10);
    assert_eq!(v.top_line, 1);
    v.handle_key('u', 10);
    assert_eq!(v.cursor_line, 5);
    assert_eq!(v.top_line, 1);
}

#[test]
fn horizontal_offset_floors_at_zero_and_resets_on_top_jump() {
    let mut v = Viewer::new(doc_with_lines(10), "f".to_string());
    v.handle_key('h', 5);
    assert_eq!(v.left_col, 0);
    v.handle_key('l', 5);
    v.handle_key('l', 5);
    assert_eq!(v.left_col, 2);
    v.handle_key('g', 5);
    assert_eq!(v.left_col, 0);
    assert_eq!(v.cursor_line, 0);
}

#[test]
fn unknown_keys_are_ignored() {
    let mut v = Viewer::new(doc_with_lines(10), "f".to_string());
    v.handle_key('j', 5);
    let (c, t, l) = (v.cursor_line, v.top_line, v.left_col);
    v.handle_key('z', 5);
    assert_eq!((v.cursor_line, v.top_line, v.left_col), (c, t, l));
}

#[test]
fn empty_document_stays_at_line_zero() {
    let mut v = Viewer::new(doc_with_lines(0), "f".to_string());
    v.handle_key('G', 10);
    assert_eq!(v.cursor_line, 0);
    v.handle_key('j', 10);
    assert_eq!(v.cursor_line, 0);
    assert_eq!(v.top_line, 0);
}
